//! The decisions of the interactive labelling session: which profiles to
//! go through, what an answer means, and which name and colour result.

use vstd::prelude::*;
use crate::profiles::{is_first_with_id, no_profile_with_id, ProfileError, ProfileStore, VoiceProfile};
use crate::help::ascii_lower;
use crate::terms::{trim, trim_text};
use crate::text::is_ascii_text;

verus! {

/// What the user asked for at a profile.
pub enum LabelAction {
    Label,
    Skip,
    Quit,
}

/// What `str::to_lowercase` gives: the Unicode lowercase mapping, from
/// tables in the standard library.
pub uninterp spec fn lowercase(s: Seq<char>) -> Seq<char>;

/// Calls `str::to_lowercase`. Claimed: the result is `lowercase(s)`, and
/// for ASCII text the ASCII capitals made small (the Unicode lowercase of an
/// ASCII character is that character's ASCII lowercase). What other
/// characters become is left to the name.
#[verifier::external_body]
fn to_lowercase(s: &str) -> (r: String)
    ensures
        r@ == lowercase(s@),
        is_ascii_text(s@) ==> r@ == ascii_lower(s@),
{
    s.to_lowercase()
}

/// The action a lowercased, trimmed answer asks for.
pub open spec fn action_for(a: Seq<char>) -> LabelAction {
    if a == "q"@ || a == "quit"@ {
        LabelAction::Quit
    } else if a == "s"@ || a == "skip"@ {
        LabelAction::Skip
    } else {
        LabelAction::Label
    }
}

/// The action an answer asks for: `q`/`quit` quits, `s`/`skip` skips, any
/// other answer (an empty one too) labels. Surrounding whitespace and case
/// do not matter.
pub open spec fn action_of(answer: Seq<char>) -> LabelAction {
    action_for(lowercase(trim(answer)))
}

/// The action `answer` asks for; for an ASCII answer the case is folded
/// with the ASCII rules.
pub fn label_action(answer: &str) -> (r: LabelAction)
    ensures
        r == action_of(answer@),
        is_ascii_text(trim(answer@)) ==> r == action_for(ascii_lower(trim(answer@))),
{
    let t = trim_text(answer);
    let a = to_lowercase(t.as_str());
    let x = a.as_str();
    if crate::text::text_eq(x, "q") || crate::text::text_eq(x, "quit") {
        LabelAction::Quit
    } else if crate::text::text_eq(x, "s") || crate::text::text_eq(x, "skip") {
        LabelAction::Skip
    } else {
        LabelAction::Label
    }
}

/// The positions of the unlabeled profiles, in order.
pub open spec fn unlabeled_positions(ps: Seq<VoiceProfile>) -> Seq<usize>
    decreases ps.len(),
{
    if ps.len() == 0 {
        seq![]
    } else if !ps.last().labeled {
        unlabeled_positions(ps.drop_last()).push((ps.len() - 1) as usize)
    } else {
        unlabeled_positions(ps.drop_last())
    }
}

/// The number of labeled profiles.
pub open spec fn labeled_count(ps: Seq<VoiceProfile>) -> nat
    decreases ps.len(),
{
    if ps.len() == 0 {
        0
    } else {
        labeled_count(ps.drop_last()) + if ps.last().labeled {
            1nat
        } else {
            0nat
        }
    }
}

/// How many profiles are labeled.
pub fn count_labeled(store: &ProfileStore) -> (r: usize)
    ensures
        r == labeled_count(store.profiles@),
{
    let ghost ps = store.profiles@;
    let mut n: usize = 0;
    let mut i: usize = 0;
    while i < store.profiles.len()
        invariant
            i <= store.profiles.len(),
            ps == store.profiles@,
            n == labeled_count(ps.take(i as int)),
            n <= i,
        decreases store.profiles.len() - i,
    {
        assert(ps.take(i + 1).drop_last() == ps.take(i as int));
        if store.profiles[i].labeled {
            n += 1;
        }
        i += 1;
    }
    assert(ps.take(ps.len() as int) == ps);
    n
}

/// The profiles a session goes through: the one named by `single`, or else
/// every unlabeled one, in order.
pub fn label_targets(store: &ProfileStore, single: Option<&str>) -> (r: Result<
    Vec<usize>,
    ProfileError,
>)
    ensures
        match single {
            Some(id) => match r {
                Ok(v) => v@.len() == 1 && is_first_with_id(store.profiles@, id@, v@[0] as int),
                Err(ProfileError::UnknownProfile(e)) => e@ == id@ && no_profile_with_id(
                    store.profiles@,
                    id@,
                ),
            },
            None => r matches Ok(v) && v@ == unlabeled_positions(store.profiles@),
        },
{
    if let Some(id) = single {
        return match store.find_profile(id) {
            Some(i) => {
                let mut v: Vec<usize> = Vec::new();
                v.push(i);
                Ok(v)
            },
            None => Err(ProfileError::UnknownProfile(id.to_owned())),
        };
    }
    let ghost ps = store.profiles@;
    let mut v: Vec<usize> = Vec::new();
    let mut i: usize = 0;
    while i < store.profiles.len()
        invariant
            i <= store.profiles.len(),
            ps == store.profiles@,
            v@ == unlabeled_positions(ps.take(i as int)),
        decreases store.profiles.len() - i,
    {
        assert(ps.take(i + 1).drop_last() == ps.take(i as int));
        if !store.profiles[i].labeled {
            v.push(i);
        }
        i += 1;
    }
    assert(ps.take(ps.len() as int) == ps);
    Ok(v)
}

/// The colour offered for a profile: its own, or `palette(position,
/// count)` when it has none.
pub fn suggested_color<F: Fn(usize, usize) -> String>(
    store: &ProfileStore,
    index: usize,
    palette: F,
) -> (r: String)
    requires
        index < store.profiles@.len(),
        palette.requires((index, store.profiles@.len() as usize)),
    ensures
        store.profiles@[index as int].color@.len() > 0 ==> r == store.profiles@[index as int].color,
        store.profiles@[index as int].color@.len() == 0 ==> palette.ensures(
            (index, store.profiles@.len() as usize),
            r,
        ),
{
    let p = &store.profiles[index];
    if p.color.as_str().is_empty() {
        palette(index, store.profiles.len())
    } else {
        p.color.clone()
    }
}

/// The name an answer gives: the trimmed answer, or `None` when it is
/// blank (the profile stays unlabeled).
pub fn chosen_name(answer: &str) -> (r: Option<String>)
    ensures
        r is None <==> trim(answer@).len() == 0,
        r matches Some(n) ==> n@ == trim(answer@),
{
    let t = trim_text(answer);
    if t.as_str().is_empty() {
        None
    } else {
        Some(t)
    }
}

/// The colour an answer gives: the trimmed answer, or the suggestion when
/// the answer is blank.
pub fn chosen_color(answer: &str, suggested: &str) -> (r: String)
    ensures
        r@ == if trim(answer@).len() == 0 {
            suggested@
        } else {
            trim(answer@)
        },
{
    let t = trim_text(answer);
    if t.as_str().is_empty() {
        suggested.to_owned()
    } else {
        t
    }
}

} // verus!
