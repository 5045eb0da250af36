//! File names and paths: which directory entries are episodes, in what
//! order, and the names derived from a video's path.

use vstd::prelude::*;
use crate::order::{lemma_text_lt_asymmetric, lemma_text_lt_total, lemma_text_lt_transitive, text_lt};
use crate::terms::string_views;
use crate::text::{chars_of, text_eq};

verus! {

/// What `Path::new(base).join(rel)` gives, as text. `base` and `rel` are
/// UTF-8, so the joined path is too. It depends on the path syntax of the
/// target the crate is built for, and on nothing else.
pub uninterp spec fn joined_path(base: Seq<char>, rel: Seq<char>) -> Seq<char>;

/// What `Path::new(path).with_extension(ext)` gives, as text.
pub uninterp spec fn path_with_ext(path: Seq<char>, ext: Seq<char>) -> Seq<char>;

/// What `Path::new(path).file_stem()` gives, as text.
pub uninterp spec fn path_stem(path: Seq<char>) -> Option<Seq<char>>;

/// Calls `Path::join`. Claimed: the result is `joined_path(base, rel)`.
#[verifier::external_body]
pub(crate) fn path_join(base: &str, rel: &str) -> (r: String)
    ensures
        r@ == joined_path(base@, rel@),
{
    std::path::Path::new(base).join(rel).to_string_lossy().into_owned()
}

/// No character of `s` separates path components (`/`, or `\\` on Windows).
pub open spec fn has_no_separator(s: Seq<char>) -> bool {
    forall|i: int| 0 <= i < s.len() ==> s[i] != '/' && s[i] != '\\'
}

/// Calls `Path::with_extension`. Claimed: the result is
/// `path_with_ext(path, ext)`. It panics on an extension holding a path
/// separator, which `requires` leaves out.
#[verifier::external_body]
pub(crate) fn path_with_extension(path: &str, ext: &str) -> (r: String)
    requires
        has_no_separator(ext@),
    ensures
        r@ == path_with_ext(path@, ext@),
{
    std::path::Path::new(path).with_extension(ext).to_string_lossy().into_owned()
}

/// Calls `Path::file_stem`. Claimed: the result is `path_stem(path)`.
#[verifier::external_body]
fn path_file_stem(path: &str) -> (r: Option<String>)
    ensures
        r matches Some(s) ==> path_stem(path@) == Some(s@),
        r is None ==> path_stem(path@) is None,
{
    std::path::Path::new(path).file_stem().map(|s| s.to_string_lossy().into_owned())
}

/// The label of an episode: its file stem, or `episode` when the path has
/// none.
pub open spec fn stem_label(path: Seq<char>) -> Seq<char> {
    match path_stem(path) {
        Some(s) => s,
        None => "episode"@,
    }
}

/// The file stem of `path`, or `episode` when it has none.
pub fn file_stem_label(path: &str) -> (r: String)
    ensures
        r@ == stem_label(path@),
{
    match path_file_stem(path) {
        Some(s) => s,
        None => "episode".to_owned(),
    }
}

/// The position of the last `.` in `s`, or -1.
pub open spec fn last_dot(s: Seq<char>) -> int
    decreases s.len(),
{
    if s.len() == 0 {
        -1
    } else if s.last() == '.' {
        s.len() - 1
    } else {
        last_dot(s.drop_last())
    }
}

/// The extension of a file name, as `Path::extension` defines it: what
/// follows the last `.`, unless there is none or the only one is the
/// first character.
pub open spec fn name_extension(name: Seq<char>) -> Option<Seq<char>> {
    let k = last_dot(name);
    if k <= 0 {
        None
    } else {
        Some(name.skip(k + 1))
    }
}

/// A file name with the extension `mp4`.
pub open spec fn is_mp4_name(name: Seq<char>) -> bool {
    name_extension(name) == Some("mp4"@)
}

proof fn lemma_last_dot_bounds(s: Seq<char>)
    ensures
        -1 <= last_dot(s) < s.len(),
        last_dot(s) >= 0 ==> s[last_dot(s)] == '.',
        forall|j: int| last_dot(s) < j < s.len() ==> s[j] != '.',
    decreases s.len(),
{
    if s.len() > 0 && s.last() != '.' {
        lemma_last_dot_bounds(s.drop_last());
        assert(forall|j: int| 0 <= j < s.len() - 1 ==> s.drop_last()[j] == s[j]);
    }
}

/// Whether the file name `name` has the extension `mp4`.
pub fn has_mp4_extension(name: &str) -> (r: bool)
    ensures
        r == is_mp4_name(name@),
{
    let v = chars_of(name);
    let mut k: usize = v.len();
    assert(v@.take(v@.len() as int) == v@);
    while k > 0 && v[k - 1] != '.'
        invariant
            k <= v.len(),
            v@ == name@,
            last_dot(v@) == last_dot(v@.take(k as int)),
        decreases k,
    {
        assert(v@.take(k as int).drop_last() == v@.take(k - 1));
        k -= 1;
    }
    proof {
        assert(v@.take(v@.len() as int) == v@);
        reveal_strlit("mp4");
    }
    if k <= 1 {
        assert(k == 0 ==> v@.take(0) == Seq::<char>::empty());
        return false;
    }
    let dot = k - 1;
    assert(v@.take(k as int).last() == '.');
    assert(last_dot(v@) == dot);
    if v.len() - k != 3 {
        assert(v@.skip(k as int).len() != 3);
        return false;
    }
    let r = v[k] == 'm' && v[k + 1] == 'p' && v[k + 2] == '4';
    assert(r == (v@.skip(k as int) == "mp4"@)) by {
        if v@.skip(k as int) == "mp4"@ {
            assert(v@.skip(k as int)[0] == 'm');
            assert(v@.skip(k as int)[1] == 'p');
            assert(v@.skip(k as int)[2] == '4');
        }
        if r {
            assert(v@.skip(k as int) =~= "mp4"@);
        }
    }
    r
}

/// The names of `ns` that are `.mp4` files, in their order.
pub open spec fn mp4_names(ns: Seq<Seq<char>>) -> Seq<Seq<char>>
    decreases ns.len(),
{
    if ns.len() == 0 {
        seq![]
    } else if is_mp4_name(ns.last()) {
        mp4_names(ns.drop_last()).push(ns.last())
    } else {
        mp4_names(ns.drop_last())
    }
}

/// No element sorts before an earlier one.
pub open spec fn sorted_texts(ns: Seq<Seq<char>>) -> bool {
    forall|i: int, j: int| 0 <= i < j < ns.len() ==> !text_lt(ns[j], ns[i])
}

/// Inserts `x` into the sorted `out` after every name that does not sort
/// after it.
fn insert_by_name(out: &mut Vec<String>, x: String)
    requires
        sorted_texts(string_views(old(out)@)),
    ensures
        sorted_texts(string_views(final(out)@)),
        string_views(final(out)@).to_multiset() == string_views(old(out)@).to_multiset().insert(
            x@,
        ),
{
    let xc = chars_of(x.as_str());
    let ghost xv = x@;
    let ghost ov = string_views(out@);
    let mut j: usize = 0;
    while j < out.len() && !lt_str(&xc, out[j].as_str())
        invariant
            j <= out.len(),
            xc@ == xv,
            ov == string_views(out@),
            forall|a: int| 0 <= a < j ==> !text_lt(xv, ov[a]),
        decreases out.len() - j,
    {
        j += 1;
    }
    out.insert(j, x);
    proof {
        let nv2 = string_views(out@);
        assert(nv2 =~= ov.insert(j as int, xv));
        assert(nv2.remove(j as int) =~= ov);
        assert(nv2[j as int] == xv);
        nv2.to_multiset_ensures();
        assert(nv2.to_multiset().remove(xv) =~= ov.to_multiset());
        assert(nv2.contains(xv));
        assert(nv2.to_multiset().count(xv) > 0);
        assert(nv2.to_multiset() =~= ov.to_multiset().insert(xv));
        assert forall|a: int, b: int| 0 <= a < b < nv2.len() implies !text_lt(nv2[b], nv2[a]) by {
            if a < j && b == j {
                lemma_text_lt_total(xv, ov[a]);
            } else if a == j && b > j {
                if j < ov.len() {
                    lemma_text_lt_total(xv, ov[j as int]);
                    lemma_text_lt_asymmetric(xv, ov[j as int]);
                    if b - 1 > j {
                        lemma_text_lt_asymmetric(ov[b - 1], ov[j as int]);
                        lemma_text_lt_transitive(ov[b - 1], xv, ov[j as int]);
                    }
                }
            }
        }
    }
}

/// The episode videos among the file names of a directory's files: the
/// `.mp4` names, in ascending order.
pub fn select_videos(names: &Vec<String>) -> (r: Vec<String>)
    ensures
        sorted_texts(string_views(r@)),
        string_views(r@).to_multiset() == mp4_names(string_views(names@)).to_multiset(),
{
    let ghost nv = string_views(names@);
    let mut out: Vec<String> = Vec::new();
    let mut k: usize = 0;
    proof {
        let e: Seq<Seq<char>> = seq![];
        assert(nv.take(0) == e);
        assert(string_views(out@) == e);
    }
    while k < names.len()
        invariant
            k <= names.len(),
            nv == string_views(names@),
            sorted_texts(string_views(out@)),
            string_views(out@).to_multiset() == mp4_names(nv.take(k as int)).to_multiset(),
        decreases names.len() - k,
    {
        let ghost before = mp4_names(nv.take(k as int));
        assert(nv.take(k + 1).drop_last() == nv.take(k as int));
        assert(nv.take(k + 1).last() == names@[k as int]@);
        if has_mp4_extension(names[k].as_str()) {
            let x = names[k].clone();
            insert_by_name(&mut out, x);
            proof {
                before.to_multiset_ensures();
                assert(mp4_names(nv.take(k + 1)) == before.push(names@[k as int]@));
            }
        }
        k += 1;
    }
    assert(nv.take(names.len() as int) == nv);
    out
}

/// Whether `a` sorts strictly before `b`.
fn lt_str(a: &Vec<char>, b: &str) -> (r: bool)
    ensures
        r == text_lt(a@, b@),
{
    let bv = chars_of(b);
    crate::order::chars_lt(a, &bv)
}

} // verus!
