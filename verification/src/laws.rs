//! Properties that hold across the library's operations.

use vstd::prelude::*;
use crate::cli::{outputs_answer, probed, video_stem};
use crate::paths::path_with_ext;
use crate::ass::{
    ass_style_order, ass_style_set, is_first_named_style, profile_styles, speaker_styles,
    style_line, ASS_STYLE_TAIL,
};
use crate::order::{lemma_text_lt_total, lemma_text_lt_transitive, sorted_strict, text_lt};
use crate::output::{ass_time, srt_time, tdiv, trem, Segment};
use crate::profiles::{
    ass_primary, embeddings_after_add, is_first_styling, style_char, style_name, styles_speaker,
    ProfileStore, VoiceProfile, MAX_EMBEDDINGS_PER_PROFILE,
};
use crate::output::normalized;
use crate::project::{all_digits, digits_value, is_digit, parse_i64};
use crate::terms::{
    file_terms, is_term, lemma_split_lines_nonempty, split_lines, string_views, terms_of, trim,
    trim_end, trim_start,
};
use crate::text::{decimal, digit_char, is_ws, join, lemma_words_nonempty, words, zero_pad};

verus! {

/// Turning a name into a style name twice changes nothing more, and keeps
/// its length.
pub proof fn lemma_style_name_idempotent(s: Seq<char>)
    ensures
        style_name(style_name(s)) == style_name(s),
        style_name(s).len() == s.len(),
{
    assert(style_name(style_name(s)) =~= style_name(s));
}

/// Times before zero are written as zero in `.ass` files.
pub proof fn lemma_ass_time_clamps(cs: int)
    requires
        cs <= 0,
    ensures
        ass_time(cs) == ass_time(0),
{
    reveal(ass_time);
}

/// The SRT time text of a timestamp at or after zero: `HH:MM:SS,mmm`,
/// whose four fields, read as numbers, are hours, minutes below 60, seconds
/// below 60 and milliseconds below 1000 that add back up to the timestamp
/// in milliseconds.
pub proof fn lemma_srt_time_reads_back(cs: int)
    requires
        cs >= 0,
    ensures
        exists|h: nat, m: nat, s: nat, f: nat|
            {
                &&& m < 60
                &&& s < 60
                &&& f < 1000
                &&& h * 3_600_000 + m * 60_000 + s * 1_000 + f == cs * 10
                &&& #[trigger] srt_time(cs) == zero_pad(decimal(h), 2) + seq![':'] + zero_pad(
                    decimal(m),
                    2,
                ) + seq![':'] + zero_pad(decimal(s), 2) + seq![','] + zero_pad(decimal(f), 3)
            },
{
    let ms = cs * 10;
    let h = (ms / 3_600_000) as nat;
    let m = ((ms % 3_600_000) / 60_000) as nat;
    let s = ((ms % 60_000) / 1_000) as nat;
    let f = (ms % 1_000) as nat;
    assert(ms == (ms / 3_600_000) * 3_600_000 + ms % 3_600_000);
    assert(ms % 3_600_000 == ((ms % 3_600_000) / 60_000) * 60_000 + (ms % 3_600_000) % 60_000);
    assert((ms % 3_600_000) % 60_000 == ms % 60_000);
    assert(ms % 60_000 == ((ms % 60_000) / 1_000) * 1_000 + ms % 1_000) by {
        assert((ms % 60_000) % 1_000 == ms % 1_000);
    }
    assert(tdiv(ms, 3_600_000) == h);
    assert(tdiv(trem(ms, 3_600_000), 60_000) == m);
    assert(tdiv(trem(ms, 60_000), 1_000) == s);
    assert(trem(ms, 1_000) == f);
    assert(srt_time(cs) == zero_pad(decimal(h), 2) + seq![':'] + zero_pad(decimal(m), 2) + seq![
        ':',
    ] + zero_pad(decimal(s), 2) + seq![','] + zero_pad(decimal(f), 3)) by {
        reveal(srt_time);
    }
}

/// The four fields of an SRT time add back up to the timestamp in
/// milliseconds: hours, minutes, seconds and milliseconds, each with the
/// sign of the timestamp, minutes and seconds below 60.
#[verifier::spinoff_prover]
pub proof fn lemma_srt_fields_add_up(cs: int)
    ensures
        ({
            let ms = cs * 10;
            let h = tdiv(ms, 3_600_000);
            let m = tdiv(trem(ms, 3_600_000), 60_000);
            let s = tdiv(trem(ms, 60_000), 1_000);
            let f = trem(ms, 1_000);
            &&& h * 3_600_000 + m * 60_000 + s * 1_000 + f == ms
            &&& -60 < m < 60
            &&& -60 < s < 60
            &&& -1000 < f < 1000
        }),
{
    let ms = cs * 10;
    let a = if ms >= 0 { ms } else { -ms };
    assert(a == (a / 3_600_000) * 3_600_000 + a % 3_600_000);
    assert(a % 3_600_000 == ((a % 3_600_000) / 60_000) * 60_000 + (a % 3_600_000) % 60_000);
    assert((a % 3_600_000) % 60_000 == a % 60_000);
    assert(a % 60_000 == ((a % 60_000) / 1_000) * 1_000 + a % 1_000) by {
        assert((a % 60_000) % 1_000 == a % 1_000);
    }
}

/// A profile offered embeddings never holds more than the maximum unless
/// it already did, and gains one whenever it has room.
pub proof fn lemma_embedding_cap(old: Seq<Vec<u32>>, e: Vec<u32>)
    ensures
        old.len() <= MAX_EMBEDDINGS_PER_PROFILE ==> embeddings_after_add(old, e).len()
            <= MAX_EMBEDDINGS_PER_PROFILE,
        old.len() < MAX_EMBEDDINGS_PER_PROFILE ==> embeddings_after_add(old, e).len() == old.len()
            + 1,
        embeddings_after_add(old, e).len() >= old.len(),
{
}

/// Some profile matches a predicate at `i`, so a first one does.
proof fn lemma_first_styling_exists(ps: Seq<VoiceProfile>, speaker: Seq<char>, i: int)
    requires
        0 <= i < ps.len(),
        styles_speaker(ps[i], speaker),
    ensures
        exists|k: int| is_first_styling(ps, speaker, k),
    decreases i,
{
    if forall|j: int| 0 <= j < i ==> !styles_speaker(ps[j], speaker) {
        assert(is_first_styling(ps, speaker, i));
    } else {
        let j = choose|j: int| 0 <= j < i && styles_speaker(ps[j], speaker);
        lemma_first_styling_exists(ps, speaker, j);
    }
}

/// A profile labeled `name` shows under that name, and `style_for_speaker`
/// then finds a profile for `name`.
pub proof fn lemma_labeled_profile_is_found(ps: Seq<VoiceProfile>, i: int, name: Seq<char>)
    requires
        0 <= i < ps.len(),
        ps[i].name matches Some(n) && n@ == name,
    ensures
        ProfileStore::spec_display_name(ps[i]) == name,
        exists|k: int| is_first_styling(ps, name, k),
{
    lemma_first_styling_exists(ps, name, i);
}

/// The least text of a finite, non-empty set of texts.
proof fn lemma_least_text(s: Set<Seq<char>>) -> (m: Seq<char>)
    requires
        s.finite(),
        s.len() > 0,
    ensures
        s.contains(m),
        forall|x: Seq<char>| s.contains(x) && x != m ==> text_lt(m, x),
    decreases s.len(),
{
    let x = s.choose();
    let r = s.remove(x);
    if r.len() == 0 {
        assert forall|y: Seq<char>| s.contains(y) && y != x implies text_lt(x, y) by {
            assert(r.contains(y));
        }
        x
    } else {
        let m1 = lemma_least_text(r);
        lemma_text_lt_total(x, m1);
        if text_lt(x, m1) {
            assert forall|y: Seq<char>| s.contains(y) && y != x implies text_lt(x, y) by {
                assert(r.contains(y));
                lemma_text_lt_transitive(x, m1, y);
            }
            x
        } else {
            assert forall|y: Seq<char>| s.contains(y) && y != m1 implies text_lt(m1, y) by {
                if y != x {
                    assert(r.contains(y));
                }
            }
            m1
        }
    }
}

/// A finite set of texts can be listed in ascending order, each once.
proof fn lemma_sorted_listing_exists(s: Set<Seq<char>>)
    requires
        s.finite(),
    ensures
        exists|ns: Seq<Seq<char>>| sorted_strict(ns) && ns.to_set() == s,
    decreases s.len(),
{
    if s.len() == 0 {
        let ns: Seq<Seq<char>> = seq![];
        s.lemma_len0_is_empty();
        assert(ns.to_set() =~= s);
    } else {
        let m = lemma_least_text(s);
        let r = s.remove(m);
        lemma_sorted_listing_exists(r);
        let ns1 = choose|ns: Seq<Seq<char>>| sorted_strict(ns) && ns.to_set() == r;
        let ns = seq![m] + ns1;
        assert forall|i: int, j: int| 0 <= i < j < ns.len() implies text_lt(ns[i], ns[j]) by {
            assert(ns[j] == ns1[j - 1]);
            if i == 0 {
                assert(ns1.to_set().contains(ns1[j - 1]));
            } else {
                assert(ns[i] == ns1[i - 1]);
            }
        }
        assert forall|x: Seq<char>| ns.to_set().contains(x) <==> s.contains(x) by {
            if s.contains(x) && x != m {
                assert(ns1.to_set().contains(x));
                let k = choose|k: int| 0 <= k < ns1.len() && ns1[k] == x;
                assert(ns[k + 1] == x);
            }
            if x == m {
                assert(ns[0] == m);
            }
            if ns.to_set().contains(x) {
                let k = choose|k: int| 0 <= k < ns.len() && ns[k] == x;
                if k > 0 {
                    assert(ns1[k - 1] == x);
                    assert(ns1.to_set().contains(x));
                }
            }
        }
        assert(ns.to_set() =~= s);
    }
}

/// The styles of an `.ass` file are finitely many.
proof fn lemma_style_set_finite(segs: Seq<Segment>, ps: Seq<VoiceProfile>)
    ensures
        ass_style_set(segs, ps).finite(),
{
    let a = segs.map_values(|s: Segment| style_name(s.speaker@));
    let b = ps.map_values(|p: VoiceProfile| style_name(ProfileStore::spec_display_name(p)));
    let sp = speaker_styles(segs, segs.len() as int);
    let pr = profile_styles(ps, ps.len() as int);
    assert(sp.subset_of(a.to_set())) by {
        assert forall|n: Seq<char>| sp.contains(n) implies a.to_set().contains(n) by {
            let i = choose|i: int|
                0 <= i < segs.len() as int && i < segs.len() && segs[i].speaker@.len() > 0 && n
                    == style_name(#[trigger] segs[i].speaker@);
            assert(a[i] == n);
        }
    }
    assert(pr.subset_of(b.to_set())) by {
        assert forall|n: Seq<char>| pr.contains(n) implies b.to_set().contains(n) by {
            let i = choose|i: int|
                0 <= i < ps.len() as int && i < ps.len() && n == style_name(
                    ProfileStore::spec_display_name(#[trigger] ps[i]),
                );
            assert(b[i] == n);
        }
    }
    vstd::seq_lib::seq_to_set_is_finite(a);
    vstd::seq_lib::seq_to_set_is_finite(b);
    vstd::set_lib::lemma_set_subset_finite(a.to_set(), sp);
    vstd::set_lib::lemma_set_subset_finite(b.to_set(), pr);
    let d = set!["Default"@];
    assert(d.finite());
    vstd::set::axiom_set_union_finite(d, sp);
    vstd::set::axiom_set_union_finite(d.union(sp), pr);
}

/// Every dialogue line of an `.ass` file names a style the file defines: a
/// speaker's own style, or for a line without a speaker the first style of
/// the list.
pub proof fn lemma_dialogue_style_defined(segs: Seq<Segment>, ps: Seq<VoiceProfile>, k: int)
    requires
        0 <= k < segs.len(),
    ensures
        ({
            let names = ass_style_order(segs, ps);
            &&& names.len() > 0
            &&& ass_style_set(segs, ps).contains(
                if segs[k].speaker@.len() == 0 {
                    names[0]
                } else {
                    style_name(segs[k].speaker@)
                },
            )
        }),
{
    let set = ass_style_set(segs, ps);
    lemma_style_set_finite(segs, ps);
    lemma_sorted_listing_exists(set);
    let names = ass_style_order(segs, ps);
    assert(sorted_strict(names) && names.to_set() == set);
    assert(set.contains("Default"@));
    assert(names.len() > 0) by {
        if names.len() == 0 {
            assert(names.to_set().contains("Default"@));
        }
    }
    assert(names.to_set().contains(names[0]));
    if segs[k].speaker@.len() > 0 {
        assert(speaker_styles(segs, segs.len() as int).contains(style_name(segs[k].speaker@)));
    }
}

/// The `Style:` line a profile colours.
pub open spec fn coloured_style_line(style: Seq<char>, p: VoiceProfile) -> Seq<char> {
    "Style: "@ + style + ",Arial,28,"@ + ass_primary(vstd::utf8::encode_utf8(p.color@))
        + ASS_STYLE_TAIL@
}

/// Where a style's colour comes from. A style other than `Default` takes
/// the colour of the first profile named like the speaker (or unlabeled with
/// that id); failing that, of the first profile whose display name turns
/// into that style name; failing both, it is white.
pub proof fn lemma_style_line_colour(ps: Seq<VoiceProfile>, style: Seq<char>, i: int)
    requires
        style != "Default"@,
    ensures
        is_first_styling(ps, style, i) ==> style_line(ps, style) == coloured_style_line(
            style,
            ps[i],
        ),
        (forall|j: int| 0 <= j < ps.len() ==> !styles_speaker(#[trigger] ps[j], style))
            && is_first_named_style(ps, style, i) ==> style_line(ps, style)
            == coloured_style_line(style, ps[i]),
        (forall|j: int| 0 <= j < ps.len() ==> !styles_speaker(#[trigger] ps[j], style)) && (forall|
            j: int,
        |
            0 <= j < ps.len() ==> style_name(ProfileStore::spec_display_name(#[trigger] ps[j]))
                != style) ==> style_line(ps, style) == "Style: "@ + style + ",Arial,28,"@
            + "&H00FFFFFF"@ + ASS_STYLE_TAIL@,
{
    if is_first_styling(ps, style, i) {
        let k = choose|k: int| is_first_styling(ps, style, k);
        if k < i {
            assert(!styles_speaker(ps[k], style));
        } else if i < k {
            assert(!styles_speaker(ps[i], style));
        }
    }
    if forall|j: int| 0 <= j < ps.len() ==> !styles_speaker(#[trigger] ps[j], style) {
        assert(!exists|k: int| is_first_styling(ps, style, k)) by {
            if exists|k: int| is_first_styling(ps, style, k) {
                let k = choose|k: int| is_first_styling(ps, style, k);
                assert(styles_speaker(ps[k], style));
            }
        }
        if is_first_named_style(ps, style, i) {
            let k = choose|k: int| is_first_named_style(ps, style, k);
            if k < i {
                assert(style_name(ProfileStore::spec_display_name(ps[k])) != style);
            } else if i < k {
                assert(style_name(ProfileStore::spec_display_name(ps[i])) != style);
            }
        }
        if forall|j: int|
            0 <= j < ps.len() ==> style_name(ProfileStore::spec_display_name(#[trigger] ps[j]))
                != style {
            assert(!exists|k: int| is_first_named_style(ps, style, k)) by {
                if exists|k: int| is_first_named_style(ps, style, k) {
                    let k = choose|k: int| is_first_named_style(ps, style, k);
                    assert(style_name(ProfileStore::spec_display_name(ps[k])) == style);
                }
            }
        }
    }
}

/// Once an episode is recorded as done, a build that is not forced skips it.
pub proof fn lemma_completed_episode_skipped(done: Seq<Seq<char>>, stem: Seq<char>)
    ensures
        done.push(stem).contains(stem),
{
    assert(done.push(stem)[done.len() as int] == stem);
}

} // verus!

verus! {

proof fn lemma_words_shape(s: Seq<char>)
    ensures
        forall|i: int|
            0 <= i < words(s).len() ==> (#[trigger] words(s)[i]).len() > 0 && forall|j: int|
                0 <= j < words(s)[i].len() ==> !is_ws(words(s)[i][j]),
    decreases s.len(),
{
    if s.len() > 0 {
        lemma_words_shape(s.drop_last());
        if !is_ws(s.last()) && s.len() >= 2 && !is_ws(s[s.len() - 2]) {
            lemma_words_nonempty(s.drop_last());
        }
    }
}

/// No whitespace but single spaces between words: the shape of a
/// normalised text.
pub open spec fn is_normal_text(r: Seq<char>) -> bool {
    &&& forall|k: int| 0 <= k < r.len() ==> r[k] == ' ' || !is_ws(#[trigger] r[k])
    &&& forall|k: int| 0 <= k < r.len() - 1 && r[k] == ' ' ==> #[trigger] r[k + 1] != ' '
    &&& r.len() > 0 ==> r[0] != ' ' && r.last() != ' '
}

/// Words that are not empty and hold no whitespace.
pub open spec fn proper_words(ws: Seq<Seq<char>>) -> bool {
    forall|i: int|
        0 <= i < ws.len() ==> (#[trigger] ws[i]).len() > 0 && forall|j: int|
            0 <= j < ws[i].len() ==> !is_ws(ws[i][j])
}

proof fn lemma_join_normal(ws: Seq<Seq<char>>)
    requires
        proper_words(ws),
    ensures
        is_normal_text(join(ws, seq![' '])),
        ws.len() > 0 ==> join(ws, seq![' ']).len() > 0,
    decreases ws.len(),
{
    assert(is_ws(' '));
    if ws.len() > 1 {
        let a = join(ws.drop_last(), seq![' ']);
        let w = ws.last();
        assert(proper_words(ws.drop_last())) by {
            assert forall|i: int| 0 <= i < ws.drop_last().len() implies (#[trigger] ws.drop_last()[i]).len() > 0 && forall|j: int|
                0 <= j < ws.drop_last()[i].len() ==> !is_ws(ws.drop_last()[i][j]) by {
                assert(ws.drop_last()[i] == ws[i]);
            }
        }
        lemma_join_normal(ws.drop_last());
        let r = join(ws, seq![' ']);
        assert(r == a + seq![' '] + w);
        assert(w.len() > 0);
        assert forall|k: int| 0 <= k < r.len() implies r[k] == ' ' || !is_ws(#[trigger] r[k]) by {
            if k < a.len() {
                assert(r[k] == a[k]);
            } else if k > a.len() {
                assert(r[k] == w[k - a.len() - 1]);
            }
        }
        assert forall|k: int| 0 <= k < r.len() - 1 && r[k] == ' ' implies #[trigger] r[k + 1] != ' ' by {
            if k < a.len() - 1 {
                assert(r[k] == a[k] && r[k + 1] == a[k + 1]);
            } else if k == a.len() - 1 {
                assert(r[k] == a.last());
            } else if k == a.len() {
                assert(r[k + 1] == w[0]);
                assert(!is_ws(w[0]));
            } else {
                assert(r[k] == w[k - a.len() - 1]);
                assert(!is_ws(w[k - a.len() - 1]));
            }
        }
        assert(r.last() == w.last());
        assert(!is_ws(w[w.len() - 1]));
        assert(r[0] == a[0]);
    } else if ws.len() == 1 {
        let w = ws[0];
        assert(join(ws, seq![' ']) == w);
        assert(!is_ws(w[0]) && !is_ws(w[w.len() - 1]));
    }
}

/// Normalising gives a text of words separated by single spaces, with no
/// space at either end.
pub proof fn lemma_normalized_shape(s: Seq<char>)
    ensures
        is_normal_text(normalized(s)),
        proper_words(words(s)),
{
    lemma_words_shape(s);
    lemma_join_normal(words(s));
}

proof fn lemma_words_of_word_after(a: Seq<char>, w: Seq<char>, k: int)
    requires
        1 <= k <= w.len(),
        forall|j: int| 0 <= j < w.len() ==> !is_ws(w[j]),
        a.len() == 0 || is_ws(a.last()),
    ensures
        words(a + w.take(k)) == words(a).push(w.take(k)),
    decreases k,
{
    let x = a + w.take(k);
    assert(x.drop_last() == a + w.take(k - 1));
    assert(x.last() == w[k - 1]);
    if k == 1 {
        assert(w.take(0) == Seq::<char>::empty());
        assert(a + w.take(0) == a);
        assert(w.take(1) == seq![w[0]]);
    } else {
        lemma_words_of_word_after(a, w, k - 1);
        assert(x[x.len() - 2] == w[k - 2]);
        let p = words(a).push(w.take(k - 1));
        assert(w.take(k - 1).push(w[k - 1]) == w.take(k));
        assert(p.update(p.len() - 1, p.last().push(w[k - 1])) == words(a).push(w.take(k)));
    }
}

proof fn lemma_words_of_join(ws: Seq<Seq<char>>)
    requires
        proper_words(ws),
    ensures
        words(join(ws, seq![' '])) == ws,
    decreases ws.len(),
{
    if ws.len() == 0 {
    } else {
        let w = ws.last();
        assert(w.take(w.len() as int) == w);
        if ws.len() == 1 {
            assert(join(ws, seq![' ']) == w);
            lemma_words_of_word_after(Seq::<char>::empty(), w, w.len() as int);
            assert(Seq::<char>::empty() + w == w);
            assert(ws == Seq::<Seq<char>>::empty().push(w));
        } else {
            let d = ws.drop_last();
            assert(proper_words(d)) by {
                assert forall|i: int| 0 <= i < d.len() implies (#[trigger] d[i]).len() > 0 && forall|j: int|
                    0 <= j < d[i].len() ==> !is_ws(d[i][j]) by {
                    assert(d[i] == ws[i]);
                }
            }
            lemma_words_of_join(d);
            let a = join(d, seq![' ']) + seq![' '];
            assert(words(a) == words(join(d, seq![' ']))) by {
                assert(a.drop_last() == join(d, seq![' ']));
                assert(is_ws(' '));
            }
            lemma_words_of_word_after(a, w, w.len() as int);
            assert(join(ws, seq![' ']) == a + w);
            assert(ws == d.push(w));
        }
    }
}

/// Normalising a normalised text changes nothing.
pub proof fn lemma_normalize_idempotent(s: Seq<char>)
    ensures
        normalized(normalized(s)) == normalized(s),
{
    lemma_words_shape(s);
    lemma_words_of_join(words(s));
}

} // verus!

verus! {

proof fn lemma_trim_start_shape(s: Seq<char>)
    ensures
        trim_start(s).len() == 0 || !is_ws(trim_start(s)[0]),
        trim_start(s).len() <= s.len(),
    decreases s.len(),
{
    if s.len() > 0 && is_ws(s[0]) {
        lemma_trim_start_shape(s.drop_first());
    }
}

proof fn lemma_trim_end_shape(s: Seq<char>)
    ensures
        trim_end(s).len() == 0 || !is_ws(trim_end(s).last()),
        trim_end(s) == s.take(trim_end(s).len() as int),
        trim_end(s).len() <= s.len(),
    decreases s.len(),
{
    if s.len() > 0 && is_ws(s.last()) {
        lemma_trim_end_shape(s.drop_last());
        let t = trim_end(s.drop_last());
        assert(s.drop_last().take(t.len() as int) == s.take(t.len() as int));
    } else {
        assert(s.take(s.len() as int) == s);
    }
}

/// A trimmed text has no whitespace at either end, and trimming it again
/// changes nothing.
pub proof fn lemma_trim_idempotent(s: Seq<char>)
    ensures
        trim(s).len() == 0 || (!is_ws(trim(s)[0]) && !is_ws(trim(s).last())),
        trim(trim(s)) == trim(s),
{
    lemma_trim_start_shape(s);
    let a = trim_start(s);
    lemma_trim_end_shape(a);
    let t = trim(s);
    if t.len() > 0 {
        assert(t[0] == a[0]);
        assert(trim_start(t) == t);
        assert(trim_end(t) == t);
    } else {
        assert(trim_start(t) == t);
    }
}

/// Every term of a terms file is a trimmed line that is neither empty nor a
/// `#` comment.
pub proof fn lemma_terms_are_clean(lines: Seq<Seq<char>>)
    ensures
        forall|i: int|
            0 <= i < terms_of(lines).len() ==> is_term(#[trigger] terms_of(lines)[i]) && trim(
                terms_of(lines)[i],
            ) == terms_of(lines)[i],
    decreases lines.len(),
{
    if lines.len() > 0 {
        let r = terms_of(lines.drop_last());
        lemma_terms_are_clean(lines.drop_last());
        lemma_trim_idempotent(lines.last());
        let out = terms_of(lines);
        assert forall|i: int| 0 <= i < out.len() implies is_term(#[trigger] out[i]) && trim(out[i])
            == out[i] by {
            if i < r.len() {
                assert(out[i] == r[i]);
            }
        }
    }
}

/// `s` holds no line break.
pub open spec fn one_line(s: Seq<char>) -> bool {
    forall|j: int| 0 <= j < s.len() ==> s[j] != '\n'
}

proof fn lemma_split_one_line(w: Seq<char>)
    requires
        one_line(w),
    ensures
        split_lines(w) == seq![w],
    decreases w.len(),
{
    if w.len() > 0 {
        let d = w.drop_last();
        assert(one_line(d)) by {
            assert forall|j: int| 0 <= j < d.len() implies d[j] != '\n' by {
                assert(d[j] == w[j]);
            }
        }
        lemma_split_one_line(d);
        assert(w[w.len() - 1] != '\n');
        assert(d.push(w.last()) =~= w);
        assert(seq![d].update(0, d.push(w.last())) =~= seq![w]);
        assert(split_lines(w) == split_lines(d).update(0, d.push(w.last())));
    } else {
        assert(w =~= Seq::<char>::empty());
        assert(split_lines(w) =~= seq![w]);
    }
}

proof fn lemma_split_after_break(s: Seq<char>, t: Seq<char>)
    requires
        one_line(t),
    ensures
        split_lines(s + seq!['\n'] + t) == split_lines(s).push(t),
    decreases t.len(),
{
    let x = s + seq!['\n'] + t;
    if t.len() == 0 {
        assert(x.drop_last() =~= s);
        assert(x.last() == '\n');
        assert(t =~= Seq::<char>::empty());
        assert(split_lines(x) == split_lines(s).push(seq![]));
    } else {
        let d = t.drop_last();
        assert(one_line(d)) by {
            assert forall|j: int| 0 <= j < d.len() implies d[j] != '\n' by {
                assert(d[j] == t[j]);
            }
        }
        assert(x.drop_last() =~= s + seq!['\n'] + d);
        lemma_split_after_break(s, d);
        assert(t[t.len() - 1] != '\n');
        assert(x.last() == t.last());
        assert(d.push(t.last()) =~= t);
        let p = split_lines(s).push(d);
        assert(p.update(p.len() - 1, p.last().push(t.last())) =~= split_lines(s).push(t));
        assert(split_lines(x) == p.update(p.len() - 1, p.last().push(t.last())));
    }
}

proof fn lemma_split_join(ws: Seq<Seq<char>>)
    requires
        ws.len() > 0,
        forall|i: int| 0 <= i < ws.len() ==> one_line(#[trigger] ws[i]),
    ensures
        split_lines(join(ws, seq!['\n'])) == ws,
    decreases ws.len(),
{
    if ws.len() == 1 {
        lemma_split_one_line(ws[0]);
    } else {
        lemma_split_join(ws.drop_last());
        lemma_split_after_break(join(ws.drop_last(), seq!['\n']), ws.last());
        assert(ws.drop_last().push(ws.last()) == ws);
    }
}

proof fn lemma_lines_are_one_line(s: Seq<char>)
    ensures
        forall|i: int| 0 <= i < split_lines(s).len() ==> one_line(#[trigger] split_lines(s)[i]),
    decreases s.len(),
{
    if s.len() > 0 {
        lemma_lines_are_one_line(s.drop_last());
        lemma_split_lines_nonempty(s.drop_last());
    }
}

proof fn lemma_trim_one_line(s: Seq<char>)
    requires
        one_line(s),
    ensures
        one_line(trim(s)),
{
    lemma_trim_start_one_line(s);
    lemma_trim_end_one_line(trim_start(s));
}

proof fn lemma_trim_start_one_line(s: Seq<char>)
    requires
        one_line(s),
    ensures
        one_line(trim_start(s)),
    decreases s.len(),
{
    if s.len() > 0 && is_ws(s[0]) {
        lemma_trim_start_one_line(s.drop_first());
    }
}

proof fn lemma_trim_end_one_line(s: Seq<char>)
    requires
        one_line(s),
    ensures
        one_line(trim_end(s)),
    decreases s.len(),
{
    if s.len() > 0 && is_ws(s.last()) {
        lemma_trim_end_one_line(s.drop_last());
    }
}

proof fn lemma_terms_one_line(lines: Seq<Seq<char>>)
    requires
        forall|i: int| 0 <= i < lines.len() ==> one_line(#[trigger] lines[i]),
    ensures
        forall|i: int| 0 <= i < terms_of(lines).len() ==> one_line(#[trigger] terms_of(lines)[i]),
    decreases lines.len(),
{
    if lines.len() > 0 {
        let d = lines.drop_last();
        assert forall|i: int| 0 <= i < d.len() implies one_line(#[trigger] d[i]) by {
            assert(d[i] == lines[i]);
        }
        lemma_terms_one_line(d);
        assert(one_line(lines[lines.len() - 1]));
        lemma_trim_one_line(lines.last());
        let r = terms_of(d);
        let out = terms_of(lines);
        assert forall|i: int| 0 <= i < out.len() implies one_line(#[trigger] out[i]) by {
            if i < r.len() {
                assert(out[i] == r[i]);
            }
        }
    }
}

proof fn lemma_terms_of_clean(ts: Seq<Seq<char>>)
    requires
        forall|i: int| 0 <= i < ts.len() ==> is_term(#[trigger] ts[i]) && trim(ts[i]) == ts[i],
    ensures
        terms_of(ts) == ts,
    decreases ts.len(),
{
    if ts.len() > 0 {
        lemma_terms_of_clean(ts.drop_last());
        assert(ts.drop_last().push(ts.last()) == ts);
    }
}

/// Writing the terms of a file one per line and parsing that text gives
/// the same terms back.
pub proof fn lemma_terms_round_trip(content: Seq<char>)
    ensures
        file_terms(join(file_terms(content), seq!['\n'])) == file_terms(content),
{
    let ts = file_terms(content);
    lemma_terms_are_clean(split_lines(content));
    lemma_lines_are_one_line(content);
    lemma_terms_one_line(split_lines(content));
    if ts.len() == 0 {
        assert(join(ts, seq!['\n']) == Seq::<char>::empty());
        assert(split_lines(Seq::<char>::empty()) == seq![Seq::<char>::empty()]);
        assert(!is_term(trim(Seq::<char>::empty())));
        let e = Seq::<char>::empty();
        assert(trim_start(e) == e);
        assert(trim_end(e) == e);
        assert(trim(e) == e);
        assert(terms_of(seq![e]) == Seq::<Seq<char>>::empty()) by {
            assert(seq![e].drop_last() =~= Seq::<Seq<char>>::empty());
            assert(terms_of(Seq::<Seq<char>>::empty()) == Seq::<Seq<char>>::empty());
            assert(seq![e].last() == e);
        }
    } else {
        lemma_split_join(ts);
        lemma_terms_of_clean(ts);
    }
}

/// How `i64::to_string` writes a number.
pub open spec fn int_text(v: int) -> Seq<char> {
    if v < 0 {
        seq!['-'] + decimal((-v) as nat)
    } else {
        decimal(v as nat)
    }
}

proof fn lemma_digit_char_value(d: nat)
    requires
        d < 10,
    ensures
        is_digit(digit_char(d)),
        ((digit_char(d) as u32) - 0x30) as nat == d,
{
}

proof fn lemma_decimal_digits(n: nat)
    ensures
        all_digits(decimal(n)),
        digits_value(decimal(n)) == n,
        decimal(n).len() >= 1,
    decreases n,
{
    if n >= 10 {
        lemma_decimal_digits(n / 10);
        lemma_digit_char_value(n % 10);
        let d = decimal(n);
        assert(d.drop_last() == decimal(n / 10));
        assert(d.last() == digit_char(n % 10));
        assert(digits_value(d) == digits_value(decimal(n / 10)) * 10 + n % 10);
        assert(digits_value(d) == n) by (nonlinear_arith)
            requires
                digits_value(d) == (n / 10) * 10 + n % 10,
        ;
        assert forall|i: int| 0 <= i < d.len() implies is_digit(#[trigger] d[i]) by {
            if i < d.len() - 1 {
                assert(d[i] == decimal(n / 10)[i]);
            }
        }
    } else {
        lemma_digit_char_value(n);
        assert(decimal(n).drop_last() == Seq::<char>::empty());
        assert(decimal(n).last() == digit_char(n));
        assert(digits_value(decimal(n).drop_last()) == 0);
        assert(digits_value(decimal(n)) == n);
    }
}

/// A project id written out as the registry stores it reads back as the
/// same id.
pub proof fn lemma_project_id_round_trip(v: i64)
    ensures
        parse_i64(int_text(v as int)) == Some(v as int),
{
    let t = int_text(v as int);
    if v < 0 {
        lemma_decimal_digits((-v) as nat);
        assert(t.drop_first() == decimal((-(v as int)) as nat));
    } else {
        lemma_decimal_digits(v as nat);
        assert(is_digit(t[0]));
    }
}

proof fn lemma_zeros_value(z: Seq<char>, s: Seq<char>)
    requires
        forall|i: int| 0 <= i < z.len() ==> z[i] == '0',
    ensures
        digits_value(z + s) == digits_value(s),
    decreases s.len(),
{
    if s.len() == 0 {
        assert(z + s == z);
        lemma_zeros_only(z);
    } else {
        assert((z + s).drop_last() == z + s.drop_last());
        lemma_zeros_value(z, s.drop_last());
    }
}

proof fn lemma_zeros_only(z: Seq<char>)
    requires
        forall|i: int| 0 <= i < z.len() ==> z[i] == '0',
    ensures
        digits_value(z) == 0,
    decreases z.len(),
{
    if z.len() > 0 {
        lemma_zeros_only(z.drop_last());
    }
}

/// The value of a zero-padded decimal is the number.
proof fn lemma_padded_value(n: nat, w: nat)
    ensures
        digits_value(zero_pad(decimal(n), w)) == n,
{
    lemma_decimal_digits(n);
    if decimal(n).len() < w {
        let z = Seq::new((w - decimal(n).len()) as nat, |i: int| '0');
        lemma_zeros_value(z, decimal(n));
    }
}

/// Profiles created at different counts get different ids.
pub proof fn lemma_next_ids_differ(n: nat, m: nat)
    requires
        n != m,
    ensures
        ProfileStore::spec_next_id(n) != ProfileStore::spec_next_id(m),
{
    let a = zero_pad(decimal(n), 2);
    let b = zero_pad(decimal(m), 2);
    lemma_padded_value(n, 2);
    lemma_padded_value(m, 2);
    if ProfileStore::spec_next_id(n) == ProfileStore::spec_next_id(m) {
        let p = "profile_"@;
        assert((p + a).skip(p.len() as int) == a);
        assert((p + b).skip(p.len() as int) == b);
    }
}


/// A probe that answers alike whenever it is asked about the same path.
pub open spec fn consistent_probe<F: Fn(&str) -> bool>(is_file: F) -> bool {
    forall|p: Seq<char>, a: bool, b: bool|
        probed(is_file, p, a) && probed(is_file, p, b) ==> a == b
}

/// With a probe that answers alike for the same path, a video whose outputs
/// exist with speakers also has them without: the styled subtitles only add
/// to what is required.
pub proof fn lemma_outputs_with_speakers_cover_without<F: Fn(&str) -> bool>(
    is_file: F,
    video: Seq<char>,
    with: bool,
    without: bool,
)
    requires
        consistent_probe(is_file),
        outputs_answer(is_file, video, true, with),
        outputs_answer(is_file, video, false, without),
    ensures
        with ==> without,
{
    let stem = video_stem(video);
    let (t1, s1, w1) = choose|t: bool, s: bool, w: bool|
        {
            &&& probed(is_file, path_with_ext(stem, "txt"@), t)
            &&& probed(is_file, path_with_ext(stem, "srt"@), s)
            &&& probed(is_file, path_with_ext(stem, "words.json"@), w)
            &&& if true && t && s && w {
                exists|a: bool| probed(is_file, path_with_ext(stem, "ass"@), a) && with == a
            } else {
                with == (t && s && w && !true)
            }
        };
    let (t2, s2, w2) = choose|t: bool, s: bool, w: bool|
        {
            &&& probed(is_file, path_with_ext(stem, "txt"@), t)
            &&& probed(is_file, path_with_ext(stem, "srt"@), s)
            &&& probed(is_file, path_with_ext(stem, "words.json"@), w)
            &&& if false && t && s && w {
                exists|a: bool| probed(is_file, path_with_ext(stem, "ass"@), a) && without == a
            } else {
                without == (t && s && w && !false)
            }
        };
    assert(t1 == t2);
    assert(s1 == s2);
    assert(w1 == w2);
}

} // verus!
