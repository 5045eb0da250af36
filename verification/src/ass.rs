//! The styled `.ass` subtitle file: one style per speaker, coloured from
//! the voice profiles, and one dialogue event per segment.

use vstd::prelude::*;
use crate::order::{char_views, chars_eq, insert_sorted, lemma_sorted_unique, sorted_strict};
use crate::output::{ass_time, push_ass_time, Segment};
use crate::profiles::{
    ass_primary, ass_style_name, hex_color_is_sliceable, hex_color_sliceable, hex_to_ass_primary,
    is_first_styling,
    style_name, styles_speaker, ProfileStore, VoiceProfile,
};
use crate::text::{
    chars_of, lemma_lines_text_push, lines_text, push_all, push_line, push_str, push_str_line,
    string_of, text_eq,
};

verus! {

pub const ASS_STYLE_FORMAT: &'static str = "Format: Name, Fontname, Fontsize, PrimaryColour, SecondaryColour, OutlineColour, BackColour, Bold, Italic, Underline, StrikeOut, ScaleX, ScaleY, Spacing, Angle, BorderStyle, Outline, Shadow, Alignment, MarginL, MarginR, MarginV, Encoding";

pub const ASS_DEFAULT_STYLE: &'static str = "Style: Default,Arial,28,&H00FFFFFF,&H000000FF,&H00000000,&H80000000,0,0,0,0,100,100,0,0,1,2,1,2,20,20,20,1";

/// What follows the primary colour on every speaker style line.
pub const ASS_STYLE_TAIL: &'static str = ",&H000000FF,&H00000000,&H80000000,0,0,0,0,100,100,0,0,1,2,1,2,20,20,20,1";

pub const ASS_EVENT_FORMAT: &'static str = "Format: Layer, Start, End, Style, Name, MarginL, MarginR, MarginV, Effect, Text";

/// The lines before the style list.
pub open spec fn ass_head() -> Seq<Seq<char>> {
    seq![
        "[Script Info]"@,
        "Title: Transcribe"@,
        "ScriptType: v4.00+"@,
        "WrapStyle: 0"@,
        "ScaledBorderAndShadow: yes"@,
        "YCbCr Matrix: None"@,
        seq![],
        "[V4+ Styles]"@,
        ASS_STYLE_FORMAT@,
    ]
}

/// The lines between the style list and the dialogue events.
pub open spec fn ass_events_head() -> Seq<Seq<char>> {
    seq![seq![], "[Events]"@, ASS_EVENT_FORMAT@]
}

/// The styles of the speakers among the first `k` segments.
pub open spec fn speaker_styles(segs: Seq<Segment>, k: int) -> Set<Seq<char>> {
    Set::new(
        |n: Seq<char>|
            exists|i: int|
                0 <= i < k && i < segs.len() && segs[i].speaker@.len() > 0 && n == style_name(
                    #[trigger] segs[i].speaker@,
                ),
    )
}

/// The styles of the first `k` profiles, named after their display names.
pub open spec fn profile_styles(ps: Seq<VoiceProfile>, k: int) -> Set<Seq<char>> {
    Set::new(
        |n: Seq<char>|
            exists|i: int|
                0 <= i < k && i < ps.len() && n == style_name(
                    ProfileStore::spec_display_name(#[trigger] ps[i]),
                ),
    )
}

/// The styles the file defines: `Default`, one per speaker that occurs in
/// the segments, and one per profile (under its display name).
pub open spec fn ass_style_set(segs: Seq<Segment>, ps: Seq<VoiceProfile>) -> Set<Seq<char>> {
    set!["Default"@].union(speaker_styles(segs, segs.len() as int)).union(
        profile_styles(ps, ps.len() as int),
    )
}

/// The style names in ascending order, each once: how a `BTreeSet` of them
/// is walked.
pub open spec fn ass_style_order(segs: Seq<Segment>, ps: Seq<VoiceProfile>) -> Seq<Seq<char>> {
    choose|ns: Seq<Seq<char>>| sorted_strict(ns) && ns.to_set() == ass_style_set(segs, ps)
}

/// `i` is the first profile whose display name makes the style `style`.
pub open spec fn is_first_named_style(ps: Seq<VoiceProfile>, style: Seq<char>, i: int) -> bool {
    &&& 0 <= i < ps.len()
    &&& style_name(ProfileStore::spec_display_name(ps[i])) == style
    &&& forall|j: int|
        0 <= j < i ==> style_name(ProfileStore::spec_display_name(ps[j])) != style
}

/// The profile whose colour a style takes: the one `style_for_speaker`
/// finds for the style name, else the first whose display name gives that
/// style.
pub open spec fn profile_for_style(ps: Seq<VoiceProfile>, style: Seq<char>) -> Option<
    VoiceProfile,
> {
    if exists|i: int| is_first_styling(ps, style, i) {
        Some(ps[choose|i: int| is_first_styling(ps, style, i)])
    } else if exists|i: int| is_first_named_style(ps, style, i) {
        Some(ps[choose|i: int| is_first_named_style(ps, style, i)])
    } else {
        None
    }
}

/// The primary colour of a style.
pub open spec fn style_color(ps: Seq<VoiceProfile>, style: Seq<char>) -> Seq<char> {
    match profile_for_style(ps, style) {
        Some(p) => ass_primary(vstd::utf8::encode_utf8(p.color@)),
        None => "&H00FFFFFF"@,
    }
}

/// The colour of the profile a style takes its colour from can be sliced.
pub open spec fn style_color_ok(ps: Seq<VoiceProfile>, style: Seq<char>) -> bool {
    match profile_for_style(ps, style) {
        Some(p) => hex_color_sliceable(vstd::utf8::encode_utf8(p.color@)),
        None => true,
    }
}

/// The `Style:` line of a style.
pub open spec fn style_line(ps: Seq<VoiceProfile>, style: Seq<char>) -> Seq<char> {
    if style == "Default"@ {
        ASS_DEFAULT_STYLE@
    } else {
        "Style: "@ + style + ",Arial,28,"@ + style_color(ps, style) + ASS_STYLE_TAIL@
    }
}

/// The text of an event: line breaks become `\N`.
pub open spec fn ass_escape(t: Seq<char>) -> Seq<char>
    decreases t.len(),
{
    if t.len() == 0 {
        seq![]
    } else {
        ass_escape(t.drop_last()) + if t.last() == '\n' {
            seq!['\\', 'N']
        } else {
            seq![t.last()]
        }
    }
}

/// The `Dialogue:` line of a segment; `first_style` is the style of
/// segments without a speaker.
pub open spec fn dialogue_line(seg: Segment, first_style: Seq<char>) -> Seq<char> {
    "Dialogue: 0,"@ + ass_time(seg.start_cs as int) + seq![','] + ass_time(seg.end_cs as int)
        + seq![','] + (if seg.speaker@.len() == 0 {
        first_style
    } else {
        style_name(seg.speaker@)
    }) + ",,0,0,0,,"@ + ass_escape(seg.text@)
}

/// A whole `.ass` file for the segments, styled from the profiles, with
/// the styles listed in the order `names`.
pub open spec fn ass_document_with(
    segs: Seq<Segment>,
    ps: Seq<VoiceProfile>,
    names: Seq<Seq<char>>,
) -> Seq<char> {
    lines_text(ass_head()) + lines_text(names.map_values(|n: Seq<char>| style_line(ps, n)))
        + lines_text(ass_events_head()) + lines_text(
        segs.map_values(|s: Segment| dialogue_line(s, names[0])),
    )
}

/// The `.ass` file for the segments, styled from the profiles.
pub open spec fn ass_document(segs: Seq<Segment>, ps: Seq<VoiceProfile>) -> Seq<char> {
    ass_document_with(segs, ps, ass_style_order(segs, ps))
}

/// Every style's colour can be taken without a slicing panic.
pub open spec fn ass_colors_ok(segs: Seq<Segment>, ps: Seq<VoiceProfile>) -> bool {
    forall|n: Seq<char>| ass_style_set(segs, ps).contains(n) ==> style_color_ok(ps, n)
}


/// The style names the file defines, ascending and each once.
pub fn ass_style_names(segments: &Vec<Segment>, store: &ProfileStore) -> (names: Vec<Vec<char>>)
    ensures
        sorted_strict(char_views(names@)),
        char_views(names@).to_set() == ass_style_set(segments@, store.profiles@),
{
    let ghost segs = segments@;
    let ghost ps = store.profiles@;
    let mut names: Vec<Vec<char>> = Vec::new();
    let ghost empty: Seq<Seq<char>> = seq![];
    assert(char_views(names@) == empty);
    assert(empty.to_set() =~= Set::<Seq<char>>::empty());
    insert_sorted(&mut names, chars_of("Default"));
    assert(char_views(names@).to_set() =~= set!["Default"@]);
    let mut k: usize = 0;
    while k < segments.len()
        invariant
            k <= segments.len(),
            segs == segments@,
            sorted_strict(char_views(names@)),
            char_views(names@).to_set() == set!["Default"@].union(speaker_styles(segs, k as int)),
        decreases segments.len() - k,
    {
        let ghost before = speaker_styles(segs, k as int);
        let seg = &segments[k];
        if !seg.speaker.as_str().is_empty() {
            let style = ass_style_name(seg.speaker.as_str());
            let ghost x = style@;
            insert_sorted(&mut names, chars_of(style.as_str()));
            assert(speaker_styles(segs, k + 1) =~= before.insert(x)) by {
                assert forall|n: Seq<char>| #[trigger] speaker_styles(segs, k + 1).contains(n) implies before.insert(x).contains(n) by {
                    let i = choose|i: int|
                        0 <= i < k + 1 && i < segs.len() && segs[i].speaker@.len() > 0 && n
                            == style_name(#[trigger] segs[i].speaker@);
                    if i < k {
                        assert(before.contains(n));
                    }
                }
                assert(speaker_styles(segs, k + 1).contains(x)) by {
                    assert(segs[k as int].speaker@ == seg.speaker@);
                }
            }
        } else {
            assert(speaker_styles(segs, k + 1) =~= before) by {
                assert forall|n: Seq<char>| #[trigger] speaker_styles(segs, k + 1).contains(n) implies before.contains(n) by {
                    let i = choose|i: int|
                        0 <= i < k + 1 && i < segs.len() && segs[i].speaker@.len() > 0 && n
                            == style_name(#[trigger] segs[i].speaker@);
                    assert(i < k);
                }
            }
        }
        k += 1;
    }
    let mut m: usize = 0;
    while m < store.profiles.len()
        invariant
            m <= store.profiles.len(),
            ps == store.profiles@,
            segs == segments@,
            sorted_strict(char_views(names@)),
            char_views(names@).to_set() == set!["Default"@].union(
                speaker_styles(segs, segs.len() as int),
            ).union(profile_styles(ps, m as int)),
        decreases store.profiles.len() - m,
    {
        let ghost before = profile_styles(ps, m as int);
        let p = &store.profiles[m];
        let dn = store.display_name(p);
        let style = ass_style_name(dn.as_str());
        let ghost x = style@;
        insert_sorted(&mut names, chars_of(style.as_str()));
        assert(profile_styles(ps, m + 1) =~= before.insert(x)) by {
            assert forall|n: Seq<char>| #[trigger] profile_styles(ps, m + 1).contains(n) implies before.insert(x).contains(n) by {
                let i = choose|i: int|
                    0 <= i < m + 1 && i < ps.len() && n == style_name(
                        ProfileStore::spec_display_name(#[trigger] ps[i]),
                    );
                if i < m {
                    assert(before.contains(n));
                }
            }
            assert(profile_styles(ps, m + 1).contains(x)) by {
                assert(ps[m as int] == *p);
            }
        }
        m += 1;
    }
    names
}


proof fn lemma_first_styling_unique(ps: Seq<VoiceProfile>, style: Seq<char>, i: int, j: int)
    requires
        is_first_styling(ps, style, i),
        is_first_styling(ps, style, j),
    ensures
        i == j,
{
    if i < j {
        assert(!styles_speaker(ps[i], style));
    } else if j < i {
        assert(!styles_speaker(ps[j], style));
    }
}

proof fn lemma_first_named_unique(ps: Seq<VoiceProfile>, style: Seq<char>, i: int, j: int)
    requires
        is_first_named_style(ps, style, i),
        is_first_named_style(ps, style, j),
    ensures
        i == j,
{
}

/// The first profile whose display name gives the style `style`.
fn first_named_style(store: &ProfileStore, style: &str) -> (r: Option<usize>)
    ensures
        r matches Some(i) ==> is_first_named_style(store.profiles@, style@, i as int),
        r is None ==> !exists|i: int| is_first_named_style(store.profiles@, style@, i),
{
    let mut i: usize = 0;
    while i < store.profiles.len()
        invariant
            i <= store.profiles@.len(),
            forall|j: int|
                0 <= j < i ==> style_name(ProfileStore::spec_display_name(store.profiles@[j]))
                    != style@,
        decreases store.profiles.len() - i,
    {
        let dn = store.display_name(&store.profiles[i]);
        let st = ass_style_name(dn.as_str());
        if text_eq(st.as_str(), style) {
            return Some(i);
        }
        i += 1;
    }
    None
}

/// The profile a style takes its colour from.
fn profile_of_style<'a>(store: &'a ProfileStore, style: &str) -> (r: Option<&'a VoiceProfile>)
    ensures
        match r {
            Some(p) => profile_for_style(store.profiles@, style@) == Some(*p),
            None => profile_for_style(store.profiles@, style@) is None,
        },
{
    let ghost ps = store.profiles@;
    match store.style_for_speaker(style) {
        Some(p) => {
            proof {
                let i = choose|i: int| is_first_styling(ps, style@, i) && *p == ps[i];
                let c = choose|i: int| is_first_styling(ps, style@, i);
                lemma_first_styling_unique(ps, style@, i, c);
            }
            Some(p)
        },
        None => {
            assert(!exists|i: int| is_first_styling(ps, style@, i));
            match first_named_style(store, style) {
                Some(i) => {
                    proof {
                        let c = choose|j: int| is_first_named_style(ps, style@, j);
                        lemma_first_named_unique(ps, style@, i as int, c);
                    }
                    Some(&store.profiles[i])
                },
                None => None,
            }
        },
    }
}

/// The primary colour of the style `style`.
fn color_of_style(store: &ProfileStore, style: &str) -> (r: String)
    requires
        style_color_ok(store.profiles@, style@),
    ensures
        r@ == style_color(store.profiles@, style@),
{
    match profile_of_style(store, style) {
        Some(p) => hex_to_ass_primary(p.color.as_str()),
        None => {
            let mut out: Vec<char> = Vec::new();
            push_str(&mut out, "&H00FFFFFF");
            string_of(&out)
        },
    }
}

/// Whether every style of the file for `segments` takes its colour from a
/// colour that `hex_to_ass_primary` can slice.
pub fn ass_colors_sliceable(segments: &Vec<Segment>, store: &ProfileStore) -> (r: bool)
    ensures
        r == ass_colors_ok(segments@, store.profiles@),
{
    let names = ass_style_names(segments, store);
    let ghost nv = char_views(names@);
    let mut i: usize = 0;
    while i < names.len()
        invariant
            i <= names.len(),
            nv == char_views(names@),
            nv.to_set() == ass_style_set(segments@, store.profiles@),
            forall|j: int| 0 <= j < i ==> style_color_ok(store.profiles@, #[trigger] nv[j]),
        decreases names.len() - i,
    {
        let name = string_of(&names[i]);
        let ok = match profile_of_style(store, name.as_str()) {
            Some(p) => hex_color_is_sliceable(p.color.as_str()),
            None => true,
        };
        if !ok {
            assert(name@ == nv[i as int]);
            assert(!style_color_ok(store.profiles@, nv[i as int]));
            assert(nv.to_set().contains(nv[i as int]));
            return false;
        }
        i += 1;
    }
    assert forall|n: Seq<char>| ass_style_set(segments@, store.profiles@).contains(n) implies style_color_ok(
        store.profiles@,
        n,
    ) by {
        assert(nv.to_set().contains(n));
        let j = choose|j: int| 0 <= j < nv.len() && nv[j] == n;
        assert(style_color_ok(store.profiles@, nv[j]));
    }
    true
}

/// The `Style:` line for the style `style`.
fn push_style_line(out: &mut Vec<char>, store: &ProfileStore, style: &Vec<char>)
    requires
        style_color_ok(store.profiles@, style@),
    ensures
        final(out)@ == old(out)@ + style_line(store.profiles@, style@).push('\n'),
{
    let name = string_of(style);
    if text_eq(name.as_str(), "Default") {
        push_str_line(out, ASS_DEFAULT_STYLE);
    } else {
        let color = color_of_style(store, name.as_str());
        let mut line: Vec<char> = Vec::new();
        push_str(&mut line, "Style: ");
        push_all(&mut line, style);
        push_str(&mut line, ",Arial,28,");
        push_str(&mut line, color.as_str());
        push_str(&mut line, ASS_STYLE_TAIL);
        push_line(out, &line);
    }
}

/// Appends `t` with each line break written as `\N`.
fn push_escaped(out: &mut Vec<char>, t: &str)
    ensures
        final(out)@ == old(out)@ + ass_escape(t@),
{
    let ghost start = out@;
    for c in it: t.chars()
        invariant
            it.seq() == t@,
            out@ == start + ass_escape(t@.take(it.index() as int)),
    {
        let ghost i = it.index();
        assert(t@.take(i + 1).drop_last() == t@.take(i as int));
        if c == '\n' {
            out.push('\\');
            out.push('N');
        } else {
            out.push(c);
        }
    }
    assert(t@.take(t@.len() as int) == t@);
}

/// The `Dialogue:` line for a segment.
fn push_dialogue_line(out: &mut Vec<char>, seg: &Segment, first_style: &Vec<char>)
    ensures
        final(out)@ == old(out)@ + dialogue_line(*seg, first_style@).push('\n'),
{
    let mut line: Vec<char> = Vec::new();
    push_str(&mut line, "Dialogue: 0,");
    push_ass_time(&mut line, seg.start_cs);
    line.push(',');
    push_ass_time(&mut line, seg.end_cs);
    line.push(',');
    if seg.speaker.as_str().is_empty() {
        push_all(&mut line, first_style);
    } else {
        let st = ass_style_name(seg.speaker.as_str());
        push_str(&mut line, st.as_str());
    }
    push_str(&mut line, ",,0,0,0,,");
    push_escaped(&mut line, seg.text.as_str());
    push_line(out, &line);
}

/// The contents of the `.ass` file for `segments`, styled from `store`.
pub fn render_ass(segments: &Vec<Segment>, store: &ProfileStore) -> (r: String)
    requires
        ass_colors_ok(segments@, store.profiles@),
    ensures
        r@ == ass_document(segments@, store.profiles@),
{
    let ghost segs = segments@;
    let ghost ps = store.profiles@;
    let names = ass_style_names(segments, store);
    let ghost nv = char_views(names@);
    proof {
        let set = ass_style_set(segs, ps);
        assert(sorted_strict(nv) && nv.to_set() == set);
        let chosen = ass_style_order(segs, ps);
        lemma_sorted_unique(nv, chosen);
        assert(set.contains("Default"@));
        assert(nv.to_set().contains("Default"@));
    }
    let mut out: Vec<char> = Vec::new();
    let head = ["[Script Info]", "Title: Transcribe", "ScriptType: v4.00+", "WrapStyle: 0",
        "ScaledBorderAndShadow: yes", "YCbCr Matrix: None", "", "[V4+ Styles]", ASS_STYLE_FORMAT];
    let mut h: usize = 0;
    while h < 9
        invariant
            h <= 9,
            head@ == seq!["[Script Info]", "Title: Transcribe", "ScriptType: v4.00+",
                "WrapStyle: 0", "ScaledBorderAndShadow: yes", "YCbCr Matrix: None", "",
                "[V4+ Styles]", ASS_STYLE_FORMAT],
            out@ == lines_text(ass_head().take(h as int)),
        decreases 9 - h,
    {
        proof {
            reveal_strlit("");
            lemma_lines_text_push(ass_head().take(h as int), ass_head()[h as int]);
            assert(ass_head().take(h + 1) == ass_head().take(h as int).push(ass_head()[h as int]));
        }
        push_str_line(&mut out, head[h]);
        h += 1;
    }
    assert(ass_head().take(9) == ass_head());
    let ghost after_head = out@;
    let ghost style_lines = nv.map_values(|n: Seq<char>| style_line(ps, n));
    let mut i: usize = 0;
    while i < names.len()
        invariant
            i <= names.len(),
            nv == char_views(names@),
            ps == store.profiles@,
            segs == segments@,
            nv.to_set() == ass_style_set(segs, ps),
            ass_colors_ok(segs, ps),
            style_lines == nv.map_values(|n: Seq<char>| style_line(ps, n)),
            out@ == after_head + lines_text(style_lines.take(i as int)),
        decreases names.len() - i,
    {
        proof {
            assert(nv.to_set().contains(nv[i as int]));
            lemma_lines_text_push(style_lines.take(i as int), style_lines[i as int]);
            assert(style_lines.take(i + 1) == style_lines.take(i as int).push(style_lines[i as int]));
        }
        push_style_line(&mut out, store, &names[i]);
        i += 1;
    }
    assert(style_lines.take(names.len() as int) == style_lines);
    let ghost after_styles = out@;
    push_str_line(&mut out, "");
    push_str_line(&mut out, "[Events]");
    push_str_line(&mut out, ASS_EVENT_FORMAT);
    proof {
        reveal_strlit("");
        let eh = ass_events_head();
        lemma_lines_text_push(eh.take(0), eh[0]);
        lemma_lines_text_push(eh.take(1), eh[1]);
        lemma_lines_text_push(eh.take(2), eh[2]);
        assert(eh.take(1) == eh.take(0).push(eh[0]));
        assert(eh.take(2) == eh.take(1).push(eh[1]));
        assert(eh == eh.take(2).push(eh[2]));
        assert(eh.take(0) == Seq::<Seq<char>>::empty());
        assert(out@ == after_styles + lines_text(eh));
    }
    let ghost after_events_head = out@;
    let ghost first = nv[0];
    let ghost dlines = segs.map_values(|s: Segment| dialogue_line(s, first));
    let mut k: usize = 0;
    while k < segments.len()
        invariant
            k <= segments.len(),
            segs == segments@,
            names@.len() > 0,
            first == names@[0]@,
            dlines == segs.map_values(|s: Segment| dialogue_line(s, first)),
            out@ == after_events_head + lines_text(dlines.take(k as int)),
        decreases segments.len() - k,
    {
        proof {
            lemma_lines_text_push(dlines.take(k as int), dlines[k as int]);
            assert(dlines.take(k + 1) == dlines.take(k as int).push(dlines[k as int]));
        }
        push_dialogue_line(&mut out, &segments[k], &names[0]);
        k += 1;
    }
    assert(dlines.take(segments.len() as int) == dlines);
    string_of(&out)
}

} // verus!
