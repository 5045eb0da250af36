//! Transcript segments and the three subtitle/transcript formats.

use vstd::prelude::*;
use crate::terms::{trim, trim_text};
use crate::text::{
    decimal, is_whitespace, is_ws, join, lemma_join_extend_last, lemma_join_push,
    lemma_words_nonempty, push_decimal, push_padded, push_str, signed_padded, string_of, words,
    zero_pad,
};

verus! {

/// One recognised stretch of speech; times are in centiseconds.
pub struct Segment {
    pub start_cs: i64,
    pub end_cs: i64,
    pub text: String,
    pub speaker: String,
}

/// A segment as the recogniser reports it, before clean-up.
pub struct RawSegment {
    pub start_cs: i64,
    pub end_cs: i64,
    pub text: String,
}

/// Rust's integer division, which rounds towards zero.
pub open spec fn tdiv(a: int, b: int) -> int {
    if a >= 0 {
        a / b
    } else {
        -((-a) / b)
    }
}

/// Rust's integer remainder, which takes the sign of the dividend.
pub open spec fn trem(a: int, b: int) -> int {
    if a >= 0 {
        a % b
    } else {
        -((-a) % b)
    }
}

/// `HH:MM:SS,mmm` for a centisecond timestamp, as the SRT writer prints it.
#[verifier::opaque]
pub open spec fn srt_time(cs: int) -> Seq<char> {
    let ms = cs * 10;
    signed_padded(tdiv(ms, 3_600_000), 2) + seq![':'] + signed_padded(
        tdiv(trem(ms, 3_600_000), 60_000),
        2,
    ) + seq![':'] + signed_padded(tdiv(trem(ms, 60_000), 1_000), 2) + seq![','] + signed_padded(
        trem(ms, 1_000),
        3,
    )
}

/// `H:MM:SS.cc` for a centisecond timestamp; negative times print as zero.
#[verifier::opaque]
pub open spec fn ass_time(cs: int) -> Seq<char> {
    let t = if cs > 0 {
        cs
    } else {
        0
    };
    decimal((t / 360_000) as nat) + seq![':'] + zero_pad(decimal(((t % 360_000) / 6_000) as nat), 2)
        + seq![':'] + zero_pad(decimal(((t % 6_000) / 100) as nat), 2) + seq!['.'] + zero_pad(
        decimal((t % 100) as nat),
        2,
    )
}

/// The centisecond timestamps whose millisecond value fits in an `i64`.
pub open spec fn srt_time_in_range(cs: int) -> bool {
    i64::MIN <= cs * 10 <= i64::MAX
}

fn push_signed(out: &mut Vec<char>, negative: bool, magnitude: u64, width: usize)
    requires
        width >= 1,
    ensures
        final(out)@ == old(out)@ + signed_padded(
            if negative {
                -(magnitude as int)
            } else {
                magnitude as int
            },
            width as nat,
        ),
{
    if negative && magnitude != 0 {
        out.push('-');
        push_padded(out, magnitude, width - 1);
    } else {
        push_padded(out, magnitude, width);
    }
}

#[verifier::spinoff_prover]
#[verifier::rlimit(40)]
fn push_srt_time(out: &mut Vec<char>, cs: i64)
    requires
        srt_time_in_range(cs as int),
    ensures
        final(out)@ == old(out)@ + srt_time(cs as int),
{
    let ms: i64 = cs * 10;
    let negative = ms < 0;
    let a: u64 = if negative {
        (-ms) as u64
    } else {
        ms as u64
    };
    assert(a as int == if negative { -(ms as int) } else { ms as int });
    let ghost start = out@;
    let h = a / 3_600_000;
    let m = (a % 3_600_000) / 60_000;
    let sec = (a % 60_000) / 1_000;
    let milli = a % 1_000;
    let ghost msi = ms as int;
    let ghost sg = |x: u64| if negative { -(x as int) } else { x as int };
    assert(sg(h) == tdiv(msi, 3_600_000));
    assert(sg(m) == tdiv(trem(msi, 3_600_000), 60_000));
    assert(sg(sec) == tdiv(trem(msi, 60_000), 1_000));
    assert(sg(milli) == trem(msi, 1_000));
    push_signed(out, negative, h, 2);
    let ghost p1 = out@;
    out.push(':');
    push_signed(out, negative, m, 2);
    let ghost p2 = out@;
    out.push(':');
    push_signed(out, negative, sec, 2);
    let ghost p3 = out@;
    out.push(',');
    push_signed(out, negative, milli, 3);
    assert(out@ == start + srt_time(cs as int)) by {
        reveal(srt_time);
    }
}

/// Formats a centisecond timestamp as an SRT time, `HH:MM:SS,mmm`.
pub fn cs_to_srt_time(cs: i64) -> (r: String)
    requires
        srt_time_in_range(cs as int),
    ensures
        r@ == srt_time(cs as int),
{
    let mut out: Vec<char> = Vec::new();
    push_srt_time(&mut out, cs);
    string_of(&out)
}

pub fn push_ass_time(out: &mut Vec<char>, cs: i64)
    ensures
        final(out)@ == old(out)@ + ass_time(cs as int),
{
    let t: u64 = if cs > 0 {
        cs as u64
    } else {
        0
    };
    let ghost start = out@;
    push_decimal(out, t / 360_000);
    out.push(':');
    push_padded(out, (t % 360_000) / 6_000, 2);
    out.push(':');
    push_padded(out, (t % 6_000) / 100, 2);
    out.push('.');
    push_padded(out, t % 100, 2);
    assert(out@ == start + ass_time(cs as int)) by {
        reveal(ass_time);
    }
}

/// Formats a centisecond timestamp as an ASS time, `H:MM:SS.cc`.
pub fn cs_to_ass_time(cs: i64) -> (r: String)
    ensures
        r@ == ass_time(cs as int),
{
    let mut out: Vec<char> = Vec::new();
    push_ass_time(&mut out, cs);
    string_of(&out)
}

/// The words of `s` separated by single spaces.
pub open spec fn normalized(s: Seq<char>) -> Seq<char> {
    join(words(s), seq![' '])
}

/// Collapses every run of whitespace to one space and drops it at both ends.
pub fn normalize_text(s: &str) -> (r: String)
    ensures
        r@ == normalized(s@),
{
    let mut out: Vec<char> = Vec::new();
    let mut prev_ws = true;
    let mut have_word = false;
    for c in it: s.chars()
        invariant
            it.seq() == s@,
            0 <= it.index() <= s@.len(),
            out@ == join(words(s@.take(it.index() as int)), seq![' ']),
            have_word == (words(s@.take(it.index() as int)).len() > 0),
            prev_ws == (it.index() == 0 || is_ws(s@[it.index() - 1])),
    {
        let ghost i = it.index();
        let ghost pre = s@.take(i as int);
        let ghost cur = s@.take(i + 1);
        assert(cur.drop_last() == pre);
        assert(cur.last() == c);
        if is_whitespace(c) {
            prev_ws = true;
        } else {
            if prev_ws {
                if have_word {
                    out.push(' ');
                }
                out.push(c);
                proof {
                    lemma_join_push(words(pre), seq![' '], seq![c]);
                }
                have_word = true;
            } else {
                proof {
                    assert(cur[cur.len() - 2] == s@[i - 1]);
                    lemma_words_nonempty(pre);
                    lemma_join_extend_last(words(pre), seq![' '], c);
                }
                out.push(c);
            }
            prev_ws = false;
        }
    }
    assert(s@.take(s@.len() as int) == s@);
    string_of(&out)
}

/// The text of a segment, prefixed with `[speaker] ` when it has a speaker.
pub open spec fn tagged(text: Seq<char>, speaker: Seq<char>) -> Seq<char> {
    if speaker.len() == 0 {
        text
    } else {
        seq!['['] + speaker + seq![']', ' '] + text
    }
}

fn push_tagged(out: &mut Vec<char>, seg: &Segment)
    ensures
        final(out)@ == old(out)@ + tagged(seg.text@, seg.speaker@),
{
    let ghost start = out@;
    if seg.speaker.as_str().is_empty() {
        push_str(out, seg.text.as_str());
    } else {
        out.push('[');
        push_str(out, seg.speaker.as_str());
        out.push(']');
        out.push(' ');
        push_str(out, seg.text.as_str());
    }
    assert(out@ == start + tagged(seg.text@, seg.speaker@));
}

/// The transcript text of a segment: `[speaker] text`, or the bare text.
pub fn tagged_text(seg: &Segment) -> (r: String)
    ensures
        r@ == tagged(seg.text@, seg.speaker@),
{
    let mut out: Vec<char> = Vec::new();
    push_tagged(&mut out, seg);
    string_of(&out)
}


/// Every segment's start and end can be written as SRT times.
pub open spec fn srt_times_in_range(segs: Seq<Segment>) -> bool {
    forall|i: int| 0 <= i < segs.len() ==> #[trigger] srt_times_fit_one(segs[i])
}

/// A segment's start and end can both be written as SRT times.
pub open spec fn srt_times_fit_one(s: Segment) -> bool {
    srt_time_in_range(s.start_cs as int) && srt_time_in_range(s.end_cs as int)
}

/// The SRT cue numbered `n`: number, time range, text and a blank line.
pub open spec fn srt_cue(n: nat, seg: Segment) -> Seq<char> {
    decimal(n) + seq!['\n'] + srt_time(seg.start_cs as int) + " --> "@ + srt_time(
        seg.end_cs as int,
    ) + seq!['\n'] + tagged(seg.text@, seg.speaker@) + seq!['\n', '\n']
}

/// An SRT file: the segments as cues numbered from one.
pub open spec fn srt_document(segs: Seq<Segment>) -> Seq<char>
    decreases segs.len(),
{
    if segs.len() == 0 {
        seq![]
    } else {
        srt_document(segs.drop_last()) + srt_cue(segs.len(), segs.last())
    }
}

fn push_srt_cue(out: &mut Vec<char>, n: u64, seg: &Segment)
    requires
        srt_time_in_range(seg.start_cs as int),
        srt_time_in_range(seg.end_cs as int),
    ensures
        final(out)@ == old(out)@ + srt_cue(n as nat, *seg),
{
    let ghost before = out@;
    push_decimal(out, n);
    out.push('\n');
    push_srt_time(out, seg.start_cs);
    push_str(out, " --> ");
    push_srt_time(out, seg.end_cs);
    out.push('\n');
    push_tagged(out, seg);
    out.push('\n');
    out.push('\n');
    assert(out@ == before + srt_cue(n as nat, *seg));
}

/// Whether every segment's times can be written as SRT times.
pub fn srt_times_fit(segments: &Vec<Segment>) -> (r: bool)
    ensures
        r == srt_times_in_range(segments@),
{
    let mut i: usize = 0;
    while i < segments.len()
        invariant
            i <= segments.len(),
            forall|j: int| 0 <= j < i ==> #[trigger] srt_times_fit_one(segments@[j]),
        decreases segments.len() - i,
    {
        let s = segments[i].start_cs;
        let e = segments[i].end_cs;
        let lo: i64 = -922_337_203_685_477_580;
        let hi: i64 = 922_337_203_685_477_580;
        if s < lo || s > hi || e < lo || e > hi {
            assert(!srt_times_fit_one(segments@[i as int]));
            return false;
        }
        assert(srt_times_fit_one(segments@[i as int]));
        i += 1;
    }
    true
}

/// The contents of the `.srt` file for `segments`.
pub fn render_srt(segments: &Vec<Segment>) -> (r: String)
    requires
        srt_times_in_range(segments@),
    ensures
        r@ == srt_document(segments@),
{
    let mut out: Vec<char> = Vec::new();
    let mut i: usize = 0;
    while i < segments.len()
        invariant
            i <= segments.len(),
            srt_times_in_range(segments@),
            out@ == srt_document(segments@.take(i as int)),
        decreases segments.len() - i,
    {
        assert(srt_times_fit_one(segments@[i as int]));
        push_srt_cue(&mut out, (i + 1) as u64, &segments[i]);
        assert(segments@.take(i + 1).drop_last() == segments@.take(i as int));
        i += 1;
    }
    assert(segments@.take(segments.len() as int) == segments@);
    string_of(&out)
}

/// The transcript lines of the segments, one per segment.
pub open spec fn tagged_lines(segs: Seq<Segment>) -> Seq<Seq<char>> {
    segs.map_values(|s: Segment| tagged(s.text@, s.speaker@))
}

/// A plain transcript: the title, a blank line, one line per segment.
pub open spec fn txt_document(title: Seq<char>, segs: Seq<Segment>) -> Seq<char> {
    title + seq!['\n', '\n'] + join(tagged_lines(segs), seq!['\n']) + seq!['\n']
}

/// The contents of the `.txt` transcript titled `title`.
pub fn render_txt(title: &str, segments: &Vec<Segment>) -> (r: String)
    ensures
        r@ == txt_document(title@, segments@),
{
    let mut out: Vec<char> = Vec::new();
    push_str(&mut out, title);
    out.push('\n');
    out.push('\n');
    let ghost head = out@;
    let mut i: usize = 0;
    while i < segments.len()
        invariant
            i <= segments.len(),
            head == title@ + seq!['\n', '\n'],
            out@ == head + join(tagged_lines(segments@.take(i as int)), seq!['\n']),
        decreases segments.len() - i,
    {
        let ghost prev = tagged_lines(segments@.take(i as int));
        let ghost t = tagged(segments@[i as int].text@, segments@[i as int].speaker@);
        if i > 0 {
            out.push('\n');
        }
        push_tagged(&mut out, &segments[i]);
        proof {
            assert(tagged_lines(segments@.take(i + 1)) == prev.push(t));
            lemma_join_push(prev, seq!['\n'], t);
        }
        i += 1;
    }
    out.push('\n');
    assert(segments@.take(segments.len() as int) == segments@);
    string_of(&out)
}


/// The segments kept from the recogniser's output: those whose trimmed
/// text is not empty, with the text's whitespace normalised and no speaker.
pub open spec fn kept_segments(raw: Seq<RawSegment>) -> Seq<(int, int, Seq<char>)>
    decreases raw.len(),
{
    if raw.len() == 0 {
        seq![]
    } else {
        let r = kept_segments(raw.drop_last());
        let t = trim(raw.last().text@);
        if t.len() == 0 {
            r
        } else {
            r.push((raw.last().start_cs as int, raw.last().end_cs as int, normalized(t)))
        }
    }
}

/// The time span and text of each segment.
pub open spec fn segment_summary(segs: Seq<Segment>) -> Seq<(int, int, Seq<char>)> {
    segs.map_values(|s: Segment| (s.start_cs as int, s.end_cs as int, s.text@))
}

/// A recogniser segment that has text once trimmed.
pub open spec fn has_text(x: RawSegment) -> bool {
    trim(x.text@).len() > 0
}

/// The recogniser segments that have text, in order.
pub open spec fn spoken(raw: Seq<RawSegment>) -> Seq<RawSegment> {
    raw.filter(|x: RawSegment| has_text(x))
}

proof fn lemma_kept_segments_spoken(raw: Seq<RawSegment>)
    ensures
        kept_segments(raw).len() == spoken(raw).len(),
        forall|j: int|
            0 <= j < spoken(raw).len() ==> #[trigger] kept_segments(raw)[j] == (
                spoken(raw)[j].start_cs as int,
                spoken(raw)[j].end_cs as int,
                normalized(trim(spoken(raw)[j].text@)),
            ),
    decreases raw.len(),
{
    reveal(Seq::filter);
    if raw.len() > 0 {
        lemma_kept_segments_spoken(raw.drop_last());
    }
}

/// Turns the recogniser's segments into transcript segments: blank ones
/// dropped, whitespace normalised, speaker left empty. Each kept segment
/// keeps the time span of the recogniser segment it comes from, and the
/// segments are kept in order.
pub fn collect_segments(raw: &Vec<RawSegment>) -> (r: Vec<Segment>)
    ensures
        segment_summary(r@) == kept_segments(raw@),
        forall|i: int| 0 <= i < r@.len() ==> (#[trigger] r@[i]).speaker@.len() == 0,
        r@.len() == spoken(raw@).len(),
        forall|j: int|
            0 <= j < r@.len() ==> {
                let x = spoken(raw@)[j];
                &&& (#[trigger] r@[j]).start_cs == x.start_cs
                &&& r@[j].end_cs == x.end_cs
                &&& r@[j].text@ == normalized(trim(x.text@))
            },
{
    let ghost rv = raw@;
    let mut out: Vec<Segment> = Vec::new();
    let mut i: usize = 0;
    while i < raw.len()
        invariant
            i <= raw.len(),
            rv == raw@,
            segment_summary(out@) == kept_segments(rv.take(i as int)),
            forall|j: int| 0 <= j < out@.len() ==> (#[trigger] out@[j]).speaker@.len() == 0,
        decreases raw.len() - i,
    {
        assert(rv.take(i + 1).drop_last() == rv.take(i as int));
        let seg = &raw[i];
        let text = trim_text(seg.text.as_str());
        if !text.as_str().is_empty() {
            let norm = normalize_text(text.as_str());
            let ghost before = out@;
            out.push(Segment { start_cs: seg.start_cs, end_cs: seg.end_cs, text: norm, speaker: String::new() });
            assert(segment_summary(out@) == segment_summary(before).push((seg.start_cs as int, seg.end_cs as int, normalized(text@))));
        }
        i += 1;
    }
    assert(rv.take(raw.len() as int) == rv);
    proof {
        lemma_kept_segments_spoken(rv);
        assert forall|j: int| 0 <= j < out@.len() implies {
            let x = spoken(raw@)[j];
            &&& (#[trigger] out@[j]).start_cs == x.start_cs
            &&& out@[j].end_cs == x.end_cs
            &&& out@[j].text@ == normalized(trim(x.text@))
        } by {
            assert(segment_summary(out@)[j] == kept_segments(rv)[j]);
        }
    }
    out
}


/// One recognised word with its time span (centiseconds) and speaker.
pub struct TimedWord {
    pub start_cs: i64,
    pub end_cs: i64,
    pub text: String,
    pub speaker: String,
}

/// A recogniser token that carries no text: blank, or a marker such as
/// `[_BEG_]` or `<|endoftext|>`.
pub open spec fn is_marker(t: Seq<char>) -> bool {
    ||| t.len() == 0
    ||| t.len() >= 2 && t[0] == '[' && t[1] == '_'
    ||| t.len() >= 2 && t[0] == '<' && t[1] == '|'
}

/// The words kept from the recogniser's tokens: each trimmed token that is
/// not a marker, with its time span.
pub open spec fn kept_words(tokens: Seq<RawSegment>) -> Seq<(int, int, Seq<char>)>
    decreases tokens.len(),
{
    if tokens.len() == 0 {
        seq![]
    } else {
        let r = kept_words(tokens.drop_last());
        let t = trim(tokens.last().text@);
        if is_marker(t) {
            r
        } else {
            r.push((tokens.last().start_cs as int, tokens.last().end_cs as int, t))
        }
    }
}

/// The time span and text of each word.
pub open spec fn word_summary(ws: Seq<TimedWord>) -> Seq<(int, int, Seq<char>)> {
    ws.map_values(|w: TimedWord| (w.start_cs as int, w.end_cs as int, w.text@))
}

/// A recogniser token that carries a word.
pub open spec fn is_word_token(x: RawSegment) -> bool {
    !is_marker(trim(x.text@))
}

/// The recogniser tokens that carry words, in order.
pub open spec fn word_tokens(tokens: Seq<RawSegment>) -> Seq<RawSegment> {
    tokens.filter(|x: RawSegment| is_word_token(x))
}

proof fn lemma_kept_words_tokens(tokens: Seq<RawSegment>)
    ensures
        kept_words(tokens).len() == word_tokens(tokens).len(),
        forall|j: int|
            0 <= j < word_tokens(tokens).len() ==> #[trigger] kept_words(tokens)[j] == (
                word_tokens(tokens)[j].start_cs as int,
                word_tokens(tokens)[j].end_cs as int,
                trim(word_tokens(tokens)[j].text@),
            ),
    decreases tokens.len(),
{
    reveal(Seq::filter);
    if tokens.len() > 0 {
        lemma_kept_words_tokens(tokens.drop_last());
    }
}

/// Turns the recogniser's tokens into words: markers and blanks dropped,
/// text trimmed, speaker left empty. Each word keeps the time span of its
/// token, in order.
pub fn collect_words(tokens: &Vec<RawSegment>) -> (r: Vec<TimedWord>)
    ensures
        word_summary(r@) == kept_words(tokens@),
        forall|i: int| 0 <= i < r@.len() ==> (#[trigger] r@[i]).speaker@.len() == 0,
        r@.len() == word_tokens(tokens@).len(),
        forall|j: int|
            0 <= j < r@.len() ==> {
                let x = word_tokens(tokens@)[j];
                &&& (#[trigger] r@[j]).start_cs == x.start_cs
                &&& r@[j].end_cs == x.end_cs
                &&& r@[j].text@ == trim(x.text@)
            },
{
    let ghost tv = tokens@;
    let mut out: Vec<TimedWord> = Vec::new();
    let mut i: usize = 0;
    while i < tokens.len()
        invariant
            i <= tokens.len(),
            tv == tokens@,
            word_summary(out@) == kept_words(tv.take(i as int)),
            forall|j: int| 0 <= j < out@.len() ==> (#[trigger] out@[j]).speaker@.len() == 0,
        decreases tokens.len() - i,
    {
        assert(tv.take(i + 1).drop_last() == tv.take(i as int));
        let tok = &tokens[i];
        let text = trim_text(tok.text.as_str());
        let v = text.as_str();
        let n = v.unicode_len();
        let marker = if n == 0 {
            true
        } else if n >= 2 {
            let a = v.get_char(0);
            let b = v.get_char(1);
            (a == '[' && b == '_') || (a == '<' && b == '|')
        } else {
            false
        };
        if !marker {
            let ghost before = out@;
            let ghost tx = text@;
            out.push(TimedWord { start_cs: tok.start_cs, end_cs: tok.end_cs, text, speaker: String::new() });
            assert(word_summary(out@) == word_summary(before).push((tok.start_cs as int, tok.end_cs as int, tx)));
        }
        i += 1;
    }
    assert(tv.take(tokens.len() as int) == tv);
    proof {
        lemma_kept_words_tokens(tv);
        assert forall|j: int| 0 <= j < out@.len() implies {
            let x = word_tokens(tokens@)[j];
            &&& (#[trigger] out@[j]).start_cs == x.start_cs
            &&& out@[j].end_cs == x.end_cs
            &&& out@[j].text@ == trim(x.text@)
        } by {
            assert(word_summary(out@)[j] == kept_words(tv)[j]);
        }
    }
    out
}

/// Segment `seg` covers the time `t`: it starts at or before `t` and ends
/// after it.
pub open spec fn covers(seg: Segment, t: int) -> bool {
    seg.start_cs <= t < seg.end_cs
}

/// `k` is the first segment covering the time `t`.
pub open spec fn is_first_covering(segs: Seq<Segment>, t: int, k: int) -> bool {
    &&& 0 <= k < segs.len()
    &&& covers(segs[k], t)
    &&& forall|j: int| 0 <= j < k ==> !covers(segs[j], t)
}

/// The first segment covering `t`, if any.
fn covering_segment(segments: &Vec<Segment>, t: i64) -> (r: Option<usize>)
    ensures
        r matches Some(k) ==> is_first_covering(segments@, t as int, k as int),
        r is None ==> forall|j: int| 0 <= j < segments@.len() ==> !covers(segments@[j], t as int),
{
    let mut k: usize = 0;
    while k < segments.len()
        invariant
            k <= segments.len(),
            forall|j: int| 0 <= j < k ==> !covers(segments@[j], t as int),
        decreases segments.len() - k,
    {
        if segments[k].start_cs <= t && t < segments[k].end_cs {
            return Some(k);
        }
        k += 1;
    }
    None
}

/// Gives each word the speaker of the first segment its start falls in;
/// a word no segment covers keeps its speaker.
pub fn apply_word_speakers(words: &mut Vec<TimedWord>, segments: &Vec<Segment>)
    ensures
        final(words)@.len() == old(words)@.len(),
        forall|i: int| 0 <= i < old(words)@.len() ==> {
            let w = old(words)@[i];
            let u = #[trigger] final(words)@[i];
            &&& u.start_cs == w.start_cs
            &&& u.end_cs == w.end_cs
            &&& u.text == w.text
            &&& (forall|k: int| is_first_covering(segments@, w.start_cs as int, k) ==> u.speaker
                == segments@[k].speaker)
            &&& ((forall|j: int| 0 <= j < segments@.len() ==> !covers(segments@[j], w.start_cs as int))
                ==> u.speaker == w.speaker)
        },
{
    let ghost before = words@;
    let mut i: usize = 0;
    while i < words.len()
        invariant
            i <= words@.len(),
            words@.len() == before.len(),
            forall|j: int| i <= j < before.len() ==> words@[j] == before[j],
            forall|j: int| 0 <= j < i ==> {
                let w = before[j];
                let u = #[trigger] words@[j];
                &&& u.start_cs == w.start_cs
                &&& u.end_cs == w.end_cs
                &&& u.text == w.text
                &&& (forall|k: int| is_first_covering(segments@, w.start_cs as int, k) ==> u.speaker
                    == segments@[k].speaker)
                &&& ((forall|m: int| 0 <= m < segments@.len() ==> !covers(segments@[m], w.start_cs as int))
                    ==> u.speaker == w.speaker)
            },
        decreases words@.len() - i,
    {
        let t = words[i].start_cs;
        match covering_segment(segments, t) {
            Some(k) => {
                let sp = segments[k].speaker.clone();
                proof {
                    assert forall|k2: int| is_first_covering(segments@, t as int, k2) implies k2 == k by {
                        if k2 < k {
                            assert(!covers(segments@[k2], t as int));
                        } else if k < k2 {
                            assert(!covers(segments@[k as int], t as int));
                        }
                    }
                }
                words[i].speaker = sp;
            },
            None => {},
        }
        i += 1;
    }
}

} // verus!
