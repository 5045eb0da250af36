//! The `review.html` page that lists every voice profile with its clips.

use vstd::prelude::*;
use crate::profiles::{ass_style_name, style_name, ProfileStore, VoiceProfile};
use crate::terms::string_views;
use crate::text::{
    decimal, lemma_lines_text_add, lemma_lines_text_push, lines_text, push_decimal, push_line,
    push_str, push_str_line, string_of,
};

verus! {

pub const REVIEW_STYLE: &'static str = "<style>body{font-family:system-ui,sans-serif;margin:2rem;max-width:56rem}.card{border:1px solid #ccc;border-radius:8px;padding:1rem;margin:1rem 0}.swatch{display:inline-block;width:1rem;height:1rem;border-radius:2px;vertical-align:middle;margin-right:.5rem}audio{width:100%;margin:.25rem 0}</style>";

pub const REVIEW_HINT: &'static str = "<p>Label with <code>transcribe voice label &lt;id&gt; \"Name\" --color \"#RRGGBB\"</code></p>";

/// The lines before the profile cards.
pub open spec fn review_head() -> Seq<Seq<char>> {
    seq![
        "<!DOCTYPE html>"@,
        "<html lang=\"en\"><head>"@,
        "<meta charset=\"utf-8\">"@,
        "<title>Voice profile review</title>"@,
        REVIEW_STYLE@,
        "</head><body>"@,
        "<h1>Voice profiles</h1>"@,
        REVIEW_HINT@,
    ]
}

/// How `bool` displays.
pub open spec fn bool_text(b: bool) -> Seq<char> {
    if b {
        "true"@
    } else {
        "false"@
    }
}

/// The name a card shows: the profile's name, or `(unlabeled)`.
pub open spec fn card_name(p: VoiceProfile) -> Seq<char> {
    match p.name {
        Some(n) => n@,
        None => "(unlabeled)"@,
    }
}

/// One `<audio>` line per clip.
pub open spec fn clip_lines(clips: Seq<String>) -> Seq<Seq<char>> {
    clips.map_values(|c: String| "<audio controls preload=\"none\" src=\""@ + c@ + "\"></audio>"@)
}

/// The lines of one profile's card.
pub open spec fn card_lines(p: VoiceProfile) -> Seq<Seq<char>> {
    seq![
        "<div class=\"card\">"@,
        "<h2><span class=\"swatch\" style=\"background:"@ + p.color@ + "\"></span>"@ + style_name(
            card_name(p),
        ) + " <small>("@ + p.id@ + ")</small></h2>"@,
        "<p>labeled="@ + bool_text(p.labeled) + " · embeddings="@ + decimal(
            p.embeddings@.len(),
        ) + " · color="@ + p.color@ + "</p>"@,
    ] + (if p.clips@.len() == 0 {
        seq!["<p><em>No clips exported yet.</em></p>"@]
    } else {
        clip_lines(p.clips@)
    }) + seq!["</div>"@]
}

/// The cards of all profiles, in order.
pub open spec fn cards_text(ps: Seq<VoiceProfile>) -> Seq<char>
    decreases ps.len(),
{
    if ps.len() == 0 {
        seq![]
    } else {
        cards_text(ps.drop_last()) + lines_text(card_lines(ps.last()))
    }
}

/// The whole review page.
pub open spec fn review_document(ps: Seq<VoiceProfile>) -> Seq<char> {
    lines_text(review_head()) + cards_text(ps) + lines_text(seq!["</body></html>"@])
}

fn push_card(out: &mut Vec<char>, p: &VoiceProfile)
    ensures
        final(out)@ == old(out)@ + lines_text(card_lines(*p)),
{
    let ghost start = out@;
    let ghost ls = card_lines(*p);
    let name: &str = match &p.name {
        Some(n) => n.as_str(),
        None => "(unlabeled)",
    };
    assert(name@ == card_name(*p));
    let style = ass_style_name(name);
    let mut l1: Vec<char> = Vec::new();
    push_str(&mut l1, "<h2><span class=\"swatch\" style=\"background:");
    push_str(&mut l1, p.color.as_str());
    push_str(&mut l1, "\"></span>");
    push_str(&mut l1, style.as_str());
    push_str(&mut l1, " <small>(");
    push_str(&mut l1, p.id.as_str());
    push_str(&mut l1, ")</small></h2>");
    let mut l2: Vec<char> = Vec::new();
    push_str(&mut l2, "<p>labeled=");
    push_str(&mut l2, if p.labeled { "true" } else { "false" });
    push_str(&mut l2, " · embeddings=");
    push_decimal(&mut l2, p.embeddings.len() as u64);
    push_str(&mut l2, " · color=");
    push_str(&mut l2, p.color.as_str());
    push_str(&mut l2, "</p>");
    let ghost first3 = seq!["<div class=\"card\">"@, l1@, l2@];
    push_str_line(out, "<div class=\"card\">");
    push_line(out, &l1);
    push_line(out, &l2);
    proof {
        lemma_lines_text_push(first3.take(0), first3[0]);
        lemma_lines_text_push(first3.take(1), first3[1]);
        lemma_lines_text_push(first3.take(2), first3[2]);
        assert(first3.take(0) == Seq::<Seq<char>>::empty());
        assert(first3.take(1) == first3.take(0).push(first3[0]));
        assert(first3.take(2) == first3.take(1).push(first3[1]));
        assert(first3 == first3.take(2).push(first3[2]));
        assert(out@ == start + lines_text(first3));
    }
    let ghost mid = out@;
    let ghost middle: Seq<Seq<char>> = if p.clips@.len() == 0 {
        seq!["<p><em>No clips exported yet.</em></p>"@]
    } else {
        clip_lines(p.clips@)
    };
    if p.clips.len() == 0 {
        push_str_line(out, "<p><em>No clips exported yet.</em></p>");
        proof {
            lemma_lines_text_push(Seq::<Seq<char>>::empty(), middle[0]);
            assert(Seq::<Seq<char>>::empty().push(middle[0]) == middle);
        }
    } else {
        let mut i: usize = 0;
        while i < p.clips.len()
            invariant
                i <= p.clips@.len(),
                p.clips@.len() > 0,
                middle == clip_lines(p.clips@),
                out@ == mid + lines_text(middle.take(i as int)),
            decreases p.clips.len() - i,
        {
            let mut l: Vec<char> = Vec::new();
            push_str(&mut l, "<audio controls preload=\"none\" src=\"");
            push_str(&mut l, p.clips[i].as_str());
            push_str(&mut l, "\"></audio>");
            push_line(out, &l);
            proof {
                lemma_lines_text_push(middle.take(i as int), middle[i as int]);
                assert(middle.take(i + 1) == middle.take(i as int).push(middle[i as int]));
            }
            i += 1;
        }
        assert(middle.take(p.clips@.len() as int) == middle);
    }
    push_str_line(out, "</div>");
    proof {
        lemma_lines_text_add(first3, middle);
        lemma_lines_text_push(first3 + middle, "</div>"@);
        assert(ls == (first3 + middle).push("</div>"@));
    }
}

/// The contents of `review.html` for the store's profiles.
pub fn render_review_html(store: &ProfileStore) -> (r: String)
    ensures
        r@ == review_document(store.profiles@),
{
    let mut out: Vec<char> = Vec::new();
    let head = ["<!DOCTYPE html>", "<html lang=\"en\"><head>", "<meta charset=\"utf-8\">",
        "<title>Voice profile review</title>", REVIEW_STYLE, "</head><body>",
        "<h1>Voice profiles</h1>", REVIEW_HINT];
    let mut h: usize = 0;
    while h < 8
        invariant
            h <= 8,
            head@ == seq!["<!DOCTYPE html>", "<html lang=\"en\"><head>", "<meta charset=\"utf-8\">",
                "<title>Voice profile review</title>", REVIEW_STYLE, "</head><body>",
                "<h1>Voice profiles</h1>", REVIEW_HINT],
            out@ == lines_text(review_head().take(h as int)),
        decreases 8 - h,
    {
        proof {
            lemma_lines_text_push(review_head().take(h as int), review_head()[h as int]);
            assert(review_head().take(h + 1) == review_head().take(h as int).push(
                review_head()[h as int],
            ));
        }
        push_str_line(&mut out, head[h]);
        h += 1;
    }
    assert(review_head().take(8) == review_head());
    let ghost after_head = out@;
    let ghost ps = store.profiles@;
    let mut i: usize = 0;
    while i < store.profiles.len()
        invariant
            i <= store.profiles.len(),
            ps == store.profiles@,
            out@ == after_head + cards_text(ps.take(i as int)),
        decreases store.profiles.len() - i,
    {
        push_card(&mut out, &store.profiles[i]);
        assert(ps.take(i + 1).drop_last() == ps.take(i as int));
        i += 1;
    }
    assert(ps.take(ps.len() as int) == ps);
    push_str_line(&mut out, "</body></html>");
    proof {
        lemma_lines_text_push(Seq::<Seq<char>>::empty(), "</body></html>"@);
        assert(Seq::<Seq<char>>::empty().push("</body></html>"@) == seq!["</body></html>"@]);
    }
    string_of(&out)
}


/// A line of the page that plays a clip: it starts with `<audio`.
pub open spec fn is_audio_line(l: Seq<char>) -> bool {
    &&& l.len() >= 6
    &&& l[0] == '<'
    &&& l[1] == 'a'
    &&& l[2] == 'u'
    &&& l[3] == 'd'
    &&& l[4] == 'i'
    &&& l[5] == 'o'
}

/// The player line for the clip file `c`.
pub open spec fn audio_line(c: Seq<char>) -> Seq<char> {
    "<audio controls preload=\"none\" src=\""@ + c + "\"></audio>"@
}

/// The clip-playing lines among `ls`, in order.
pub open spec fn audio_lines_of(ls: Seq<Seq<char>>) -> Seq<Seq<char>> {
    ls.filter(|l: Seq<char>| is_audio_line(l))
}

/// One player line per clip file of `clips`, in order.
pub open spec fn players(clips: Seq<Seq<char>>) -> Seq<Seq<char>> {
    clips.map_values(|c: Seq<char>| audio_line(c))
}

/// The clip files of all profiles, profile after profile.
pub open spec fn all_clips(ps: Seq<VoiceProfile>) -> Seq<Seq<char>>
    decreases ps.len(),
{
    if ps.len() == 0 {
        seq![]
    } else {
        all_clips(ps.drop_last()) + string_views(ps.last().clips@)
    }
}

/// The lines of all cards, in order.
pub open spec fn all_card_lines(ps: Seq<VoiceProfile>) -> Seq<Seq<char>>
    decreases ps.len(),
{
    if ps.len() == 0 {
        seq![]
    } else {
        all_card_lines(ps.drop_last()) + card_lines(ps.last())
    }
}

/// The lines of the review page.
pub open spec fn page_lines(ps: Seq<VoiceProfile>) -> Seq<Seq<char>> {
    review_head() + all_card_lines(ps) + seq!["</body></html>"@]
}

proof fn lemma_audio_lines_add(a: Seq<Seq<char>>, b: Seq<Seq<char>>)
    ensures
        audio_lines_of(a + b) == audio_lines_of(a) + audio_lines_of(b),
    decreases b.len(),
{
    reveal(Seq::filter);
    if b.len() == 0 {
        assert(a + b == a);
        assert(audio_lines_of(a) + audio_lines_of(b) == audio_lines_of(a));
    } else {
        lemma_audio_lines_add(a, b.drop_last());
        assert((a + b).drop_last() == a + b.drop_last());
        assert((a + b).last() == b.last());
    }
}

proof fn lemma_no_audio(ls: Seq<Seq<char>>)
    requires
        forall|i: int| 0 <= i < ls.len() ==> !is_audio_line(#[trigger] ls[i]),
    ensures
        audio_lines_of(ls) == Seq::<Seq<char>>::empty(),
    decreases ls.len(),
{
    reveal(Seq::filter);
    if ls.len() > 0 {
        lemma_no_audio(ls.drop_last());
        assert(!is_audio_line(ls[ls.len() - 1]));
    }
}

proof fn lemma_all_audio(ls: Seq<Seq<char>>)
    requires
        forall|i: int| 0 <= i < ls.len() ==> is_audio_line(#[trigger] ls[i]),
    ensures
        audio_lines_of(ls) == ls,
    decreases ls.len(),
{
    reveal(Seq::filter);
    if ls.len() > 0 {
        lemma_all_audio(ls.drop_last());
        assert(is_audio_line(ls[ls.len() - 1]));
        assert(ls.drop_last().push(ls.last()) == ls);
    }
}

proof fn lemma_card_audio(p: VoiceProfile)
    ensures
        audio_lines_of(card_lines(p)) == players(string_views(p.clips@)),
{
    reveal_strlit("<div class=\"card\">");
    reveal_strlit("<h2><span class=\"swatch\" style=\"background:");
    reveal_strlit("<p>labeled=");
    reveal_strlit("<p><em>No clips exported yet.</em></p>");
    reveal_strlit("</div>");
    reveal_strlit("<audio controls preload=\"none\" src=\"");
    let first3 = seq![
        "<div class=\"card\">"@,
        "<h2><span class=\"swatch\" style=\"background:"@ + p.color@ + "\"></span>"@ + style_name(
            card_name(p),
        ) + " <small>("@ + p.id@ + ")</small></h2>"@,
        "<p>labeled="@ + bool_text(p.labeled) + " · embeddings="@ + decimal(p.embeddings@.len())
            + " · color="@ + p.color@ + "</p>"@,
    ];
    let middle: Seq<Seq<char>> = if p.clips@.len() == 0 {
        seq!["<p><em>No clips exported yet.</em></p>"@]
    } else {
        clip_lines(p.clips@)
    };
    let tail: Seq<Seq<char>> = seq!["</div>"@];
    assert(card_lines(p) == first3 + middle + tail);
    assert(!is_audio_line(first3[0]));
    assert(!is_audio_line(first3[1]));
    assert(!is_audio_line(first3[2]));
    lemma_no_audio(first3);
    assert(!is_audio_line(tail[0]));
    lemma_no_audio(tail);
    let pl = players(string_views(p.clips@));
    if p.clips@.len() == 0 {
        assert(!is_audio_line(middle[0]));
        lemma_no_audio(middle);
        assert(pl == Seq::<Seq<char>>::empty());
    } else {
        assert(middle == pl);
        assert forall|i: int| 0 <= i < middle.len() implies is_audio_line(#[trigger] middle[i]) by {
            assert(middle[i] == audio_line(p.clips@[i]@));
        }
        lemma_all_audio(middle);
    }
    lemma_audio_lines_add(first3, middle);
    lemma_audio_lines_add(first3 + middle, tail);
    assert(Seq::<Seq<char>>::empty() + pl + Seq::<Seq<char>>::empty() == pl);
}

proof fn lemma_cards_audio(ps: Seq<VoiceProfile>)
    ensures
        audio_lines_of(all_card_lines(ps)) == players(all_clips(ps)),
        cards_text(ps) == lines_text(all_card_lines(ps)),
    decreases ps.len(),
{
    reveal(Seq::filter);
    if ps.len() == 0 {
        assert(players(all_clips(ps)) == Seq::<Seq<char>>::empty());
    } else {
        let d = ps.drop_last();
        lemma_cards_audio(d);
        lemma_card_audio(ps.last());
        lemma_audio_lines_add(all_card_lines(d), card_lines(ps.last()));
        lemma_lines_text_add(all_card_lines(d), card_lines(ps.last()));
        assert(players(all_clips(ps)) == players(all_clips(d)) + players(
            string_views(ps.last().clips@),
        ));
    }
}

/// The review page plays every clip of every profile, and nothing else:
/// its lines that start with `<audio` are exactly one player line per clip
/// file, profile after profile, clip after clip. So the page has as many
/// players as the profiles have clips.
pub proof fn lemma_review_plays_every_clip(ps: Seq<VoiceProfile>)
    ensures
        review_document(ps) == lines_text(page_lines(ps)),
        audio_lines_of(page_lines(ps)) == players(all_clips(ps)),
        audio_lines_of(page_lines(ps)).len() == all_clips(ps).len(),
{
    reveal_strlit("<!DOCTYPE html>");
    reveal_strlit("<html lang=\"en\"><head>");
    reveal_strlit("<meta charset=\"utf-8\">");
    reveal_strlit("<title>Voice profile review</title>");
    reveal_strlit("<style>body{font-family:system-ui,sans-serif;margin:2rem;max-width:56rem}.card{border:1px solid #ccc;border-radius:8px;padding:1rem;margin:1rem 0}.swatch{display:inline-block;width:1rem;height:1rem;border-radius:2px;vertical-align:middle;margin-right:.5rem}audio{width:100%;margin:.25rem 0}</style>");
    reveal_strlit("</head><body>");
    reveal_strlit("<h1>Voice profiles</h1>");
    reveal_strlit("<p>Label with <code>transcribe voice label &lt;id&gt; \"Name\" --color \"#RRGGBB\"</code></p>");
    reveal_strlit("</body></html>");
    let head = review_head();
    assert forall|i: int| 0 <= i < head.len() implies !is_audio_line(#[trigger] head[i]) by {
        assert(head[i][1] != 'a');
    }
    lemma_no_audio(head);
    let tail: Seq<Seq<char>> = seq!["</body></html>"@];
    assert(!is_audio_line(tail[0]));
    lemma_no_audio(tail);
    lemma_cards_audio(ps);
    lemma_audio_lines_add(head, all_card_lines(ps));
    lemma_audio_lines_add(head + all_card_lines(ps), tail);
    lemma_lines_text_add(head, all_card_lines(ps));
    lemma_lines_text_add(head + all_card_lines(ps), tail);
    let pl = players(all_clips(ps));
    assert(Seq::<Seq<char>>::empty() + pl + Seq::<Seq<char>>::empty() == pl);
}

} // verus!
