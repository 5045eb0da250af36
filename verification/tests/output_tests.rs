use episode_transcribe::ass::render_ass;
use episode_transcribe::output::{
    apply_word_speakers, collect_segments, collect_words, cs_to_ass_time, cs_to_srt_time,
    normalize_text, render_srt, render_txt, tagged_text, RawSegment, Segment, TimedWord,
};
use episode_transcribe::profiles::{hex_to_ass_primary, ProfileStore, VoiceProfile};
use episode_transcribe::wav::{check_wav_format, WavFormatError};

fn seg(start: i64, end: i64, text: &str, speaker: &str) -> Segment {
    Segment {
        start_cs: start,
        end_cs: end,
        text: text.to_string(),
        speaker: speaker.to_string(),
    }
}

fn store_with(profiles: Vec<VoiceProfile>) -> ProfileStore {
    ProfileStore {
        default_speaker: "DM".to_string(),
        match_threshold_bits: 0.5f32.to_bits(),
        profiles,
    }
}

fn profile(id: &str, name: Option<&str>, color: &str, labeled: bool) -> VoiceProfile {
    VoiceProfile {
        id: id.to_string(),
        name: name.map(|n| n.to_string()),
        color: color.to_string(),
        labeled,
        embeddings: vec![],
        clips: vec![],
    }
}

#[test]
fn normalize_collapses_whitespace() {
    assert_eq!(normalize_text("  hello   world  "), "hello world");
}

#[test]
fn time_formatters_cover_edges() {
    assert_eq!(cs_to_srt_time(0), "00:00:00,000");
    assert_eq!(cs_to_srt_time(360_000), "01:00:00,000");
    assert_eq!(cs_to_ass_time(-1), "0:00:00.00");
}

#[test]
fn normalize_handles_tabs_newlines_and_unicode_spaces() {
    assert_eq!(normalize_text("a\t\tb\nc\u{3000}d\u{a0} "), "a b c d");
    assert_eq!(normalize_text(""), "");
    assert_eq!(normalize_text("   \n\t "), "");
    assert_eq!(normalize_text("single"), "single");
}

#[test]
fn normalize_is_idempotent_on_examples() {
    for s in ["  a  b ", "x\ny", "", "   ", "one two  three"] {
        let once = normalize_text(s);
        assert_eq!(normalize_text(&once), once);
    }
}

#[test]
fn srt_time_fields() {
    assert_eq!(cs_to_srt_time(1), "00:00:00,010");
    assert_eq!(cs_to_srt_time(6_123), "00:01:01,230");
    assert_eq!(cs_to_srt_time(36_000_000), "100:00:00,000");
    // Negative times keep Rust's sign-aware zero padding per field.
    assert_eq!(cs_to_srt_time(-15), "00:00:00,-150");
    assert_eq!(cs_to_srt_time(-6_123), "00:-1:-1,-230");
}

#[test]
fn ass_time_fields() {
    assert_eq!(cs_to_ass_time(0), "0:00:00.00");
    assert_eq!(cs_to_ass_time(6_123), "0:01:01.23");
    assert_eq!(cs_to_ass_time(360_001), "1:00:00.01");
    assert_eq!(cs_to_ass_time(-500), cs_to_ass_time(0));
}

#[test]
fn tagged_text_prefixes_speaker() {
    assert_eq!(tagged_text(&seg(0, 1, "hi", "")), "hi");
    assert_eq!(tagged_text(&seg(0, 1, "hi", "Alice")), "[Alice] hi");
}

#[test]
fn srt_document_numbers_cues() {
    let segs = vec![seg(0, 100, "hello", "Alice"), seg(100, 250, "plain", "")];
    assert_eq!(
        render_srt(&segs),
        "1\n00:00:00,000 --> 00:00:01,000\n[Alice] hello\n\n2\n00:00:01,000 --> 00:00:02,500\nplain\n\n"
    );
    assert_eq!(render_srt(&vec![]), "");
}

#[test]
fn txt_document_has_title_and_lines() {
    let segs = vec![seg(0, 100, "hello", "Alice"), seg(100, 200, "plain", "")];
    assert_eq!(render_txt("title", &segs), "title\n\n[Alice] hello\nplain\n");
    assert_eq!(render_txt("t", &vec![]), "t\n\n\n");
}

#[test]
fn write_ass_with_profile_styles() {
    let store = store_with(vec![VoiceProfile {
        id: "p1".to_string(),
        name: Some("Alice".to_string()),
        color: "#FF0000".to_string(),
        labeled: true,
        embeddings: vec![],
        clips: vec![],
    }]);
    let segments = vec![Segment {
        start_cs: 10,
        end_cs: 50,
        text: "line\nbreak".to_string(),
        speaker: "Alice".to_string(),
    }];
    let body = render_ass(&segments, &store);
    assert!(body.contains(&hex_to_ass_primary("#FF0000")));
}

#[test]
fn output_writers_roundtrip() {
    let segments = vec![
        seg(0, 100, "hello  world", "Alice"),
        seg(100, 200, "plain", ""),
    ];
    let store = ProfileStore {
        default_speaker: "DM".to_string(),
        match_threshold_bits: 0.55f32.to_bits(),
        profiles: vec![],
    };
    let txt = render_txt("title", &segments);
    let srt = render_srt(&segments);
    let ass = render_ass(&segments, &store);
    assert!(txt.starts_with("title\n"));
    assert!(srt.contains("-->"));
    assert!(ass.contains("Dialogue:"));
}

#[test]
fn ass_document_exact() {
    let store = store_with(vec![profile("p1", Some("Alice"), "#FF0000", true)]);
    let segments = vec![seg(10, 50, "line\nbreak", "Alice"), seg(60, 70, "x", "")];
    let body = render_ass(&segments, &store);
    let expected = "[Script Info]\nTitle: Transcribe\nScriptType: v4.00+\nWrapStyle: 0\nScaledBorderAndShadow: yes\nYCbCr Matrix: None\n\n[V4+ Styles]\nFormat: Name, Fontname, Fontsize, PrimaryColour, SecondaryColour, OutlineColour, BackColour, Bold, Italic, Underline, StrikeOut, ScaleX, ScaleY, Spacing, Angle, BorderStyle, Outline, Shadow, Alignment, MarginL, MarginR, MarginV, Encoding\nStyle: Alice,Arial,28,&H000000FF,&H000000FF,&H00000000,&H80000000,0,0,0,0,100,100,0,0,1,2,1,2,20,20,20,1\nStyle: Default,Arial,28,&H00FFFFFF,&H000000FF,&H00000000,&H80000000,0,0,0,0,100,100,0,0,1,2,1,2,20,20,20,1\n\n[Events]\nFormat: Layer, Start, End, Style, Name, MarginL, MarginR, MarginV, Effect, Text\nDialogue: 0,0:00:00.10,0:00:00.50,Alice,,0,0,0,,line\\Nbreak\nDialogue: 0,0:00:00.60,0:00:00.70,Alice,,0,0,0,,x\n";
    assert_eq!(body, expected);
}

#[test]
fn ass_styles_sorted_unique_with_default() {
    let store = store_with(vec![
        profile("profile_00", None, "#00FF00", false),
        profile("p2", Some("Zed"), "", true),
    ]);
    let segments = vec![
        seg(0, 1, "a", "Zed"),
        seg(1, 2, "b", "Zed"),
        seg(2, 3, "c", "Bob One"),
    ];
    let body = render_ass(&segments, &store);
    let styles: Vec<&str> = body
        .lines()
        .filter(|l| l.starts_with("Style: "))
        .map(|l| l["Style: ".len()..].split(',').next().unwrap())
        .collect();
    assert_eq!(styles, vec!["Bob_One", "Default", "Zed", "profile_00"]);
    // profile_00 is unlabeled: its id styles it; Zed has no colour to parse.
    assert!(body.contains("Style: profile_00,Arial,28,&H0000FF00,"));
    assert!(body.contains("Style: Zed,Arial,28,&H00FFFFFF,"));
    assert!(body.contains("Style: Bob_One,Arial,28,&H00FFFFFF,"));
}

#[test]
fn collect_segments_drops_blank_and_normalizes() {
    let raw = vec![
        RawSegment { start_cs: 0, end_cs: 10, text: "  hello   there ".to_string() },
        RawSegment { start_cs: 10, end_cs: 20, text: "   ".to_string() },
        RawSegment { start_cs: 20, end_cs: 30, text: "bye".to_string() },
    ];
    let segs = collect_segments(&raw);
    assert_eq!(segs.len(), 2);
    assert_eq!(segs[0].text, "hello there");
    assert_eq!(segs[0].start_cs, 0);
    assert_eq!(segs[1].text, "bye");
    assert_eq!(segs[1].start_cs, 20);
    assert!(segs.iter().all(|s| s.speaker.is_empty()));
}

fn tok(start: i64, end: i64, text: &str) -> RawSegment {
    RawSegment { start_cs: start, end_cs: end, text: text.to_string() }
}

#[test]
fn collect_words_drops_markers_and_blanks() {
    let raw = vec![
        tok(0, 0, "[_BEG_]"),
        tok(0, 20, " Hello"),
        tok(20, 30, "   "),
        tok(20, 40, " world"),
        tok(40, 40, "<|endoftext|>"),
        tok(40, 45, "["),
    ];
    let words = collect_words(&raw);
    let got: Vec<(i64, i64, &str)> =
        words.iter().map(|w| (w.start_cs, w.end_cs, w.text.as_str())).collect();
    assert_eq!(got, vec![(0, 20, "Hello"), (20, 40, "world"), (40, 45, "[")]);
    assert!(words.iter().all(|w| w.speaker.is_empty()));
}

#[test]
fn apply_word_speakers_uses_first_covering_segment() {
    let word = |s: i64, sp: &str| TimedWord {
        start_cs: s,
        end_cs: s + 5,
        text: "w".to_string(),
        speaker: sp.to_string(),
    };
    let mut words = vec![word(0, ""), word(15, ""), word(30, "kept"), word(10, "")];
    let segments = vec![seg(0, 10, "a", "Alice"), seg(10, 20, "b", "Bob"), seg(5, 25, "c", "Cy")];
    apply_word_speakers(&mut words, &segments);
    let speakers: Vec<&str> = words.iter().map(|w| w.speaker.as_str()).collect();
    assert_eq!(speakers, vec!["Alice", "Bob", "kept", "Bob"]);
    assert_eq!(words[1].start_cs, 15);
}

#[test]
fn wav_format_check_matches_load_rules() {
    assert!(check_wav_format(16_000, 1).is_ok());
    assert!(matches!(check_wav_format(8_000, 1), Err(WavFormatError::SampleRate(8_000))));
    assert!(matches!(check_wav_format(8_000, 2), Err(WavFormatError::SampleRate(8_000))));
    assert!(matches!(check_wav_format(16_000, 2), Err(WavFormatError::Channels(2))));
}
