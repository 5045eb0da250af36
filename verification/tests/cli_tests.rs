use episode_transcribe::cli::{
    clip_output_path, find_vad_model, model_file_name, model_path, outputs_exist,
    resolve_terms_path, speaker_plan, transcript_paths, SpeakerPlan,
};
use episode_transcribe::gpu::{ffmpeg_hwaccel_args, gpu_disabled_by};
use episode_transcribe::help::{help_page, GENERAL, INSTALL, MODELS, PROFILES, PROJECT, RUN};
use episode_transcribe::paths::{
    file_stem_label, has_mp4_extension, select_videos,
};
use episode_transcribe::project::{
    config_path, parse_project_id, resolve_models_dir, Project, UserConfig,
};
use episode_transcribe::terms::{initial_prompt_from, initial_prompt_text, parse_terms, trim_text};
use std::collections::HashSet;
use std::path::Path;

fn joined(a: &str, b: &str) -> String {
    Path::new(a).join(b).to_string_lossy().into_owned()
}

fn with_ext(p: &str, e: &str) -> String {
    Path::new(p).with_extension(e).to_string_lossy().into_owned()
}

#[test]
fn parse_terms_skips_comments_and_blanks() {
    let raw = "# game names\nSilksong\n\nHornet\n# boss\n";
    assert_eq!(
        parse_terms(raw),
        vec!["Silksong".to_string(), "Hornet".to_string()]
    );
}

#[test]
fn parse_terms_trims_and_handles_crlf() {
    assert_eq!(parse_terms("  a b \r\n\t#x\r\nc"), vec!["a b", "c"]);
    assert!(parse_terms("").is_empty());
    assert_eq!(parse_terms(" # not a term"), Vec::<String>::new());
}

#[test]
fn load_initial_prompt_joins_terms() {
    assert_eq!(
        initial_prompt_from("Silksong\nHornet\n").as_deref(),
        Some("Silksong, Hornet")
    );
    assert_eq!(initial_prompt_from("# only comments\n\n"), None);
    assert_eq!(initial_prompt_text(&vec![]), None);
    assert_eq!(initial_prompt_text(&vec!["a".into()]).as_deref(), Some("a"));
}

#[test]
fn trim_text_matches_std() {
    for s in ["  x ", "\u{2003}y\u{85}", "", " ", "a b"] {
        assert_eq!(trim_text(s), s.trim());
    }
}

#[test]
fn find_vad_model_none_when_missing() {
    assert!(find_vad_model("/nonexistent/models", |_p: &str| false).is_none());
}

#[test]
fn find_vad_model_prefers_newest() {
    let newer = joined("m", "ggml-silero-v6.2.0.bin");
    let older = joined("m", "ggml-silero-v5.1.2.bin");
    assert_eq!(find_vad_model("m", |p: &str| p == newer || p == older), Some(newer.clone()));
    assert_eq!(find_vad_model("m", |p: &str| p == older), Some(older.clone()));
}

#[test]
fn outputs_exist_checks_extensions() {
    let video = joined("dir", "ep.mp4");
    let stem = with_ext(&video, "");
    let mut present: HashSet<String> = HashSet::new();
    present.insert(video.clone());
    let check = |set: &HashSet<String>, ws: bool| outputs_exist(&video, ws, |p: &str| set.contains(p));
    assert!(!check(&present, false));
    present.insert(with_ext(&stem, "txt"));
    assert!(!check(&present, false));
    present.insert(with_ext(&stem, "srt"));
    assert!(!check(&present, false));
    present.insert(with_ext(&stem, "words.json"));
    assert!(check(&present, false));
    assert!(!check(&present, true));
    present.insert(with_ext(&stem, "ass"));
    assert!(check(&present, true));
}

#[test]
fn transcript_and_terms_paths() {
    let p = transcript_paths("ep.v1.mp4");
    assert_eq!(p.txt, "ep.txt");
    assert_eq!(p.srt, "ep.srt");
    assert_eq!(p.words, "ep.words.json");
    assert_eq!(p.ass, "ep.ass");
    assert_eq!(resolve_terms_path("show/ep.mp4", None), "show/ep.terms.txt");
    assert_eq!(resolve_terms_path("show/ep.mp4", Some("t.txt")), "t.txt");
    assert_eq!(clip_output_path("c.mp4", None), "c.words.json");
    assert_eq!(clip_output_path("c.mp4", Some("o.json")), "o.json");
}

#[test]
fn model_names() {
    assert_eq!(model_file_name("base"), "ggml-base.bin");
    assert_eq!(model_path("models", "large-v3"), joined("models", "ggml-large-v3.bin"));
}

#[test]
fn speaker_plans() {
    assert!(matches!(speaker_plan(true, false, true, false), SpeakerPlan::Tag));
    assert!(matches!(speaker_plan(true, false, false, true), SpeakerPlan::NoProfiles));
    assert!(matches!(speaker_plan(true, false, false, false), SpeakerPlan::NoProject));
    assert!(matches!(speaker_plan(true, true, true, true), SpeakerPlan::Off));
    assert!(matches!(speaker_plan(false, false, true, true), SpeakerPlan::Off));
}

#[test]
fn gpu_switches() {
    assert!(gpu_disabled_by(Some("1")));
    assert!(gpu_disabled_by(Some("yes")));
    assert!(!gpu_disabled_by(Some("TRUE")));
    assert!(!gpu_disabled_by(None));
    assert!(ffmpeg_hwaccel_args(true).is_empty());
    assert_eq!(ffmpeg_hwaccel_args(false), vec!["-hwaccel", "cuda"]);
}

#[test]
fn all_help_topics_print() {
    for topic in [
        None,
        Some("project"),
        Some("profiles"),
        Some("run"),
        Some("models"),
        Some("install"),
        Some("bogus"),
    ] {
        let page = help_page(topic);
        assert!(!page.text.is_empty());
    }
}

#[test]
fn help_topics_are_case_insensitive() {
    assert_eq!(help_page(None).text, GENERAL);
    assert_eq!(help_page(Some("PROJECTS")).text, PROJECT);
    assert_eq!(help_page(Some("Voice")).text, PROFILES);
    assert_eq!(help_page(Some("transcribe")).text, RUN);
    assert_eq!(help_page(Some("model")).text, MODELS);
    assert_eq!(help_page(Some("Uninstall")).text, INSTALL);
    let unknown = help_page(Some("not-a-topic"));
    assert!(unknown.unknown);
    assert_eq!(unknown.text, GENERAL);
}

#[test]
fn file_stem_label_fallback() {
    assert_eq!(file_stem_label(""), "episode");
    assert_eq!(file_stem_label("dir/only.mp4"), "only");
}

#[test]
fn discover_sorted_mp4_in_directory() {
    let names = vec!["b.mp4".to_string(), "a.mp4".to_string()];
    let vids = select_videos(&names);
    assert_eq!(vids.len(), 2);
    assert!(vids[0] <= vids[1]);
}

#[test]
fn coverage_discover_ignores_non_mp4_file() {
    assert!(select_videos(&vec!["readme.txt".to_string()]).is_empty());
}

#[test]
fn gaps_discover_ignores_non_mp4_file() {
    assert!(!has_mp4_extension("readme.txt"));
}

#[test]
fn discover_single_mp4_file() {
    assert!(has_mp4_extension("only.mp4"));
    let found = select_videos(&vec!["only.mp4".to_string()]);
    assert_eq!(found.len(), 1);
    assert_eq!(file_stem_label(&joined("tmp", "only.mp4")), "only");
}

#[test]
fn lib_run_help_unknown_topic() {
    let page = help_page(Some("not-a-topic"));
    assert!(page.unknown);
    assert_eq!(page.text, GENERAL);
}

#[test]
fn lib_outputs_exist_and_vad_helpers() {
    let video = joined("tmp", "x.mp4");
    assert!(!outputs_exist(&video, false, |p: &str| p == video));
    assert!(find_vad_model("models", |_p: &str| false).is_none());
}

#[test]
fn select_videos_filters_and_sorts() {
    let names: Vec<String> = ["z.mp4", ".mp4", "a.MP4", "B.mp4", "clip.mp4.bak", "x.y.mp4", "é.mp4", "a.mp4"]
        .iter()
        .map(|s| s.to_string())
        .collect();
    assert_eq!(select_videos(&names), vec!["B.mp4", "a.mp4", "x.y.mp4", "z.mp4", "é.mp4"]);
    assert!(has_mp4_extension("a.mp4"));
    assert!(!has_mp4_extension(".mp4"));
    assert!(!has_mp4_extension("mp4"));
    assert!(!has_mp4_extension("a.mp"));
}

#[test]
fn path_wrappers_follow_std() {
    assert_eq!(model_path("a", "small"), joined("a", "ggml-small.bin"));
    assert_eq!(clip_output_path("a/b.mp4", None), "a/b.words.json");
    assert_eq!(config_path("home"), joined("home", "config.json"));
}

fn project(models: Option<&str>) -> Project {
    Project {
        id: 7,
        name: "p".into(),
        root_path: "root".into(),
        voices_rel: "voices".into(),
        models_path: models.map(|m| m.to_string()),
        created_at: "now".into(),
    }
}

#[test]
fn models_dir_priority() {
    let with = project(Some("stored"));
    let without = project(None);
    let fallback = || -> Result<String, String> { Ok("default".to_string()) };
    let failing = || -> Result<String, String> { Err("no home".to_string()) };
    assert_eq!(resolve_models_dir(Some(&with), Some("cli".into()), failing), Ok("cli".to_string()));
    assert_eq!(resolve_models_dir(Some(&with), None, failing), Ok("stored".to_string()));
    assert_eq!(resolve_models_dir(Some(&without), None, fallback), Ok("default".to_string()));
    assert_eq!(resolve_models_dir(None, None, failing), Err("no home".to_string()));
    assert_eq!(with.resolved_models_path(failing), Ok("stored".to_string()));
    assert_eq!(without.resolved_models_path(fallback), Ok("default".to_string()));
    assert_eq!(with.voices_path(), joined("root", "voices"));
    assert!(UserConfig::new().active_project.is_none());
}

#[test]
fn project_ids_parse_like_std() {
    for s in ["0", "42", "-7", "+5", "9223372036854775807", "-9223372036854775808",
        "9223372036854775808", "", "-", "+", "1a", " 1", "00012", "99999999999999999999"] {
        assert_eq!(parse_project_id(s), s.parse::<i64>().ok(), "input {s:?}");
    }
    for v in [0i64, 1, -1, i64::MAX, i64::MIN, 123456] {
        assert_eq!(parse_project_id(&v.to_string()), Some(v));
    }
}

#[test]
fn parsed_terms_round_trip_through_lines() {
    let raw = "  # heading\r\n Silksong \r\n\n\tHornet\t\n#x\nMoss Mother";
    let terms = parse_terms(raw);
    assert_eq!(terms, vec!["Silksong", "Hornet", "Moss Mother"]);
    assert_eq!(parse_terms(&terms.join("\n")), terms);
    assert!(parse_terms(&parse_terms("# only\n\n").join("\n")).is_empty());
}
