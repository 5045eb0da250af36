use episode_transcribe::label::{
    chosen_color, chosen_name, count_labeled, label_action, label_targets, suggested_color,
    LabelAction,
};
use episode_transcribe::profiles::{
    ass_style_name, clip_entry, clip_file_name, hex_color_is_sliceable, hex_to_ass_primary,
    profile_list_line, BuildState, ProfileError, ProfileStore, VoiceProfile,
    DEFAULT_MATCH_THRESHOLD_BITS, MAX_EMBEDDINGS_PER_PROFILE,
};
use episode_transcribe::review::render_review_html;

fn palette(i: usize, t: usize) -> String {
    format!("#{:02}{:02}00", i, t)
}

fn profile(id: &str, name: Option<&str>, color: &str, labeled: bool) -> VoiceProfile {
    VoiceProfile {
        id: id.to_string(),
        name: name.map(|n| n.to_string()),
        color: color.to_string(),
        labeled,
        embeddings: vec![],
        clips: vec![],
    }
}

#[test]
fn profile_color_helpers() {
    assert_eq!(hex_to_ass_primary("#FF0000"), "&H000000FF");
    assert_eq!(hex_to_ass_primary("bad"), "&H00FFFFFF");
    assert_eq!(ass_style_name("Player One!"), "Player_One_");
}

#[test]
fn hex_channels_swap_and_fall_back() {
    assert_eq!(hex_to_ass_primary("#123456"), "&H00563412");
    assert_eq!(hex_to_ass_primary("##abcdef"), "&H00EFCDAB");
    assert_eq!(hex_to_ass_primary("zz0000"), "&H000000FF");
    assert_eq!(hex_to_ass_primary("+1+2+3"), "&H00030201");
    assert_eq!(hex_to_ass_primary("#12345"), "&H00FFFFFF");
    assert!(hex_color_is_sliceable("#é1234"));
    assert!(!hex_color_is_sliceable("aébcd"));
}

#[test]
fn style_names_keep_alphanumerics() {
    assert_eq!(ass_style_name("Ærin_2"), "Ærin_2");
    assert_eq!(ass_style_name("a-b c"), "a_b_c");
    let once = ass_style_name("x y!");
    assert_eq!(ass_style_name(&once), once);
}

#[test]
fn store_roundtrip_and_helpers() {
    let mut store = ProfileStore::empty_store();
    assert!(store.profiles.is_empty());
    assert_eq!(store.default_speaker, "DM");
    assert_eq!(store.match_threshold_bits, DEFAULT_MATCH_THRESHOLD_BITS);
    assert_eq!(f32::from_bits(DEFAULT_MATCH_THRESHOLD_BITS), 0.55f32);
    let id = store.create_profile(vec![0.1f32.to_bits(); 8], 0, 4, palette);
    store.add_embedding(&id, vec![0.2f32.to_bits(); 8]);
    for _ in 0..MAX_EMBEDDINGS_PER_PROFILE {
        store.add_embedding(&id, vec![0.3f32.to_bits(); 8]);
    }
    assert_eq!(store.profiles.len(), 1);
    assert_eq!(store.profiles[0].embeddings.len(), MAX_EMBEDDINGS_PER_PROFILE);
    assert!(store.find_profile("missing").is_none());
    let p = &store.profiles[0];
    assert_eq!(store.display_name(p), id);
    assert!(store.style_for_speaker(&id).is_some());
}

#[test]
fn create_profile_ids_and_colors() {
    let mut store = ProfileStore::empty_store();
    assert_eq!(store.next_profile_id(), "profile_00");
    let a = store.create_profile(vec![1], 3, 2, palette);
    assert_eq!(a, "profile_00");
    assert_eq!(store.profiles[0].color, "#030800");
    let b = store.create_profile(vec![2], 0, 12, palette);
    assert_eq!(b, "profile_01");
    assert_eq!(store.profiles[1].color, "#011200");
    assert!(!store.profiles[1].labeled);
    assert!(store.profiles[1].name.is_none());
    for _ in 0..10 {
        store.create_profile(vec![3], 0, 0, palette);
    }
    assert_eq!(store.next_profile_id(), "profile_12");
}

#[test]
fn run_label_unknown_id_errors() {
    let mut store = ProfileStore::empty_store();
    assert!(store.apply_label("nope", "x", None, palette).is_err());
}

#[test]
fn run_list_label_review() {
    let mut store = ProfileStore::empty_store();
    store.profiles.push(profile("profile_00", None, "", false));
    let color = store.apply_label("profile_00", "Alice", Some("#AABBCC"), palette).ok().unwrap();
    assert_eq!(color, "#AABBCC");
    assert_eq!(store.profiles[0].name.as_deref(), Some("Alice"));
    assert!(store.profiles[0].labeled);
    let html = render_review_html(&store);
    assert!(html.contains("Alice"));
    assert_eq!(
        profile_list_line(&store.profiles[0]),
        "profile_00  labeled=true  color=#AABBCC  name=Alice  embeddings=0  clips=[]"
    );
}

#[test]
fn label_without_color_uses_palette_only_when_empty() {
    let mut store = ProfileStore::empty_store();
    store.profiles.push(profile("a", None, "", false));
    store.profiles.push(profile("b", None, "#010203", false));
    assert_eq!(store.apply_label("a", "Ann", None, palette).ok().unwrap(), "#000200");
    assert_eq!(store.apply_label("b", "Bo", None, palette).ok().unwrap(), "#010203");
    match store.apply_label("c", "C", None, palette) {
        Err(ProfileError::UnknownProfile(id)) => assert_eq!(id, "c"),
        Ok(_) => panic!("labelled an unknown profile"),
    }
    assert_eq!(store.style_for_speaker("Ann").unwrap().id, "a");
}

#[test]
fn style_for_speaker_prefers_names_then_unlabeled_ids() {
    let store = ProfileStore {
        default_speaker: "DM".into(),
        match_threshold_bits: 0,
        profiles: vec![
            profile("x", None, "", true),
            profile("y", Some("x"), "", true),
            profile("z", None, "", false),
        ],
    };
    assert_eq!(store.style_for_speaker("x").unwrap().id, "y");
    assert_eq!(store.style_for_speaker("z").unwrap().id, "z");
    assert!(store.style_for_speaker("q").is_none());
}

#[test]
fn build_state_roundtrip() {
    let mut state = BuildState::new();
    assert!(state.should_profile("ep1", false));
    state.mark_completed("ep1");
    assert_eq!(state.completed_episodes, vec!["ep1"]);
    assert!(state.is_completed("ep1"));
    assert!(!state.should_profile("ep1", false));
    assert!(state.should_profile("ep1", true));
    assert!(state.should_profile("ep2", false));
}

#[test]
fn clip_names() {
    assert_eq!(clip_file_name("profile_03", 0), "profile_03_01.wav");
    assert_eq!(clip_file_name("p", 11), "p_12.wav");
    assert_eq!(clip_entry("p_12.wav"), "clips/p_12.wav");
}

#[test]
fn write_html_with_and_without_clips() {
    let store = ProfileStore {
        default_speaker: "DM".into(),
        match_threshold_bits: 0.5f32.to_bits(),
        profiles: vec![
            profile("p0", None, "#000000", false),
            VoiceProfile {
                id: "p1".into(),
                name: Some("Named".into()),
                color: "#FFFFFF".into(),
                labeled: true,
                embeddings: vec![vec![0; 4]],
                clips: vec!["clips/p1_01.wav".into()],
            },
        ],
    };
    let html = render_review_html(&store);
    assert!(html.starts_with("<!DOCTYPE html>\n"));
    assert!(html.ends_with("</body></html>\n"));
    assert!(html.contains("<p><em>No clips exported yet.</em></p>"));
    assert!(html.contains("<audio controls preload=\"none\" src=\"clips/p1_01.wav\"></audio>"));
    assert!(html.contains("_unlabeled_ <small>(p0)</small>"));
    assert!(html.contains("<p>labeled=true · embeddings=1 · color=#FFFFFF</p>"));
}

#[test]
fn label_session_decisions() {
    let store = ProfileStore {
        default_speaker: "DM".into(),
        match_threshold_bits: 0,
        profiles: vec![
            profile("p0", Some("Done"), "#000000", true),
            profile("p1", None, "", false),
            profile("p2", None, "#123456", false),
        ],
    };
    assert_eq!(label_targets(&store, None).ok().unwrap(), vec![1, 2]);
    assert_eq!(label_targets(&store, Some("p0")).ok().unwrap(), vec![0]);
    assert!(label_targets(&store, Some("nope")).is_err());
    assert_eq!(count_labeled(&store), 1);
    assert_eq!(suggested_color(&store, 1, palette), "#010300");
    assert_eq!(suggested_color(&store, 2, palette), "#123456");
    assert!(matches!(label_action("  Q "), LabelAction::Quit));
    assert!(matches!(label_action("quit"), LabelAction::Quit));
    assert!(matches!(label_action("SKIP"), LabelAction::Skip));
    assert!(matches!(label_action("s"), LabelAction::Skip));
    assert!(matches!(label_action(""), LabelAction::Label));
    assert_eq!(chosen_name("  Bob "), Some("Bob".to_string()));
    assert_eq!(chosen_name("   "), None);
    assert_eq!(chosen_color(" ", "#111111"), "#111111");
    assert_eq!(chosen_color(" #222222 ", "#111111"), "#222222");
}

#[test]
fn all_labeled_reports_done() {
    let mut store = ProfileStore::empty_store();
    store.profiles.push(profile("profile_00", Some("Done"), "#000000", true));
    assert!(label_targets(&store, None).ok().unwrap().is_empty());
    assert_eq!(count_labeled(&store), 1);
}
