use workbuddy_theme_switcher::color::{check_image_size, source_image_extension, MAX_IMAGE_BYTES};
use workbuddy_theme_switcher::monitor::keeper_apply;
use workbuddy_theme_switcher::paths::{deduplicate_paths, normal_path_key};
use workbuddy_theme_switcher::retry::{decide_apply_mode, ApplyMode, ApplyOrigin};
use workbuddy_theme_switcher::session::TrialSession;

const PNG: [u8; 8] = [0x89, b'P', b'N', b'G', 0x0D, 0x0A, 0x1A, 0x0A];

fn s(text: &str) -> String {
    text.to_string()
}

#[test]
fn a_trailing_dot_component_does_not_hide_the_extension() {
    assert_eq!(source_image_extension("x.png/.", &PNG).unwrap(), "png");
    assert_eq!(source_image_extension(r"dir\x.PNG\.\", &PNG).unwrap(), "png");
    assert_eq!(source_image_extension(r"C:\pics\x.png\\", &PNG).unwrap(), "png");
    assert!(source_image_extension("x.png/..", &PNG).is_err());
    assert!(source_image_extension("x.jpg/.", &PNG).is_err());
}

#[test]
fn uploads_must_be_non_empty_and_at_most_ten_megabytes() {
    assert_eq!(MAX_IMAGE_BYTES, 10 * 1024 * 1024);
    assert!(check_image_size(1).is_ok());
    assert!(check_image_size(MAX_IMAGE_BYTES).is_ok());
    assert_eq!(check_image_size(0).unwrap_err().code, "IMAGE_SIZE_INVALID");
    assert_eq!(
        check_image_size(MAX_IMAGE_BYTES + 1).unwrap_err().code,
        "IMAGE_SIZE_INVALID"
    );
}

#[test]
fn paths_that_name_the_same_directory_are_kept_once() {
    let paths = vec![
        s(r"C:\WorkBuddy\"),
        s("c:/WorkBuddy"),
        s(r"C:\.\WorkBuddy"),
        s(r"C:\\WorkBuddy\\"),
        s(r"D:\WorkBuddy"),
        s(r"C:\workbuddy"),
    ];
    assert_eq!(
        deduplicate_paths(paths),
        vec![s(r"C:\WorkBuddy\"), s(r"D:\WorkBuddy"), s(r"C:\workbuddy")]
    );
}

#[test]
fn verbatim_paths_differ_from_plain_ones() {
    assert_eq!(normal_path_key(r"C:\x"), normal_path_key("c:/x/"));
    assert_ne!(normal_path_key(r"\\?\C:\x"), normal_path_key(r"C:\x"));
    assert_eq!(
        deduplicate_paths(vec![s(r"\\?\C:\x"), s(r"\\?\C:\x"), s(r"C:\x")]),
        vec![s(r"\\?\C:\x"), s(r"C:\x")]
    );
}

#[test]
fn the_keeper_asks_for_an_automatic_apply_without_restart() {
    let r = keeper_apply("theme-1");
    assert_eq!(r.theme_id, "theme-1");
    assert!(!r.allow_restart);
    assert_eq!(r.origin, ApplyOrigin::Automatic);
    assert_eq!(
        decide_apply_mode(true, false, r.allow_restart).unwrap_err().code,
        "RESTART_REQUIRED"
    );
    assert_eq!(decide_apply_mode(false, false, r.allow_restart).unwrap(), ApplyMode::Launch);
    assert_eq!(decide_apply_mode(true, true, r.allow_restart).unwrap(), ApplyMode::Attach);
}

#[test]
fn trial_phases_change_only_the_phase() {
    let mut t = TrialSession::preparing(s("trial-1"), s("Dusk"));
    assert_eq!(t.phase, "preparing");
    assert_eq!(t.deadline_ms, 0);
    assert!(t.error.is_none() && t.synced_sequence.is_none() && t.css_hash.is_none());
    t.deadline_ms = 42;
    t.error = Some(s("boom"));
    t.await_recovery();
    assert_eq!(t.phase, "pendingRecovery");
    assert_eq!((t.id.as_str(), t.name.as_str(), t.deadline_ms), ("trial-1", "Dusk", 42));
    assert_eq!(t.error.as_deref(), Some("boom"));
    t.begin_commit();
    assert_eq!(t.phase, "committing");
    assert_eq!(t.deadline_ms, 42);
}
