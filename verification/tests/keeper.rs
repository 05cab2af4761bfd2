use workbuddy_theme_switcher::catalog::{catalog_paths, theme_source, ThemeSource};
use workbuddy_theme_switcher::color::ThemeControls;
use workbuddy_theme_switcher::document::{fusion_copy_position, validate_document, DocumentCheck};
use workbuddy_theme_switcher::error::AppError;
use workbuddy_theme_switcher::monitor::{
    attempt_finished, auto_keep_check, kept_theme, normalized_settings, renderer_step,
    stopped_step, MonitorStep,
};
use workbuddy_theme_switcher::region::{regions, DesignAdvice, RegionStyle, Shadow};
use workbuddy_theme_switcher::retry::RetryControl;
use workbuddy_theme_switcher::session::{
    allow_original_surface, recovery_due, sample_due, trial_baseline, trial_launch_plan,
    TrialLaunch, TrialSession,
};
use workbuddy_theme_switcher::store::{
    design_update_sequence, new_theme_id, pending_save_matches, pinned_save, save_recovery_side,
    save_recovery_write, stale_update, SaveSide, ThemeRecord,
};
use workbuddy_theme_switcher::library::check_theme_id;

fn s(text: &str) -> String {
    text.to_string()
}

#[test]
fn the_keeper_settles_new_renderers_and_stops_after_three_failures() {
    let mut retry = RetryControl::new();
    assert_eq!(renderer_step(&mut retry, "sky", "page-1", false, 1_000), MonitorStep::Settling);
    assert_eq!(retry.next_attempt, Some(5_000));
    assert_eq!(renderer_step(&mut retry, "sky", "page-1", false, 4_999), MonitorStep::Waiting);
    for now in [5_000, 6_000, 8_000] {
        assert_eq!(renderer_step(&mut retry, "sky", "page-1", false, now), MonitorStep::Attempt);
        attempt_finished(&mut retry, Some("CODEDROBE_CDP_TIMEOUT"), now);
    }
    assert_eq!(renderer_step(&mut retry, "sky", "page-1", false, 1_000_000), MonitorStep::Waiting);
    assert_eq!(renderer_step(&mut retry, "sky", "page-1", true, 1_000_000), MonitorStep::Healthy);
    assert_eq!(renderer_step(&mut retry, "sky", "page-2", false, 1_000_000), MonitorStep::Settling);
}

#[test]
fn the_keeper_launches_a_stopped_workbuddy_within_the_policy() {
    let mut retry = RetryControl::new();
    assert_eq!(stopped_step(&mut retry, "sky", 0), MonitorStep::Attempt);
    assert_eq!(retry.key.as_deref(), Some("sky:not-running"));
    attempt_finished(&mut retry, Some("CODEDROBE_NOT_FOUND"), 0);
    assert!(retry.blocked);
    assert_eq!(stopped_step(&mut retry, "sky", 10_000), MonitorStep::Waiting);
    attempt_finished(&mut retry, None, 10_000);
    assert_eq!(stopped_step(&mut retry, "sky", 10_000), MonitorStep::Attempt);
    assert_eq!(kept_theme(Some("sky"), true, true), Some(s("sky")));
    assert_eq!(kept_theme(Some("sky"), true, false), None);
    assert_eq!(kept_theme(None, true, true), None);
}

fn session(phase: &str, error: Option<&str>) -> TrialSession {
    let mut t = TrialSession::live(s("t"), s("n"), 0, 1);
    t.phase = s(phase);
    t.error = error.map(s);
    t
}

#[test]
fn trials_start_only_on_a_known_baseline_and_recover_when_due() {
    assert_eq!(trial_launch_plan(true, true, false).unwrap(), TrialLaunch::Ready);
    assert_eq!(trial_launch_plan(false, false, true).unwrap(), TrialLaunch::Launch);
    assert_eq!(trial_launch_plan(true, false, true).unwrap(), TrialLaunch::Restart);
    assert_eq!(trial_launch_plan(true, false, false).unwrap_err().code, "RESTART_REQUIRED");
    assert_eq!(trial_baseline(Some(0), None).unwrap(), None);
    assert_eq!(trial_baseline(Some(1), Some("ice")).unwrap(), Some(s("ice")));
    assert_eq!(trial_baseline(Some(1), None).unwrap_err().code, "TRIAL_BASELINE_UNKNOWN");
    assert_eq!(trial_baseline(Some(2), Some("ice")).unwrap_err().code, "TRIAL_BASELINE_UNKNOWN");
    assert_eq!(trial_baseline(None, None).unwrap_err().code, "TRIAL_BASELINE_UNKNOWN");
    assert!(allow_original_surface(false, Some("a"), "a"));
    assert!(allow_original_surface(true, Some("a"), "b"));
    assert!(!allow_original_surface(true, Some("a"), "a"));
    assert!(!allow_original_surface(true, None, "a"));
    assert!(!recovery_due(&session("active", None), 0, None, 2_500));
    assert!(recovery_due(&session("active", None), 600_000, None, 2_500));
    assert!(recovery_due(&session("pendingRecovery", None), 0, Some(2_500), 2_500));
    assert!(!recovery_due(&session("pendingRecovery", None), 0, Some(2_499), 2_500));
    assert!(!recovery_due(&session("pendingRecovery", Some("TRIAL_EXTERNAL_CHANGE")), 0, None, 2_500));
    assert!(sample_due(None, 2_500));
    assert!(!sample_due(Some(100), 2_500));
}

#[test]
fn interrupted_saves_recover_the_published_side() {
    assert!(pending_save_matches("d", "d", None, "t").is_ok());
    assert!(pending_save_matches("d", "d", Some("t"), "t").is_ok());
    assert!(pending_save_matches("d", "e", None, "t").is_err());
    assert!(pending_save_matches("d", "d", Some("u"), "t").is_err());
    assert_eq!(save_recovery_side(Some(3), Some(3), Some(2)).unwrap(), SaveSide::After);
    assert_eq!(save_recovery_side(Some(2), Some(3), Some(2)).unwrap(), SaveSide::Before);
    assert_eq!(save_recovery_side(None, Some(1), None).unwrap(), SaveSide::Before);
    assert!(save_recovery_side(Some(4), Some(3), Some(2)).is_err());
    assert_eq!(save_recovery_write(true, false, SaveSide::Before).unwrap(), false);
    assert_eq!(save_recovery_write(true, false, SaveSide::After).unwrap(), true);
    assert_eq!(save_recovery_write(false, true, SaveSide::After).unwrap(), false);
    assert_eq!(save_recovery_write(false, false, SaveSide::After).unwrap_err().code, "THEME_STORE_ERROR");
    let pinned = pinned_save(Some(4), 4, Some("custom-v2-x"), Some(2)).unwrap();
    assert_eq!((pinned.id.as_str(), pinned.revision), ("custom-v2-x", Some(2)));
    assert!(pinned_save(Some(3), 4, Some("custom-v2-x"), Some(2)).is_none());
    assert!(pinned_save(Some(4), 4, None, Some(2)).is_none());
    assert!(stale_update(4, 4));
    assert!(!stale_update(5, 4));
    assert_eq!(design_update_sequence(4, 4).unwrap(), 5);
    assert!(design_update_sequence(5, 4).is_err());
    assert!(check_theme_id(&new_theme_id()).is_ok());
}

fn record(id: &str, package: &str) -> ThemeRecord {
    ThemeRecord {
        id: s(id),
        name: s("Ice"),
        description: s("x"),
        package_path: s(package),
        preview_path: s("themes/ice/preview.png"),
        verified_work_buddy_version: s("5.2.6"),
        theme_version: s("1"),
        runtime_theme_id: s("workbuddy-ice"),
        is_custom: false,
    }
}

#[test]
fn catalog_entries_are_named_and_contained() {
    let themes = vec![record("ice", "themes/ice/theme.codedrobe-theme")];
    assert_eq!(
        catalog_paths(r"D:\app", &themes).unwrap(),
        vec![(
            s(r"D:\app\themes\ice\theme.codedrobe-theme"),
            s(r"D:\app\themes\ice\preview.png")
        )]
    );
    assert!(catalog_paths(r"D:\app", &vec![]).is_err());
    assert!(catalog_paths(r"D:\app", &vec![record("  ", "a")]).is_err());
    assert_eq!(
        catalog_paths(r"D:\app", &vec![record("ice", "../x")]).unwrap_err().code,
        "THEME_CATALOG_FAILED"
    );
    assert_eq!(theme_source("trial-1"), ThemeSource::Trial);
    assert_eq!(theme_source("custom-v2-1"), ThemeSource::Library);
    assert_eq!(theme_source("ice-blue"), ThemeSource::Catalog);
}

fn style() -> RegionStyle {
    RegionStyle {
        background: s("#AABBCC"),
        text: s("#000000"),
        muted: s("#333333"),
        border: s("#CCCCCC"),
        hover: s("#EEEEEE"),
        selected: s("#DDDDDD"),
        focus_ring: s("#336699"),
        opacity: 88,
        shadow: Shadow::Raised,
    }
}

fn design() -> DesignAdvice {
    DesignAdvice {
        regions: regions().into_iter().map(|r| (r, style())).collect(),
        background_x: 50,
        background_y: 40,
        veil: 8,
        explanation: s("x"),
    }
}

fn document() -> DocumentCheck {
    DocumentCheck {
        schema_version: 2,
        style_check: Ok(()),
        draft_id: s("0123456789abcdef0123456789abcdef"),
        asset_id: s("fedcba9876543210fedcba9876543210"),
        name: s("我的图片主题"),
        controls: ThemeControls::default(),
        design: Some(design()),
        background_samples: vec![s("#112233")],
        theme_id: None,
        background: s("#112233"),
        extracted_accent: s("#445566"),
        css: s("body{color:red}"),
    }
}

#[test]
fn documents_are_validated_before_use() {
    assert!(validate_document(&document()).is_ok());
    let mut d = document();
    d.schema_version = 4;
    assert_eq!(validate_document(&d).unwrap_err().code, "THEME_STORE_ERROR");
    let mut d = document();
    d.schema_version = 3;
    d.style_check = Err(AppError::new("STYLE_VERSION_UNSUPPORTED", "x"));
    assert_eq!(validate_document(&d).unwrap_err().code, "STYLE_VERSION_UNSUPPORTED");
    let mut d = document();
    d.controls.blur = 30;
    assert_eq!(validate_document(&d).unwrap_err().code, "CUSTOM_THEME_CONTROLS_INVALID");
    let mut d = document();
    d.design = None;
    assert_eq!(validate_document(&d).unwrap_err().code, "THEME_STORE_ERROR");
    let mut d = document();
    d.schema_version = 1;
    d.design = None;
    assert!(validate_document(&d).is_ok());
    let mut d = document();
    d.design.as_mut().unwrap().veil = 90;
    assert_eq!(validate_document(&d).unwrap_err().code, "DESIGN_INVALID");
    let mut d = document();
    d.css = s("body{background:url(https://x)}");
    assert!(validate_document(&d).is_err());
    let mut d = document();
    d.css = s("</style><script>");
    assert!(validate_document(&d).is_err());
    let mut d = document();
    d.background_samples = vec![s("#112233"); 257];
    assert!(validate_document(&d).is_err());
    let mut d = document();
    d.theme_id = Some(s("custom-v2-../x"));
    assert!(validate_document(&d).is_err());
    let (position, moved) = fusion_copy_position(Some(design()));
    assert_eq!(position.unwrap().veil, 0);
    assert!(moved);
    assert!(!fusion_copy_position(None).1);
}

#[test]
fn keeping_needs_a_selected_theme() {
    assert_eq!(normalized_settings(9336, true, true), (19336, true));
    assert_eq!(normalized_settings(0, true, true), (19336, true));
    assert_eq!(normalized_settings(9400, false, true), (9400, false));
    assert_eq!(normalized_settings(9400, true, false), (9400, false));
    assert!(auto_keep_check(true, true, true).is_ok());
    assert!(auto_keep_check(false, false, false).is_ok());
    assert_eq!(auto_keep_check(true, false, true).unwrap_err().code, "THEME_NOT_SELECTED");
    assert_eq!(auto_keep_check(true, true, false).unwrap_err().code, "THEME_NOT_SELECTED");
}
