use workbuddy_theme_switcher::compiler::{repair_draft_background, DraftStyle};
use workbuddy_theme_switcher::edit::{
    changed_regions, default_veil, edit_style, position_override, StyleChoice, StyleName,
};
use workbuddy_theme_switcher::library::{
    check_theme_id, reference_from_runtime, runtime_id, validate_name, ThemeRef,
};
use workbuddy_theme_switcher::order::sort_order;
use workbuddy_theme_switcher::region::{
    fusion_key, fusion_selector, label, regions, validate, validate_dimensions, DesignAdvice,
    Region, RegionStyle, Shadow,
};
use workbuddy_theme_switcher::session::{
    close_guard, is_live, job_checkpoint, known_healthy, live_trial_check, manual_recovery_check,
    recovery_surface_is_known, sync_check, sync_unchanged, validate_capture_binding,
    DraftBinding, FrameBinding, TrialSession, WindowGate,
};
use workbuddy_theme_switcher::store::{
    choose_revision, deletion_check, fresh_resource_id, published_revision_check, trial_record,
    ListedTheme, ThemeStore,
};

fn s(text: &str) -> String {
    text.to_string()
}

const ID: &str = "custom-v2-0123456789abcdef0123456789abcdef";

#[test]
fn queued_trial_start_cannot_reopen_after_window_close() {
    let mut studio = WindowGate::new();
    let before_close = studio.start_epoch();
    studio.mark_closed();
    assert!(studio.begin_start(before_close).is_err());
    assert!(studio.close_requested);
    let new_command = studio.start_epoch();
    studio.begin_start(new_command).unwrap();
    assert!(!studio.close_requested);
}

#[test]
fn recovery_never_overwrites_unknown_css_or_same_renderer_external_restore() {
    let known: Vec<(String, String)> = vec![
        (s("trial"), s("old")),
        (s("trial"), s("new")),
        (s("previous"), s("baseline")),
        (s("committed"), s("saved")),
    ];
    for (id, hash) in &known {
        assert!(recovery_surface_is_known(1, Some(id), Some(hash), &known, false));
    }
    assert!(!recovery_surface_is_known(1, Some("trial"), Some("external"), &known, false));
    assert!(!recovery_surface_is_known(0, None, None, &known, false));
    assert!(recovery_surface_is_known(0, None, None, &known, true));
    assert!(!recovery_surface_is_known(2, Some("trial"), Some("new"), &known, true));
}

#[test]
fn close_guard_never_reactivates_a_cloned_start_or_renewal() {
    let mut live = TrialSession::live(s("trial"), s("fixture"), 1000, 0);
    assert!(!close_guard(&mut live, false));
    live.renew(2000).unwrap();
    assert!(close_guard(&mut live, true));
    assert_eq!(live.phase, "pendingRecovery");
    assert_eq!(live.error.as_deref(), Some("TRIAL_WINDOW_CLOSED"));
    assert!(live.renew(3000).is_err());
    assert!(!close_guard(&mut live, true));
}

#[test]
fn live_trial_renewal_adds_ten_minutes_but_never_revives_expired_session() {
    let mut trial = TrialSession::live(s("test"), s("主题"), 1000, 7);
    assert_eq!(trial.deadline_ms, 601000);
    trial.renew(2000).unwrap();
    assert_eq!(trial.deadline_ms, 1201000);
    assert!(trial.renew(1201000).is_err());
    assert_eq!(trial.synced_sequence, Some(7));
    assert_eq!(trial.renew(1201000).unwrap_err().code, "TRIAL_EXPIRED");
}

#[test]
fn cancelled_or_overdue_jobs_cannot_publish() {
    assert!(job_checkpoint(false, 0, 20_000).is_ok());
    assert_eq!(job_checkpoint(false, 21_000, 20_000).unwrap_err().code, "TASK_TIMEOUT");
    assert_eq!(job_checkpoint(true, 0, 20_000).unwrap_err().code, "TASK_CANCELLED");
    assert_eq!(job_checkpoint(true, 21_000, 20_000).unwrap_err().code, "TASK_CANCELLED");
}

#[test]
fn references_pin_saved_revisions() {
    let old = ThemeRef::parse(&format!("{ID}@1")).unwrap();
    let new = ThemeRef::parse(&format!("{ID}@2")).unwrap();
    assert_ne!(old.key(), new.key());
    let back = reference_from_runtime(&runtime_id(&old)).unwrap();
    assert_eq!((back.id.as_str(), back.revision), (old.id.as_str(), old.revision));
    assert!(ThemeRef::parse("custom-v2-../evil@1").is_err());
}

#[test]
fn references_refuse_zero_and_malformed_revisions() {
    assert!(ThemeRef::parse(&format!("{ID}@0")).is_err());
    assert!(ThemeRef::parse(&format!("{ID}@x")).is_err());
    assert!(ThemeRef::parse(&format!("{ID}@4294967296")).is_err());
    let plain = ThemeRef::parse("ice-blue").unwrap();
    assert_eq!((plain.id.as_str(), plain.revision), ("ice-blue", None));
    assert_eq!(runtime_id(&plain), "workbuddy-ice-blue-r0");
    assert!(reference_from_runtime("workbuddy-ice-blue-r0").is_none());
    assert!(check_theme_id(ID).is_ok());
    assert_eq!(validate_name("  新名称 ").unwrap(), "新名称");
    assert!(validate_name("   ").is_err());
    assert!(validate_name(&"x".repeat(49)).is_err());
}

fn trial(now: i64) -> TrialSession {
    let mut session = TrialSession::live(s("trial"), s("fixture"), now, 5);
    session.css_hash = Some(s("h"));
    session
}

fn frame() -> FrameBinding {
    FrameBinding {
        trial_id: s("trial"),
        draft_id: s("draft"),
        sequence: 5,
        css_hash: s("h"),
        target_id: s("renderer"),
    }
}

fn draft() -> Option<DraftBinding> {
    Some(DraftBinding { draft_id: s("draft"), edit_sequence: 5, css_hash: s("h") })
}

#[test]
fn late_capture_cannot_publish_after_sync_rollback_or_renderer_change() {
    let target = Some(s("renderer"));
    let session = trial(1000);
    assert!(validate_capture_binding(&session, &target, &draft(), &frame(), 1001).is_ok());
    let mut changed = trial(1000);
    changed.synced_sequence = None;
    assert!(validate_capture_binding(&changed, &target, &draft(), &frame(), 1001).is_err());
    let moved = Some(DraftBinding { draft_id: s("draft"), edit_sequence: 6, css_hash: s("h") });
    assert!(validate_capture_binding(&session, &target, &moved, &frame(), 1001).is_err());
    let mut closed = trial(1000);
    closed.phase = s("pendingRecovery");
    assert!(validate_capture_binding(&closed, &target, &draft(), &frame(), 1001).is_err());
    let other = Some(s("new-renderer"));
    assert!(validate_capture_binding(&session, &other, &draft(), &frame(), 1001).is_err());
    let restyled = Some(DraftBinding { draft_id: s("draft"), edit_sequence: 5, css_hash: s("h2") });
    assert!(validate_capture_binding(&session, &target, &restyled, &frame(), 1001).is_err());
    assert_eq!(
        validate_capture_binding(&session, &target, &draft(), &frame(), session.deadline_ms)
            .unwrap_err()
            .code,
        "CAPTURE_CHANGED"
    );
    assert!(validate_capture_binding(&session, &target, &None, &frame(), 1001).is_err());
}

#[test]
fn only_a_fresh_single_node_sample_counts_as_healthy() {
    assert!(known_healthy(true, true, Some(1), Some("k"), "k"));
    assert!(!known_healthy(false, true, Some(1), Some("k"), "k"));
    assert!(!known_healthy(true, true, Some(2), Some("k"), "k"));
    assert!(!known_healthy(true, true, Some(1), Some("j"), "k"));
    assert!(!known_healthy(true, false, Some(1), Some("k"), "k"));
}

#[test]
fn library_paths_are_derived_from_validated_identifiers() {
    let store = ThemeStore::production(r"C:\Users\u\AppData\Local\WorkBuddyThemeSwitcher");
    assert_eq!(store.root, r"C:\Users\u\AppData\Local\WorkBuddyThemeSwitcher\studio");
    let asset = "0123456789abcdef0123456789abcdef";
    assert_eq!(
        store.asset_file(asset, "hero.jpg").unwrap(),
        format!(r"{}\assets\{asset}\hero.jpg", store.root)
    );
    assert!(store.asset_file(asset, "../state.json").is_err());
    assert!(store.asset_file("../outside", "hero.jpg").is_err());
    let reference = ThemeRef { id: s(ID), revision: Some(12) };
    assert_eq!(
        store.revision_dir(&reference).unwrap(),
        format!(r"{}\library\{ID}\r12", store.root)
    );
    assert!(store.revision_dir(&ThemeRef { id: s(ID), revision: None }).is_err());
    assert!(store.revision_dir(&ThemeRef { id: s(ID), revision: Some(0) }).is_err());
    assert_eq!(store.draft_path(asset).unwrap(), format!(r"{}\drafts\{asset}.json", store.root));
    assert!(store.draft_path("../state").is_err());
    assert_eq!(
        store.pending_save_path(asset).unwrap(),
        format!(r"{}\save-transactions\{asset}.json", store.root)
    );
    assert_eq!(store.head_path(ID).unwrap(), format!(r"{}\library\{ID}\head.json", store.root));
}

#[test]
fn records_describe_a_pinned_revision() {
    let store = ThemeStore { root: s(r"D:\studio") };
    let asset = "0123456789abcdef0123456789abcdef";
    let reference = ThemeRef { id: s(ID), revision: Some(3) };
    let record = store.record(&reference, s("我的图片主题"), asset).unwrap();
    assert_eq!(record.id, format!("{ID}@3"));
    assert_eq!(record.name, "我的图片主题");
    assert_eq!(record.package_path, format!(r"D:\studio\library\{ID}\r3\theme.codedrobe-theme"));
    assert_eq!(record.preview_path, format!(r"D:\studio\assets\{asset}\hero.jpg"));
    assert_eq!(record.theme_version, "1.4.0-r3");
    assert_eq!(record.runtime_theme_id, format!("workbuddy-{ID}-r3"));
    assert!(record.is_custom);
}

#[test]
fn trash_moves_a_theme_to_a_fresh_name() {
    let store = ThemeStore { root: s(r"D:\studio") };
    let (source, trash, destination) = store.trash(ID).unwrap();
    assert_eq!(source, format!(r"D:\studio\library\{ID}"));
    assert_eq!(trash, r"D:\studio\trash");
    let prefix = format!(r"D:\studio\trash\{ID}-");
    assert!(destination.starts_with(&prefix));
    assert_eq!(destination.len(), prefix.len() + 32);
    assert!(store.trash("../state").is_err());
    let (_, _, again) = store.trash(ID).unwrap();
    assert_ne!(destination, again);
}

#[test]
fn renaming_validates_and_advances_the_sequence() {
    let store = ThemeStore { root: s(r"D:\studio") };
    assert_eq!(store.rename(" 新名称 ", 4).unwrap(), (s("新名称"), 5));
    assert!(store.rename("", 4).is_err());
    assert!(store.rename("ok", u64::MAX).is_err());
}

#[test]
fn revisions_are_never_reused() {
    assert_eq!(choose_revision(0, &[]).unwrap(), 1);
    assert_eq!(choose_revision(3, &[4, 5, 7]).unwrap(), 6);
    assert!(choose_revision(u32::MAX, &[]).is_err());
    assert!(choose_revision(u32::MAX - 1, &[u32::MAX]).is_err());
    assert_eq!(published_revision_check(Some(2), Some(3), false).unwrap(), 2);
    assert!(published_revision_check(Some(2), Some(3), true).is_err());
    assert_eq!(published_revision_check(Some(3), Some(3), true).unwrap(), 3);
    assert!(published_revision_check(Some(4), Some(3), false).is_err());
    assert!(published_revision_check(None, Some(3), false).is_err());
    assert!(published_revision_check(Some(1), None, false).is_err());
}

#[test]
fn fresh_identifiers_are_lowercase_hex() {
    let id = fresh_resource_id();
    assert_eq!(id.len(), 32);
    assert!(id.chars().all(|c| c.is_ascii_digit() || ('a'..='f').contains(&c)));
    assert_ne!(id, fresh_resource_id());
}

fn listed(id: &str, revision: u32, name: &str) -> ListedTheme {
    ListedTheme {
        id: s(id),
        revision,
        name: s(name),
        asset_id: s("0123456789abcdef0123456789abcdef"),
    }
}

#[test]
fn the_library_lists_valid_themes_in_name_order() {
    let store = ThemeStore { root: s(r"D:\studio") };
    let other = "custom-v2-ffffffffffffffffffffffffffffffff";
    let found = vec![
        listed(ID, 2, "b"),
        listed("not-a-theme", 1, "a"),
        listed(other, 1, "a"),
        listed(ID, 3, "b"),
    ];
    let items = store.list(&found).unwrap();
    let seen: Vec<(String, Option<u32>)> =
        items.iter().map(|i| (i.name.clone(), i.reference.revision)).collect();
    assert_eq!(seen, vec![(s("a"), Some(1)), (s("b"), Some(2)), (s("b"), Some(3))]);
    assert_eq!(items[0].reference.id, other);
    assert_eq!(items[0].description, "图片主题 · 可继续编辑");
    let mut broken = listed(ID, 1, "c");
    broken.asset_id = s("../x");
    assert!(store.list(&vec![broken]).is_err());
    let names = vec![vec!['b'], vec!['a', 'b'], vec!['a'], vec!['b']];
    assert_eq!(sort_order(&names), vec![2, 1, 0, 3]);
}

fn style(background: &str) -> RegionStyle {
    RegionStyle {
        background: s(background),
        text: s("#000000"),
        muted: s("#333333"),
        border: s("#CCCCCC"),
        hover: s("#EEEEEE"),
        selected: s("#DDDDDD"),
        focus_ring: s("#336699"),
        opacity: 88,
        shadow: Shadow::Flat,
    }
}

fn design() -> DesignAdvice {
    DesignAdvice {
        regions: regions().into_iter().map(|r| (r, style("#AABBCC"))).collect(),
        background_x: 50,
        background_y: 50,
        veil: 8,
        explanation: s("本地分区方案"),
    }
}

#[test]
fn regional_designs_are_bounded() {
    assert!(validate(&design()).is_ok());
    let mut bad = design();
    bad.regions[3].1.background = s("url(https://bad)");
    assert_eq!(validate(&bad).unwrap_err().code, "DESIGN_INVALID");
    let mut missing = design();
    missing.regions.pop();
    assert!(validate(&missing).is_err());
    let mut repeated = design();
    repeated.regions[0].0 = Region::Main;
    assert!(validate(&repeated).is_err());
    let mut veiled = design();
    veiled.veil = 81;
    assert!(validate(&veiled).is_err());
    let mut opaque = design();
    opaque.regions[0].1.opacity = 101;
    assert!(validate(&opaque).is_err());
    let mut long = design();
    long.explanation = "说".repeat(801);
    assert!(validate(&long).is_err());
}

#[test]
fn regions_have_fixed_selectors_and_labels() {
    assert_eq!(Region::Sidebar.selector(), ".conversation-sidebar");
    assert_eq!(fusion_selector(Region::Main), ".teams-content-wrapper");
    assert_eq!(fusion_selector(Region::Dialog), Region::Dialog.selector());
    assert_eq!(label(Region::Main), "主背景");
    assert_eq!(fusion_key(Region::AssistantMessage), "assistant");
    assert!(validate_dimensions(64, 64).is_ok());
    assert!(validate_dimensions(63, 640).is_err());
    assert!(validate_dimensions(8000, 5001).is_err());
}

#[test]
fn old_offline_drafts_get_one_background_repair() {
    let patch = "/* background compat */";
    let mut doc = DraftStyle {
        schema_version: 3,
        template_version: s("workbuddy-5.2.6-offline-v3.1"),
        css: s(".workbuddy-topbar,#workbuddy-menubar-container,.wb-home-page{a}.workbuddy-topbar,#workbuddy-menubar-container,.wb-home-page{b}"),
        corrections: vec![],
        edit_sequence: 4,
        saved_sequence: Some(4),
    };
    assert!(repair_draft_background(&mut doc, patch).unwrap());
    assert_eq!(
        doc.css,
        ".workbuddy-topbar,:where(#workbuddy-menubar-container),.wb-home-page{a}.workbuddy-topbar,:where(#workbuddy-menubar-container),.wb-home-page{b}/* background compat */"
    );
    assert_eq!(doc.template_version, "workbuddy-5.2.6-offline-v3.2");
    assert_eq!((doc.edit_sequence, doc.saved_sequence), (5, None));
    assert_eq!(doc.corrections.len(), 1);
    assert!(!repair_draft_background(&mut doc, patch).unwrap());
    assert_eq!(doc.edit_sequence, 5);
}

fn choice(id: StyleName, version: u32) -> StyleChoice {
    StyleChoice { id, version }
}

#[test]
fn edits_switch_style_only_within_one_profile_version() {
    let airy = choice(StyleName::AiryLight, 2);
    let dark = choice(StyleName::CalmDark, 2);
    assert_eq!(edit_style(Some(airy), Some(airy), false).unwrap(), None);
    assert_eq!(edit_style(Some(airy), None, false).unwrap(), None);
    assert_eq!(edit_style(Some(airy), Some(dark), false).unwrap(), Some(dark));
    assert_eq!(edit_style(Some(airy), None, true).unwrap(), Some(airy));
    assert_eq!(edit_style(None, Some(dark), false).unwrap(), Some(dark));
    let old = choice(StyleName::CalmDark, 1);
    assert_eq!(
        edit_style(Some(old), Some(dark), false).unwrap_err().code,
        "STYLE_COPY_REQUIRED"
    );
    assert_eq!(edit_style(None, None, true).unwrap_err().code, "STYLE_REQUIRED");
}

#[test]
fn each_style_starts_from_its_own_veil() {
    assert_eq!(default_veil(choice(StyleName::WarmPaper, 2)), 0);
    assert_eq!(default_veil(choice(StyleName::CalmDark, 1)), 12);
    assert_eq!(default_veil(choice(StyleName::AiryLight, 1)), 8);
    let v1 = choice(StyleName::AiryLight, 1);
    assert!(!position_override(v1, 50, 50, 8));
    assert!(position_override(v1, 50, 50, 12));
    assert!(position_override(v1, 49, 50, 8));
    assert!(position_override(choice(StyleName::CalmDark, 2), 50, 51, 0));
}

#[test]
fn only_restyled_regions_become_manual_choices() {
    let before = design();
    let mut edited = design();
    assert!(changed_regions(&Some(design()), &edited).is_empty());
    edited.regions[2].1.opacity = 40;
    edited.regions[5].1.shadow = Shadow::Raised;
    let changed = changed_regions(&Some(before), &edited);
    assert_eq!(changed.len(), 2);
    assert_eq!(changed[0].0, edited.regions[2].0);
    assert_eq!(changed[0].1.opacity, 40);
    assert_eq!(changed[1].0, edited.regions[5].0);
    assert_eq!(changed[1].1.shadow, Shadow::Raised);
    assert_eq!(changed_regions(&None, &edited).len(), 9);
}

#[test]
fn themes_in_use_cannot_be_deleted() {
    let pinned = format!("{ID}@3");
    let other = "custom-v2-fedcba9876543210fedcba9876543210";
    assert_eq!(deletion_check(ID, Some(&pinned), None).unwrap_err().code, "THEME_ACTIVE");
    assert_eq!(deletion_check(ID, None, Some(ID)).unwrap_err().code, "THEME_ACTIVE");
    assert!(deletion_check(ID, Some(other), Some("builtin-ocean")).is_ok());
    assert!(deletion_check(ID, Some(&format!("{ID}@0")), None).is_ok());
    assert!(deletion_check(ID, None, None).is_ok());
}

#[test]
fn trial_commands_reach_only_the_live_trial_they_name() {
    let live = Some(trial(1_000));
    assert!(is_live(live.as_ref().unwrap(), 1_000));
    assert!(live_trial_check(&live, "trial", 2_000, false).is_ok());
    assert_eq!(live_trial_check(&live, "trial", 2_000, true).unwrap_err().code, "TRIAL_WINDOW_CLOSED");
    assert_eq!(live_trial_check(&live, "other", 2_000, false).unwrap_err().code, "TRIAL_EXPIRED");
    assert_eq!(
        live_trial_check(&live, "trial", 1_000 + 600_000, false).unwrap_err().code,
        "TRIAL_EXPIRED"
    );
    assert_eq!(live_trial_check(&None, "trial", 2_000, false).unwrap_err().code, "TRIAL_EXPIRED");
    let mut ended = trial(1_000);
    assert!(close_guard(&mut ended, true));
    assert!(!is_live(&ended, 1_500));
    assert_eq!(live_trial_check(&Some(ended), "trial", 1_500, false).unwrap_err().code, "TRIAL_EXPIRED");
}

#[test]
fn only_the_latest_edit_of_the_same_image_syncs() {
    assert!(sync_check(7, 7, 5, true).is_ok());
    assert!(sync_check(5, 5, 5, true).is_ok());
    assert_eq!(sync_check(8, 7, 5, true).unwrap_err().code, "TRIAL_STALE_UPDATE");
    assert_eq!(sync_check(4, 4, 5, true).unwrap_err().code, "TRIAL_STALE_UPDATE");
    assert_eq!(sync_check(7, 7, 5, false).unwrap_err().code, "TRIAL_IMAGE_CHANGED");
    assert!(sync_unchanged(Some(7), 7, true));
    assert!(!sync_unchanged(Some(7), 7, false));
    assert!(!sync_unchanged(Some(6), 7, true));
    assert!(!sync_unchanged(None, 7, true));
}

#[test]
fn stopped_recoveries_are_resolved_only_when_needed() {
    assert_eq!(manual_recovery_check(false, false, true).unwrap_err().code, "RECOVERY_NOT_REQUIRED");
    assert_eq!(manual_recovery_check(false, true, false).unwrap_err().code, "RECOVERY_TARGET_UNKNOWN");
    assert!(manual_recovery_check(false, true, true).is_ok());
    assert!(manual_recovery_check(true, false, false).is_ok());
    assert!(manual_recovery_check(true, false, true).is_ok());
}

#[test]
fn trials_use_a_confined_temporary_package() {
    let store = ThemeStore { root: s(r"D:\studio") };
    let id = "0123456789abcdef0123456789abcdef";
    let package = store.trial_package(id).unwrap();
    assert_eq!(package, format!(r"D:\studio\trials\{id}\theme.codedrobe-theme"));
    assert!(store.trial_package("../escape").is_err());
    let record = trial_record(id, s("夜色"), package.clone(), s(r"D:\studio\assets\a\hero.jpg"));
    assert_eq!(record.id, format!("trial-{id}"));
    assert_eq!(record.runtime_theme_id, format!("workbuddy-trial-{id}"));
    assert_eq!(record.name, "夜色");
    assert_eq!(record.description, "临时试用");
    assert_eq!(record.package_path, package);
    assert_eq!(record.verified_work_buddy_version, "运行时验证");
    assert_eq!(record.theme_version, "1.4.0");
    assert!(record.is_custom);
}
