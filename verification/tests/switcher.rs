use workbuddy_theme_switcher::base64::{base64_decode, base64_encode};
use workbuddy_theme_switcher::color::{
    adjust_brightness, parse_hex_color, source_image_extension, validate_controls, RgbColor,
    ThemeControls,
};
use workbuddy_theme_switcher::json::JsonValue;
use workbuddy_theme_switcher::paths::{
    apply_args,
    bundled_runtime_candidates, child_process_path, compatible_cdp_port, custom_theme_directory,
    deduplicate_paths, drive_root_workbuddy_candidates, is_safe_custom_theme_id,
    resolve_resource_path, restore_args, theme_probe_args, verify_args, DEFAULT_CDP_PORT,
    LEGACY_CDP_PORT,
};
use workbuddy_theme_switcher::retry::{
    action_for, decide_apply_mode, update_monitor, update_monitor_with_time, ApplyMode,
    ApplyOrigin, MonitorSnapshot, RetryControl,
};
use workbuddy_theme_switcher::text::safe_log_value;
use workbuddy_theme_switcher::workbuddy::{
    codedrobe_verify_passes, ensure_supported_workbuddy_version, is_supported_workbuddy_version,
    parse_theme_node_metadata, registry_value_from_line, registry_workbuddy_install_keys,
    apply_failure, product_version, renderer_matches, tasklist_pids, CdpTarget,
    ThemeNodeMetadata,
};

fn s(text: &str) -> String {
    text.to_string()
}

fn object(members: Vec<(&str, JsonValue)>) -> JsonValue {
    JsonValue::Object(members.into_iter().map(|(k, v)| (k.to_string(), v)).collect())
}

#[test]
fn theme_resource_paths_must_be_relative() {
    let root = r"D:\themes";
    assert!(resolve_resource_path(root, "themes/ice-blue/theme.codedrobe-theme").is_ok());
    assert!(resolve_resource_path(root, "../outside.theme").is_err());
    assert!(resolve_resource_path(root, r"D:\outside.theme").is_err());
}

#[test]
fn resource_paths_join_under_the_root_and_refuse_rooted_paths() {
    assert_eq!(
        resolve_resource_path(r"D:\themes", "themes/ice/theme.codedrobe-theme").unwrap(),
        r"D:\themes\themes\ice\theme.codedrobe-theme"
    );
    for bad in [r"\\server\share", "/etc", r"a\..\..\b", "..", "x/.."] {
        assert_eq!(resolve_resource_path(r"D:\t", bad).unwrap_err().code, "THEME_CATALOG_FAILED");
    }
    assert!(resolve_resource_path(r"D:\t", "a..b/..c").is_ok());
}

#[test]
fn bundled_runtime_candidates_cover_packaged_and_development_layouts() {
    let root = r"D:\theme-switcher";
    assert_eq!(
        bundled_runtime_candidates(root, "node/node.exe"),
        vec![
            s(r"D:\theme-switcher\node\node.exe"),
            s(r"D:\theme-switcher\vendor\node\node.exe"),
        ]
    );
    assert_eq!(
        bundled_runtime_candidates(root, "codedrobe/bin/codedrobe.mjs"),
        vec![
            s(r"D:\theme-switcher\codedrobe\bin\codedrobe.mjs"),
            s(r"D:\theme-switcher\vendor\codedrobe\bin\codedrobe.mjs"),
        ]
    );
}

#[test]
fn child_process_paths_strip_the_windows_extended_length_prefix() {
    assert_eq!(
        child_process_path(r"\\?\D:\switcher\codedrobe.mjs"),
        r"D:\switcher\codedrobe.mjs"
    );
    assert_eq!(
        child_process_path(r"\\?\UNC\server\share\theme.codedrobe-theme"),
        r"\\server\share\theme.codedrobe-theme"
    );
    assert_eq!(child_process_path(r"D:\plain"), r"D:\plain");
}

#[test]
fn theme_probe_waits_for_renderer_compatibility_before_apply() {
    let package = r"D:\themes\sky-breeze\theme.codedrobe-theme";
    assert_eq!(
        theme_probe_args(package, 9336),
        vec![
            s("probe"),
            s("--app"),
            s("workbuddy"),
            s("--theme"),
            s(package),
            s("--port"),
            s("9336"),
            s("--timeout-ms"),
            s("10000"),
            s("--json"),
        ]
    );
}

#[test]
fn apply_mode_requires_explicit_restart_confirmation() {
    assert_eq!(decide_apply_mode(false, false, false).unwrap(), ApplyMode::Launch);
    assert_eq!(decide_apply_mode(true, true, false).unwrap(), ApplyMode::Attach);
    assert!(decide_apply_mode(true, false, false).is_err());
    assert_eq!(decide_apply_mode(true, false, true).unwrap(), ApplyMode::Restart);
    assert_eq!(decide_apply_mode(true, false, false).unwrap_err().code, "RESTART_REQUIRED");
}

#[test]
fn apply_actions_are_named_by_origin() {
    assert_eq!(action_for(ApplyOrigin::Manual), "apply");
    assert_eq!(action_for(ApplyOrigin::Automatic), "auto-reapply");
}

fn renderer_target(url: &str) -> CdpTarget {
    CdpTarget {
        id: s("target-1"),
        target_type: s("page"),
        title: s("WorkBuddy"),
        url: s(url),
        websocket_debugger_url: Some(s("ws://127.0.0.1/devtools/page/1")),
        description: None,
    }
}

#[test]
fn renderer_match_rejects_unrelated_cdp_pages() {
    let target = renderer_target("file:///D:/workbuddy/resources/app.asar/renderer/index.html");
    assert!(renderer_matches(&target));
    assert!(!renderer_matches(&renderer_target("https://example.test")));
}

#[test]
fn renderer_match_accepts_backslashes_and_needs_a_socket_and_a_page() {
    let mut target =
        renderer_target(r"file:///D:\WorkBuddy\Resources\App.asar\Renderer\Index.html");
    target.title = s("untitled");
    assert!(renderer_matches(&target));
    target.websocket_debugger_url = None;
    assert!(!renderer_matches(&target));
    let mut worker = renderer_target("file:///D:/workbuddy/resources/app.asar/renderer/index.html");
    worker.target_type = s("service_worker");
    assert!(!renderer_matches(&worker));
}

#[test]
fn metadata_parser_accepts_only_a_numeric_count() {
    let value = object(vec![
        ("styleNodeCount", JsonValue::Number(Some(1))),
        ("runtimeThemeId", JsonValue::Str(s("workbuddy-ice-blue"))),
    ]);
    let metadata = parse_theme_node_metadata(&value).unwrap();
    assert_eq!(metadata.style_node_count, 1);
    assert_eq!(metadata.runtime_theme_id.as_deref(), Some("workbuddy-ice-blue"));
    let bad = object(vec![("styleNodeCount", JsonValue::Str(s("one")))]);
    assert!(parse_theme_node_metadata(&bad).is_err());
    let huge = object(vec![("styleNodeCount", JsonValue::Number(Some(1 << 40)))]);
    assert_eq!(parse_theme_node_metadata(&huge).unwrap_err().code, "CDP_PROTOCOL_ERROR");
}

fn target_result(pass: bool) -> JsonValue {
    object(vec![("result", object(vec![("pass", JsonValue::Bool(pass))]))])
}

#[test]
fn verify_result_requires_every_active_target_to_pass() {
    let passing = object(vec![("targets", JsonValue::Array(vec![target_result(true)]))]);
    let failed = object(vec![(
        "targets",
        JsonValue::Array(vec![target_result(true), target_result(false)]),
    )]);
    let skipped = object(vec![(
        "targets",
        JsonValue::Array(vec![target_result(true), object(vec![("skipped", JsonValue::Bool(true))])]),
    )]);
    assert!(codedrobe_verify_passes(&passing));
    assert!(!codedrobe_verify_passes(&failed));
    assert!(codedrobe_verify_passes(&skipped));
    let none = object(vec![("targets", JsonValue::Array(vec![]))]);
    assert!(!codedrobe_verify_passes(&none));
    let only_skipped = object(vec![(
        "targets",
        JsonValue::Array(vec![object(vec![("skipped", JsonValue::Bool(true))])]),
    )]);
    assert!(!codedrobe_verify_passes(&only_skipped));
}

#[test]
fn legacy_workbuddy_cdp_port_migrates_to_the_compatible_default() {
    assert_eq!(compatible_cdp_port(0), DEFAULT_CDP_PORT);
    assert_eq!(compatible_cdp_port(LEGACY_CDP_PORT), DEFAULT_CDP_PORT);
    assert_eq!(compatible_cdp_port(24567), 24567);
}

#[test]
fn retry_limits_to_three_and_resets_for_a_new_target() {
    let now = 100_000;
    let mut retry = RetryControl::new();
    retry.reset_if_key_changed(s("ice:one"));
    for expected_attempt in 1..=3 {
        assert!(retry.can_attempt(now));
        retry.record_failure(now);
        assert_eq!(retry.attempts, expected_attempt);
        if expected_attempt < 3 {
            retry.next_attempt = Some(now - 1);
        }
    }
    assert!(!retry.can_attempt(now));
    retry.reset_if_key_changed(s("ice:two"));
    assert!(retry.can_attempt(now));
    assert_eq!(retry.attempts, 0);
}

#[test]
fn retry_delays_grow_from_one_to_five_seconds() {
    let mut retry = RetryControl::new();
    retry.record_failure(1_000);
    assert_eq!(retry.next_attempt, Some(2_000));
    assert!(!retry.can_attempt(1_999));
    assert!(retry.can_attempt(2_000));
    retry.record_failure(2_000);
    assert_eq!(retry.next_attempt, Some(4_000));
    retry.record_failure(4_000);
    assert_eq!(retry.next_attempt, Some(9_000));
    retry.record_failure(9_000);
    assert_eq!(retry.next_attempt, None);
    assert!(!retry.can_attempt(u64::MAX));
}

#[test]
fn deterministic_failure_pauses_without_losing_its_reason() {
    let now = 100_000;
    let mut retry = RetryControl::new();
    retry.reset_if_key_changed(s("sky:one"));
    retry.record_error("CODEDROBE_DOM_INCOMPATIBLE", now);
    retry.next_attempt = Some(now - 30_000);
    assert!(!retry.can_attempt(now));
    assert_eq!(retry.wait_status().1, Some("CODEDROBE_DOM_INCOMPATIBLE"));
    assert!(retry.wait_status().0.contains("暂停"));
    retry.reset_if_key_changed(s("sky:two"));
    assert!(retry.can_attempt(now));
}

#[test]
fn temporary_failure_waits_and_exhaustion_retains_original_code() {
    let now = 100_000;
    let mut retry = RetryControl::new();
    retry.record_error("CODEDROBE_CDP_TIMEOUT", now);
    assert!(retry.wait_status().0.contains("等待"));
    assert_eq!(retry.wait_status().1, Some("CODEDROBE_CDP_TIMEOUT"));
    retry.next_attempt = None;
    assert!(retry.can_attempt(now));
    retry.record_error("CODEDROBE_CDP_TIMEOUT", now);
    retry.record_error("CODEDROBE_CDP_TIMEOUT", now);
    assert!(!retry.can_attempt(now));
    assert!(retry.wait_status().0.contains("停止"));
    assert_eq!(retry.wait_status().1, Some("CODEDROBE_CDP_TIMEOUT"));
}

#[test]
fn a_new_renderer_observation_is_debounced_before_auto_apply() {
    let now = 100_000;
    let mut retry = RetryControl::new();
    assert!(retry.reset_if_key_changed(s("sky:renderer-a")));
    retry.defer_initial_attempt(now, 1_000);
    assert!(!retry.can_attempt(now));
    retry.next_attempt = Some(now - 1);
    assert!(retry.can_attempt(now));
    retry.reset();
    assert!(retry.reset_if_key_changed(s("sky:renderer-a")));
    assert!(!retry.reset_if_key_changed(s("sky:renderer-a")));
}

#[test]
fn monitor_snapshot_keeps_the_last_recovery_time() {
    let mut snapshot = MonitorSnapshot::new();
    assert_eq!(snapshot.status, "未监控");
    update_monitor_with_time(&mut snapshot, "ok", 0, None, Some(s("12:00")));
    update_monitor(&mut snapshot, "waiting", 2, Some("CODEDROBE_CDP_TIMEOUT"));
    assert_eq!(snapshot.status, "waiting");
    assert_eq!(snapshot.retry_count, 2);
    assert_eq!(snapshot.last_error_code.as_deref(), Some("CODEDROBE_CDP_TIMEOUT"));
    assert_eq!(snapshot.last_auto_recovery_at.as_deref(), Some("12:00"));
}

#[test]
fn log_values_cannot_span_multiple_lines() {
    assert_eq!(safe_log_value("apply\r\nsecret"), "apply  secret");
}

#[test]
fn automatic_drive_candidates_cover_custom_install_drives() {
    assert_eq!(
        drive_root_workbuddy_candidates(&['D', 'E']),
        vec![
            s(r"D:\WorkBuddy\WorkBuddy.exe"),
            s(r"D:\Program Files\WorkBuddy\WorkBuddy.exe"),
            s(r"E:\WorkBuddy\WorkBuddy.exe"),
            s(r"E:\Program Files\WorkBuddy\WorkBuddy.exe"),
        ]
    );
}

#[test]
fn duplicate_candidates_keep_their_first_position() {
    let paths = vec![s("b"), s("a"), s("b"), s("c"), s("a")];
    assert_eq!(deduplicate_paths(paths), vec![s("b"), s("a"), s("c")]);
    assert_eq!(deduplicate_paths(vec![]), Vec::<String>::new());
}

#[test]
fn supports_current_and_newer_workbuddy_5x_versions() {
    assert!(!is_supported_workbuddy_version(Some("5.2.5.0")));
    assert!(is_supported_workbuddy_version(Some("5.2.6.0")));
    assert!(is_supported_workbuddy_version(Some("5.2.8.0")));
    assert!(is_supported_workbuddy_version(Some("5.3.14.0")));
    assert!(!is_supported_workbuddy_version(Some("6.0.0.0")));
    assert!(is_supported_workbuddy_version(Some("unknown")));
}

#[test]
fn unsupported_versions_name_the_version_in_their_error() {
    assert!(is_supported_workbuddy_version(None));
    assert!(is_supported_workbuddy_version(Some("5.2")));
    assert!(is_supported_workbuddy_version(Some("+5.2.6.0")));
    let error = ensure_supported_workbuddy_version(Some("4.9.9")).unwrap_err();
    assert_eq!(error.code, "WORKBUDDY_VERSION_UNSUPPORTED");
    assert_eq!(error.message, "当前 WorkBuddy 4.9.9 不在兼容范围内；主题切换器支持 5.2.6 至 5.x。");
    assert!(ensure_supported_workbuddy_version(Some("5.10.0")).is_ok());
}

#[test]
fn registry_output_yields_workbuddy_install_keys() {
    let output = "HKEY_CURRENT_USER\\Software\\A\r\n    DisplayName    REG_SZ    Other\r\n\r\nHKEY_CURRENT_USER\\Software\\B\r\n    DisplayName    REG_SZ    WorkBuddy 5.2\r\n    InstallLocation    REG_EXPAND_SZ    D:\\WB\r\n";
    assert_eq!(
        registry_workbuddy_install_keys(output),
        vec![s("HKEY_CURRENT_USER\\Software\\B")]
    );
    assert_eq!(
        registry_value_from_line("installlocation    REG_EXPAND_SZ    D:\\WB  ", "InstallLocation"),
        Some(s("D:\\WB"))
    );
    assert_eq!(registry_value_from_line("DisplayName    REG_SZ    ", "DisplayName"), None);
    assert_eq!(registry_value_from_line("Other    REG_SZ    x", "DisplayName"), None);
}

#[test]
fn custom_theme_controls_and_hex_values_are_bounded() {
    assert!(validate_controls(&ThemeControls::default()).is_ok());
    assert!(validate_controls(&ThemeControls { brightness: 41, ..ThemeControls::default() }).is_err());
    assert!(validate_controls(&ThemeControls { blur: 25, ..ThemeControls::default() }).is_err());
    assert!(validate_controls(&ThemeControls { panel_opacity: 54, ..ThemeControls::default() }).is_err());
    assert!(validate_controls(&ThemeControls {
        accent: Some(s("#ff33aa")),
        ..ThemeControls::default()
    })
    .is_ok());
    assert!(validate_controls(&ThemeControls {
        accent: Some(s("not-a-color")),
        ..ThemeControls::default()
    })
    .is_err());
    assert_eq!(
        validate_controls(&ThemeControls { accent: Some(s("#12345")), ..ThemeControls::default() })
            .unwrap_err()
            .code,
        "CUSTOM_THEME_ACCENT_INVALID"
    );
    assert_eq!(
        validate_controls(&ThemeControls { blur: 99, ..ThemeControls::default() })
            .unwrap_err()
            .code,
        "CUSTOM_THEME_CONTROLS_INVALID"
    );
}

#[test]
fn colors_read_and_write_their_hex_and_css_forms() {
    let c = parse_hex_color("  #ff33aA ").unwrap();
    assert_eq!(c, RgbColor { red: 255, green: 51, blue: 170 });
    assert_eq!(c.hex(), "#FF33AA");
    assert_eq!(c.css(), "rgb(255 51 170)");
    assert_eq!(parse_hex_color(&c.hex()), Some(c));
    assert_eq!(parse_hex_color("#ff33a"), None);
    assert_eq!(parse_hex_color("ff33aa"), None);
    assert_eq!(parse_hex_color("#gg33aa"), None);
    assert_eq!(
        adjust_brightness(RgbColor { red: 10, green: 128, blue: 250 }, 20),
        RgbColor { red: 30, green: 148, blue: 255 }
    );
    assert_eq!(
        adjust_brightness(RgbColor { red: 10, green: 128, blue: 250 }, -40),
        RgbColor { red: 0, green: 88, blue: 210 }
    );
}

#[test]
fn custom_image_signatures_must_match_supported_extensions() {
    assert_eq!(
        source_image_extension("wallpaper.png", &[0x89, b'P', b'N', b'G', 0x0D, 0x0A, 0x1A, 0x0A])
            .unwrap(),
        "png"
    );
    assert!(source_image_extension("wallpaper.jpg", &[0x89, b'P', b'N', b'G', 0x0D, 0x0A, 0x1A, 0x0A])
        .is_err());
    assert_eq!(
        source_image_extension("wallpaper.webp", b"RIFFxxxxWEBPpayload").unwrap(),
        "webp"
    );
}

#[test]
fn image_extensions_ignore_case_and_accept_jpeg() {
    let jpeg = [0xFF, 0xD8, 0xFF, 0xE0];
    assert_eq!(source_image_extension(r"D:\pics\Photo.JPEG", &jpeg).unwrap(), "jpg");
    assert_eq!(source_image_extension("a.b/photo.Jpg", &jpeg).unwrap(), "jpg");
    assert!(source_image_extension(".jpg", &jpeg).is_err());
    assert!(source_image_extension("photo", &jpeg).is_err());
    assert_eq!(
        source_image_extension("photo.gif", b"GIF89a").unwrap_err().code,
        "CUSTOM_IMAGE_TYPE_INVALID"
    );
    assert!(source_image_extension("x.webp", b"RIFFxxxxWEBP").is_err());
}

#[test]
fn base64_encoder_matches_standard_padding() {
    assert_eq!(base64_encode(b""), "");
    assert_eq!(base64_encode(b"f"), "Zg==");
    assert_eq!(base64_encode(b"fo"), "Zm8=");
    assert_eq!(base64_encode(b"foo"), "Zm9v");
}

#[test]
fn base64_decoder_accepts_only_canonical_image_payloads() {
    assert_eq!(base64_decode("Zg=="), Some(b"f".to_vec()));
    assert_eq!(base64_decode("Zm8="), Some(b"fo".to_vec()));
    assert_eq!(base64_decode("Zm9v"), Some(b"foo".to_vec()));
    assert_eq!(base64_decode("Zg=A"), None);
    assert_eq!(base64_decode("Zh=="), None);
    assert_eq!(base64_decode("Zg==Zm8="), None);
    assert_eq!(base64_decode("not-base64"), None);
}

#[test]
fn base64_roundtrips_every_byte_value() {
    let bytes: Vec<u8> = (0..=255).collect();
    assert_eq!(base64_decode(&base64_encode(&bytes)), Some(bytes));
}

#[test]
fn custom_theme_identifiers_are_confined_to_their_own_directory() {
    assert!(is_safe_custom_theme_id("custom-123-ff"));
    assert!(!is_safe_custom_theme_id("ice-blue"));
    assert!(!is_safe_custom_theme_id("custom-../escape"));
    assert_eq!(
        custom_theme_directory(r"C:\data\custom-themes", "custom-1").unwrap(),
        r"C:\data\custom-themes\custom-1"
    );
    assert_eq!(
        custom_theme_directory(r"C:\data", "custom-Á").unwrap_err().code,
        "CUSTOM_THEME_INVALID"
    );
    assert!(!is_safe_custom_theme_id(&format!("custom-{}", "a".repeat(74))));
}

#[test]
fn tasklist_rows_give_the_workbuddy_process_ids() {
    let out = "\"WorkBuddy.exe\",\"1234\",\"Console\",\"1\",\"120,000 K\"\r\n\
               \"workbuddy.EXE\",\"+56\",\"Console\"\r\n\
               \"Other.exe\",\"77\",\"Console\"\r\n\
               \"WorkBuddy.exe\",\"x\"\r\n\
               \"WorkBuddy.exe\"\r\n\
               INFO: No tasks are running.\r\n";
    assert_eq!(tasklist_pids(out), vec![1234, 56]);
    assert_eq!(tasklist_pids("\"WorkBuddy.exe\",\"9\""), vec![9]);
    assert!(tasklist_pids("").is_empty());
}

#[test]
fn file_versions_read_from_the_fixed_information_block() {
    let v = product_version(0xfeef04bd, (5 << 16) | 2, (6 << 16) | 1093).unwrap();
    assert_eq!(v, "5.2.6.1093");
    assert!(is_supported_workbuddy_version(Some(&v)));
    let old = product_version(0xfeef04bd, (5 << 16) | 2, 5 << 16).unwrap();
    assert_eq!(old, "5.2.5.0");
    assert!(!is_supported_workbuddy_version(Some(&old)));
    assert_eq!(product_version(0, 1, 2), None);
}

#[test]
fn runtime_commands_carry_child_paths_and_the_port() {
    let package = r"\\?\D:\themes\sky\theme.codedrobe-theme";
    let exe = r"\\?\UNC\nas\apps\WorkBuddy\WorkBuddy.exe";
    assert_eq!(
        apply_args(package, exe, 9337),
        vec![
            s("apply"),
            s("--app"),
            s("workbuddy"),
            s("--theme"),
            s(r"D:\themes\sky\theme.codedrobe-theme"),
            s("--app-path"),
            s(r"\\nas\apps\WorkBuddy\WorkBuddy.exe"),
            s("--port"),
            s("9337"),
            s("--no-launch"),
            s("--json"),
        ]
    );
    assert_eq!(
        verify_args(package, 9337),
        vec![
            s("verify"),
            s("--app"),
            s("workbuddy"),
            s("--theme"),
            s(r"D:\themes\sky\theme.codedrobe-theme"),
            s("--port"),
            s("9337"),
            s("--json"),
        ]
    );
    assert_eq!(
        restore_args(9336),
        vec![s("restore"), s("--app"), s("workbuddy"), s("--port"), s("9336"), s("--json")]
    );
}

#[test]
fn an_apply_stands_only_when_verified_with_one_matching_node() {
    assert_eq!(apply_failure(false, true), Some("VERIFY_FAILED"));
    assert_eq!(apply_failure(false, false), Some("VERIFY_FAILED"));
    assert_eq!(apply_failure(true, false), Some("STYLE_NODE_COUNT_INVALID"));
    assert_eq!(apply_failure(true, true), None);
    let one = ThemeNodeMetadata { style_node_count: 1, runtime_theme_id: Some(s("workbuddy-sky")) };
    assert!(one.shows("workbuddy-sky"));
    assert!(!one.shows("workbuddy-sea"));
    let two = ThemeNodeMetadata { style_node_count: 2, runtime_theme_id: Some(s("workbuddy-sky")) };
    assert!(!two.shows("workbuddy-sky"));
    let anonymous = ThemeNodeMetadata { style_node_count: 1, runtime_theme_id: None };
    assert!(!anonymous.shows("workbuddy-sky"));
}
