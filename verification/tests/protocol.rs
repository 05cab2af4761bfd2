use workbuddy_theme_switcher::compat::{
    baseline_count, compile, record_apply_failure, restore_verified, rollback_check,
    CompatFragments,
};
use workbuddy_theme_switcher::diagnostic::{
    deterministic, diagnostic_bodies, message, parse_documents, Diagnostic,
};
use workbuddy_theme_switcher::catalog::{
    catalog_items, current_theme_key, package_css, status_message,
};
use workbuddy_theme_switcher::json::JsonValue;
use workbuddy_theme_switcher::store::ThemeRecord;
use workbuddy_theme_switcher::live::{
    check_capture_size, css_hash, debugger_endpoint, require_one_window, require_painted, Cdp,
    ReplyStep,
};

fn s(text: &str) -> String {
    text.to_string()
}

fn json(value: &serde_json::Value) -> JsonValue {
    match value {
        serde_json::Value::Null => JsonValue::Null,
        serde_json::Value::Bool(b) => JsonValue::Bool(*b),
        serde_json::Value::Number(n) => JsonValue::Number(n.as_u64()),
        serde_json::Value::String(t) => JsonValue::Str(t.clone()),
        serde_json::Value::Array(items) => JsonValue::Array(items.iter().map(json).collect()),
        serde_json::Value::Object(members) => {
            JsonValue::Object(members.iter().map(|(k, v)| (k.clone(), json(v))).collect())
        }
    }
}

fn parse(output: &str) -> Option<Diagnostic> {
    let documents: Vec<Option<JsonValue>> = diagnostic_bodies(output)
        .iter()
        .map(|body| serde_json::from_str::<serde_json::Value>(body).ok().map(|v| json(&v)))
        .collect();
    parse_documents(&documents)
}

#[test]
fn structured_diagnostic_is_bounded_and_allowlisted() {
    let output = "private target title\n[codedrobe-diagnostic] {\"version\":1,\"code\":\"CODEDROBE_DOM_INCOMPATIBLE\",\"checks\":[\"private-name\",\"home-composer-panel\",\"home-composer-panel\"],\"message\":\"private path\"}";
    let result = parse(output).unwrap();
    assert_eq!(result.code, "CODEDROBE_DOM_INCOMPATIBLE");
    assert_eq!(result.checks, vec!["home-composer-panel"]);
    assert!(!result.log_code(1).contains("private"));
}

#[test]
fn invalid_envelopes_and_raw_error_mentions_are_not_trusted() {
    for text in [
        "PRIVATE-TITLE-CODEDROBE_DOM_INCOMPATIBLE",
        "[codedrobe-diagnostic] {\"version\":2,\"code\":\"CODEDROBE_DOM_INCOMPATIBLE\"}",
        "[codedrobe-diagnostic] {\"version\":1,\"code\":\"secret-value\"}",
        "[codedrobe-diagnostic] broken",
    ] {
        assert!(parse(text).is_none());
    }
    assert!(parse(&format!("[codedrobe-diagnostic] {}", "x".repeat(8192))).is_none());
}

#[test]
fn the_last_valid_diagnostic_wins_and_checks_are_sorted() {
    let output = "[codedrobe-diagnostic] {\"version\":1,\"code\":\"NOT_CONNECTED\"}\r\n[codedrobe-diagnostic] {\"version\":1,\"code\":\"CODEDROBE_CDP_TIMEOUT\",\"checks\":[\"root\",\"assistant-text\",7]}\r\n[codedrobe-diagnostic] {\"version\":1}\n";
    let result = parse(output).unwrap();
    assert_eq!(result.code, "CODEDROBE_CDP_TIMEOUT");
    assert_eq!(result.checks, vec!["assistant-text", "root"]);
    assert_eq!(result.log_code(-2), "CODEDROBE_CDP_TIMEOUT-EXIT-2-CHECKS-assistant-text+root");
    let bare = Diagnostic { code: "NOT_CONNECTED", checks: vec![] };
    assert_eq!(bare.log_code(0), "NOT_CONNECTED-EXIT0");
}

#[test]
fn diagnostic_bodies_follow_line_endings() {
    let bodies = diagnostic_bodies("a\r\n[codedrobe-diagnostic] {}\r\n[codedrobe-diagnostic] x\r");
    assert_eq!(bodies, vec![s("{}"), s("x\r")]);
    let body = format!("[codedrobe-diagnostic] {}", "é".repeat(2048));
    assert_eq!(diagnostic_bodies(&body).len(), 1);
    let body = format!("[codedrobe-diagnostic] {}", "é".repeat(2049));
    assert!(diagnostic_bodies(&body).is_empty());
}

#[test]
fn deterministic_codes_pause_and_messages_explain_codes() {
    assert!(deterministic("CODEDROBE_DOM_INCOMPATIBLE"));
    assert!(deterministic("UNSUPPORTED_WORKBUDDY_VERSION"));
    assert!(!deterministic("CODEDROBE_CDP_TIMEOUT"));
    assert_eq!(message("NOT_CONNECTED"), "未连接到可用的 WorkBuddy 页面，请检查连接状态后重试。");
    assert_eq!(message("CODEDROBE_TIMEOUT"), "WorkBuddy 本地连接响应超时。请等待窗口加载完成后重试。");
    assert_eq!(message("anything"), "本地主题操作未完成，请在设置与诊断中查看错误码。");
}

#[test]
fn missing_minimized_or_ambiguous_windows_cannot_publish_a_capture() {
    assert!(require_one_window(&[false]).is_ok());
    for states in [vec![], vec![true], vec![true, false], vec![false, false]] {
        assert_eq!(require_one_window(&states).unwrap_err().code, "WORKBUDDY_NOT_PAINTING");
    }
}

#[test]
fn hidden_or_unpainted_pages_never_report_a_fresh_frame() {
    assert!(require_painted(&JsonValue::Bool(true)).is_ok());
    let value_true = JsonValue::Object(vec![(s("value"), JsonValue::Bool(true))]);
    for value in [JsonValue::Bool(false), JsonValue::Null, value_true] {
        assert_eq!(require_painted(&value).unwrap_err().code, "WORKBUDDY_NOT_PAINTING");
    }
}

#[test]
fn screenshot_hash_changes_with_css() {
    assert_ne!(css_hash("a"), css_hash("b"));
}

#[test]
fn css_hash_is_lowercase_sha256_hex() {
    assert_eq!(
        css_hash("abc"),
        "ba7816bf8f01cfea414140de5dae2223b00361a396177a9cb410ff61f20015ad"
    );
    assert_eq!(
        css_hash(""),
        "e3b0c44298fc1c149afbf4c8996fb92427ae41e4649b934ca495991b7852b855"
    );
}

#[test]
fn only_local_debugger_endpoints_are_connected() {
    assert_eq!(
        debugger_endpoint("ws://127.0.0.1:19336/devtools/page/1", 19336).unwrap(),
        "ws://127.0.0.1:19336/devtools/page/1"
    );
    assert!(debugger_endpoint("ws://localhost:19336/x", 19336).is_ok());
    for bad in [
        "ws://127.0.0.1:19337/x",
        "wss://127.0.0.1:19336/x",
        "ws://example.test:19336/x",
        "ws://user@127.0.0.1:19336/x",
        "ws://:pw@127.0.0.1:19336/x",
        "ws://127.0.0.1/x",
        "not a url",
    ] {
        assert_eq!(debugger_endpoint(bad, 19336).unwrap_err().code, "LIVE_PREVIEW_FAILED");
    }
}

#[test]
fn commands_are_numbered_and_replies_matched_by_id() {
    let mut cdp = Cdp::new(s("page-1"));
    let first = cdp.call("Runtime.evaluate", JsonValue::Null);
    let second = cdp.call("Page.captureScreenshot", JsonValue::Null);
    assert_eq!((first.id, first.timeout_ms), (1, 3000));
    assert_eq!((second.id, second.timeout_ms), (2, 8000));
    let reply = |id: u64, extra: (&str, JsonValue)| {
        JsonValue::Object(vec![(s("id"), JsonValue::Number(Some(id))), (s(extra.0), extra.1)])
    };
    assert!(matches!(Cdp::reply(2, reply(1, ("result", JsonValue::Null))), ReplyStep::Wait));
    assert!(matches!(Cdp::reply(2, reply(2, ("error", JsonValue::Null))), ReplyStep::Fail));
    match Cdp::reply(2, reply(2, ("result", JsonValue::Bool(true)))) {
        ReplyStep::Done(JsonValue::Bool(true)) => {}
        _ => panic!("the result of the matching reply"),
    }
    match Cdp::reply(2, reply(2, ("other", JsonValue::Bool(true)))) {
        ReplyStep::Done(JsonValue::Null) => {}
        _ => panic!("a reply without a result gives null"),
    }
}

fn theme_state(count: u64, id: &str, css: &str) -> JsonValue {
    JsonValue::Object(vec![
        (s("count"), JsonValue::Number(Some(count))),
        (s("id"), JsonValue::Str(s(id))),
        (s("css"), JsonValue::Str(s(css))),
    ])
}

#[test]
fn evaluation_results_and_theme_states_are_checked() {
    let ok = JsonValue::Object(vec![(
        s("result"),
        JsonValue::Object(vec![(s("value"), JsonValue::Bool(true))]),
    )]);
    assert!(matches!(Cdp::evaluate(ok), Ok(JsonValue::Bool(true))));
    let thrown = JsonValue::Object(vec![(s("exceptionDetails"), JsonValue::Null)]);
    assert_eq!(Cdp::evaluate(thrown).unwrap_err().code, "LIVE_PREVIEW_FAILED");
    assert!(Cdp::verify(&theme_state(1, "t", "body{}"), "t", "body{}").is_ok());
    assert_eq!(
        Cdp::verify(&theme_state(2, "t", "body{}"), "t", "body{}").unwrap_err().code,
        "LIVE_THEME_CHANGED"
    );
    assert!(Cdp::verify(&theme_state(1, "t", "body{ }"), "t", "body{}").is_err());
    let (count, id, hash) = Cdp::theme_fingerprint(&theme_state(1, "t", "abc")).unwrap();
    assert_eq!((count, id.as_deref()), (1, Some("t")));
    assert_eq!(hash, Some(css_hash("abc")));
    assert!(Cdp::theme_fingerprint(&JsonValue::Null).is_err());
}

#[test]
fn capture_size_is_bounded() {
    assert!(check_capture_size(1920, 1080).is_ok());
    assert!(check_capture_size(0, 1080).is_err());
    assert!(check_capture_size(4000, 4001).is_err());
    assert!(check_capture_size(4000, 4000).is_ok());
}

fn fragments() -> CompatFragments {
    CompatFragments {
        image: s(":root{--cg-surface:var(--fusion-main-bg)}"),
        builtin: s(":root{--cg-surface:rgb(var(--wb-theme-surface-composer-rgb))}"),
        components: s(".conversation-shell{background:var(--cg-surface)}"),
    }
}

#[test]
fn legacy_is_byte_identical_and_unknown_palettes_fail_closed() {
    let source = "/* old */\r\nbody {color:red}";
    let result = compile(source, "legacy", &fragments()).unwrap();
    assert_eq!(result.css, source);
    assert_eq!(result.final_hash, result.original_hash);
    assert!(compile(source, "cr-v1", &fragments()).is_err());
    assert!(compile(source, "unknown", &fragments()).is_err());
    assert_eq!(
        compile(source, "cr-v1", &fragments()).err().unwrap().code,
        "COMPAT_PALETTE_UNSUPPORTED"
    );
    assert_eq!(
        compile(source, "unknown", &fragments()).err().unwrap().code,
        "COMPAT_STRUCTURE_UNSUPPORTED"
    );
}

#[test]
fn independent_palette_contracts_and_deterministic_identity() {
    let a = compile("--fusion-main-bg:red;", "cr-v1", &fragments()).unwrap();
    let b = compile("--wb-theme-surface-composer-rgb:1 2 3;", "cr-v1", &fragments()).unwrap();
    assert!(!a.css.contains("--wb-theme-surface-composer-rgb"));
    assert!(!b.css.contains("--fusion-"));
    assert_eq!(
        a.final_hash,
        compile("--fusion-main-bg:red;", "cr-v1", &fragments()).unwrap().final_hash
    );
    assert_ne!(a.final_hash, a.original_hash);
    assert!(a.css.contains(".conversation-shell"));
    assert_eq!(
        a.css,
        "--fusion-main-bg:red;\n/* workbuddy-164.1 */\n:root{--cg-surface:var(--fusion-main-bg)}\n.conversation-shell{background:var(--cg-surface)}"
    );
}

#[test]
fn rollback_only_touches_known_states() {
    assert_eq!(rollback_check(1, Some("p"), Some("h"), Some("p"), Some("h"), "c", "ch").unwrap(), true);
    assert_eq!(rollback_check(0, None, None, Some("p"), Some("h"), "c", "ch").unwrap(), false);
    assert_eq!(rollback_check(1, Some("c"), Some("ch"), Some("p"), Some("h"), "c", "ch").unwrap(), false);
    assert_eq!(
        rollback_check(1, Some("x"), Some("h"), Some("p"), Some("h"), "c", "ch").unwrap_err().code,
        "APPLY_EXTERNAL_CHANGE"
    );
    assert!(rollback_check(2, Some("c"), Some("ch"), None, None, "c", "ch").is_err());
    assert!(restore_verified(0, None, None, None, None).is_ok());
    assert!(restore_verified(1, Some("p"), Some("h"), Some("p"), Some("h")).is_ok());
    assert_eq!(
        restore_verified(1, Some("c"), Some("h"), Some("p"), Some("h")).unwrap_err().code,
        "RESTORE_VERIFY_FAILED"
    );
    let mut first = None;
    record_apply_failure(&mut first, "COMPAT_IMAGE_INVALID");
    record_apply_failure(&mut first, "LATER");
    assert_eq!(first.as_deref(), Some("COMPAT_IMAGE_INVALID"));
    assert_eq!(baseline_count(3).unwrap_err().code, "STYLE_NODE_COUNT_INVALID");
    assert_eq!(baseline_count(1).unwrap(), true);
}

#[test]
fn packages_carry_their_workbuddy_stylesheet_at_a_fixed_place() {
    let parse = |text: &str| json(&serde_json::from_str::<serde_json::Value>(text).unwrap());
    let package = parse(r#"{"name":"x","targets":{"workbuddy":{"css":"body{color:red}"}}}"#);
    assert_eq!(package_css(&package), Some(s("body{color:red}")));
    assert_eq!(package_css(&parse(r#"{"targets":{"other":{"css":"a"}}}"#)), None);
    assert_eq!(package_css(&parse(r#"{"targets":{"workbuddy":{"css":7}}}"#)), None);
    assert_eq!(package_css(&parse(r#"{"targets":[{"workbuddy":{"css":"a"}}]}"#)), None);
    assert_eq!(package_css(&parse(r#""css""#)), None);
}

fn record(id: &str, custom: bool) -> ThemeRecord {
    ThemeRecord {
        id: s(id),
        name: format!("{id} name"),
        description: s("描述"),
        package_path: format!(r"C:\themes\{id}\theme.codedrobe-theme"),
        preview_path: format!(r"C:\themes\{id}\preview.jpg"),
        verified_work_buddy_version: s("5.2.6"),
        theme_version: s("1.0.0"),
        runtime_theme_id: format!("workbuddy-{id}"),
        is_custom: custom,
    }
}

#[test]
fn the_catalog_shows_every_theme_but_library_revisions() {
    let themes = vec![
        record("sky-breeze", false),
        record("custom-v2-0123456789abcdef0123456789abcdef@2", true),
        record("my-old-theme", true),
    ];
    let items = catalog_items(&themes);
    assert_eq!(items.len(), 2);
    assert_eq!(items[0].reference.id, "sky-breeze");
    assert_eq!(items[0].reference.revision, None);
    assert_eq!(items[0].name, "sky-breeze name");
    assert_eq!(items[0].preview_path, r"C:\themes\sky-breeze\preview.jpg");
    assert!(!items[0].editable && !items[0].is_custom);
    assert_eq!(items[0].compatibility, "内置/旧主题；应用时运行验证");
    assert_eq!(items[1].reference.id, "my-old-theme");
    assert!(items[1].is_custom);
}

#[test]
fn the_page_theme_is_named_by_catalog_then_library_then_runtime_id() {
    let themes = vec![record("sky-breeze", false), record("sky-copy", false)];
    assert_eq!(current_theme_key(&themes, "workbuddy-sky-breeze"), "sky-breeze");
    let revision = "workbuddy-custom-v2-0123456789abcdef0123456789abcdef-r4";
    assert_eq!(
        current_theme_key(&themes, revision),
        "custom-v2-0123456789abcdef0123456789abcdef@4"
    );
    assert_eq!(current_theme_key(&themes, "workbuddy-unknown"), "workbuddy-unknown");
    assert_eq!(current_theme_key(&vec![], "plain"), "plain");
}

#[test]
fn the_status_line_follows_the_connection_state() {
    assert_eq!(status_message(false, true, true), "WorkBuddy 未运行；应用或试用前请确认启动。");
    assert_eq!(
        status_message(true, false, false),
        "WorkBuddy 正在运行，但未开放 CDP；请在切换器中确认重启。"
    );
    assert_eq!(status_message(true, true, true), "已连接 WorkBuddy，检测到 CodeDrobe 主题。");
    assert_eq!(status_message(true, true, false), "已连接 WorkBuddy，当前为原版状态。");
}
