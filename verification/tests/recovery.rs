use workbuddy_theme_switcher::diagnostic::{failure_report, Diagnostic};
use workbuddy_theme_switcher::edit::{
    edit_outcome, style_version_check, EditOutcome, StyleChoice, StyleName,
};
use workbuddy_theme_switcher::json::JsonValue;
use workbuddy_theme_switcher::live::{evaluation_command_params, probe_endpoint};
use workbuddy_theme_switcher::monitor::{attempt_finished, cycle_start};
use workbuddy_theme_switcher::paths::legacy_credential_target;
use workbuddy_theme_switcher::retry::RetryControl;
use workbuddy_theme_switcher::session::{
    begin_recovery, external_change, original_restored, recovery_failed, recovery_plan,
    recovery_reachable, RecoveryAction, TrialSession,
};

fn s(text: &str) -> String {
    text.to_string()
}

#[test]
fn the_status_probe_connects_only_to_a_loopback_debugger() {
    assert_eq!(probe_endpoint("ws://127.0.0.1:9444/devtools/page/A").unwrap(), 9444);
    assert_eq!(probe_endpoint("ws://localhost/devtools/page/A").unwrap(), 19336);
    for bad in [
        "wss://127.0.0.1:9444/devtools/page/A",
        "ws://192.168.1.2:9444/devtools/page/A",
        "ws://user@127.0.0.1:9444/devtools/page/A",
        "ws://:secret@127.0.0.1:9444/devtools/page/A",
        "http://127.0.0.1:9444/",
        "not a url",
    ] {
        assert_eq!(probe_endpoint(bad).unwrap_err().code, "CDP_UNAVAILABLE", "{bad}");
    }
}

#[test]
fn deterministic_attempt_failures_pause_and_transient_ones_do_not() {
    let mut retry = RetryControl::new();
    attempt_finished(&mut retry, Some("CODEDROBE_CDP_TIMEOUT"), 0);
    assert!(!retry.blocked);
    attempt_finished(&mut retry, Some("CODEDROBE_DOM_INCOMPATIBLE"), 10);
    assert!(retry.blocked);
    assert_eq!(retry.last_error.as_deref(), Some("CODEDROBE_DOM_INCOMPATIBLE"));
    attempt_finished(&mut retry, None, 20);
    assert!(!retry.blocked && retry.attempts == 0);
}

#[test]
fn the_keeper_waits_while_a_trial_runs() {
    let mut retry = RetryControl::new();
    attempt_finished(&mut retry, Some("CODEDROBE_CDP_TIMEOUT"), 0);
    assert!(!cycle_start(true, true, &mut retry));
    assert_eq!(retry.attempts, 1);
    assert!(cycle_start(false, false, &mut retry));
    assert_eq!(retry.attempts, 1);
    assert!(cycle_start(false, true, &mut retry));
    assert_eq!(retry.attempts, 0);
    assert!(retry.last_error.is_none());
}

#[test]
fn failed_runtime_commands_explain_their_code_and_checks() {
    let unknown = failure_report(None);
    assert_eq!(unknown.code, "CODEDROBE_COMMAND_FAILED");
    assert_eq!(unknown.failure_message(), "本地主题操作未完成，请在设置与诊断中查看错误码。");
    let found = Diagnostic { code: "CODEDROBE_PORT_OCCUPIED", checks: vec![] };
    assert_eq!(failure_report(Some(found)).failure_message(), "本地 CDP 端口已被其他程序占用。");
    let checked = Diagnostic { code: "CODEDROBE_DOM_INCOMPATIBLE", checks: vec!["composer", "sidebar"] };
    assert_eq!(
        checked.failure_message(),
        "当前 WorkBuddy 页面的必要组件与主题不匹配。请回到首页重试；仍失败时请更新主题切换器。 检查项：composer、sidebar。"
    );
}

#[test]
fn page_evaluations_return_by_value_within_a_limit() {
    match evaluation_command_params("1 + 1") {
        JsonValue::Object(fields) => {
            assert_eq!(fields.len(), 4);
            assert_eq!(fields[0].0, "expression");
            assert!(matches!(&fields[0].1, JsonValue::Str(e) if e == "1 + 1"));
            assert_eq!(fields[1].0, "returnByValue");
            assert!(matches!(fields[1].1, JsonValue::Bool(true)));
            assert_eq!(fields[2].0, "awaitPromise");
            assert!(matches!(fields[2].1, JsonValue::Bool(true)));
            assert_eq!(fields[3].0, "timeout");
            assert!(matches!(fields[3].1, JsonValue::Number(Some(2500))));
        }
        other => panic!("{other:?}"),
    }
}

#[test]
fn edits_keep_their_bookkeeping() {
    assert!(style_version_check(1, 1).is_ok());
    assert!(style_version_check(2, 2).is_ok());
    assert_eq!(style_version_check(1, 2).unwrap_err().code, "STYLE_VERSION_UNSUPPORTED");
    assert_eq!(style_version_check(3, 3).unwrap_err().code, "STYLE_VERSION_UNSUPPORTED");
    let v2 = StyleChoice { id: StyleName::CalmDark, version: 2 };
    let v1 = StyleChoice { id: StyleName::CalmDark, version: 1 };
    assert_eq!(
        edit_outcome(2, Some(v2), false),
        EditOutcome { schema_version: 3, submitted_controls: true, clear_overrides: true, track_region_overrides: false }
    );
    assert!(!edit_outcome(1, Some(v1), true).submitted_controls);
    assert_eq!(
        edit_outcome(3, None, true),
        EditOutcome { schema_version: 3, submitted_controls: true, clear_overrides: false, track_region_overrides: true }
    );
    assert_eq!(edit_outcome(1, None, true).schema_version, 2);
    assert_eq!(edit_outcome(1, None, false).schema_version, 1);
    assert!(!edit_outcome(2, None, true).track_region_overrides);
}

#[test]
fn only_the_exact_old_credential_is_cleared_after_confirmation() {
    assert_eq!(legacy_credential_target(false).unwrap_err().code, "CONFIRMATION_REQUIRED");
    assert_eq!(legacy_credential_target(true).unwrap(), "WorkBuddyThemeSwitcher:CustomThemeAiKey");
}

fn trial() -> TrialSession {
    TrialSession::live(s("t"), s("n"), 0, 1)
}

#[test]
fn recovery_returns_to_the_start_or_stops_on_unknown_changes() {
    let mut committed = trial();
    assert!(!begin_recovery(&mut committed, true));
    assert_eq!(committed.phase, "active");
    let mut session = trial();
    assert!(begin_recovery(&mut session, false));
    assert_eq!(session.phase, "restoring");
    assert_eq!(recovery_reachable(false).unwrap_err().code, "TRIAL_WAITING_WORKBUDDY");
    assert!(recovery_reachable(true).is_ok());
    assert_eq!(recovery_plan(false, false, true), RecoveryAction::PauseKeeping);
    assert_eq!(recovery_plan(true, false, true), RecoveryAction::ApplyPrevious);
    assert_eq!(recovery_plan(false, true, false), RecoveryAction::RestoreOriginal);
    assert_eq!(external_change().code, "TRIAL_EXTERNAL_CHANGE");
    assert!(original_restored(0).is_ok());
    assert_eq!(original_restored(1).unwrap_err().code, "RESTORE_VERIFY_FAILED");
    recovery_failed(&mut session, "TRIAL_EXTERNAL_CHANGE");
    assert_eq!(session.phase, "pendingRecovery");
    assert_eq!(session.error.as_deref(), Some("TRIAL_EXTERNAL_CHANGE"));
    assert_eq!(session.deadline_ms, 600_000);
}
