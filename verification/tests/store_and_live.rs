use workbuddy_theme_switcher::color::is_workbuddy_executable;
use workbuddy_theme_switcher::error::AppError;
use workbuddy_theme_switcher::library::ThemeRef;
use workbuddy_theme_switcher::live::{capture_result, live_update_expression};
use workbuddy_theme_switcher::store::{head_write_failure, HeadWriteOutcome, ThemeStore};

const ID: &str = "custom-v2-0123456789abcdef0123456789abcdef";
const ASSET: &str = "fedcba9876543210fedcba9876543210";

fn s(text: &str) -> String {
    text.to_string()
}

#[test]
fn a_record_is_owed_for_every_valid_reference_and_asset() {
    let store = ThemeStore { root: s(r"D:\studio") };
    let good = ThemeRef { id: s(ID), revision: Some(1) };
    assert_eq!(store.record(&good, s("n"), ASSET).unwrap().id, format!("{ID}@1"));
    let high = ThemeRef { id: s(ID), revision: Some(u32::MAX) };
    assert_eq!(
        store.record(&high, s("n"), ASSET).unwrap().theme_version,
        format!("1.4.0-r{}", u32::MAX)
    );
    for bad in [
        ThemeRef { id: s(ID), revision: None },
        ThemeRef { id: s(ID), revision: Some(0) },
        ThemeRef { id: s("custom-v2-xyz"), revision: Some(1) },
    ] {
        assert_eq!(store.record(&bad, s("n"), ASSET).unwrap_err().code, "THEME_STORE_ERROR");
    }
    assert_eq!(store.record(&good, s("n"), "../assets").unwrap_err().code, "THEME_STORE_ERROR");
}

#[test]
fn the_live_update_script_quotes_the_id_and_stylesheet() {
    let expression = live_update_expression("custom-v2-a", "a{content:\"x\"}\n", 7);
    assert_eq!(
        expression,
        r#"(() => {const s=document.getElementById('codedrobe-theme-style-workbuddy');const runtime=window.__CODEDROBE__?.hosts?.workbuddy;if(!runtime?.updateCss?.("custom-v2-a","a{content:\"x\"}\n"))throw new Error('Live update unsupported');s.dataset.studioSequence='7';return true;})()"#
    );
    assert!(live_update_expression("t", "", 0).contains(r#"updateCss?.("t",""))"#));
}

#[test]
fn only_the_workbuddy_executable_is_accepted() {
    assert!(is_workbuddy_executable(r"C:\Program Files\WorkBuddy\WorkBuddy.exe"));
    assert!(is_workbuddy_executable(r"C:\WB\workbuddy.EXE"));
    assert!(is_workbuddy_executable("C:/WB/WorkBuddy.exe"));
    assert!(!is_workbuddy_executable(r"C:\WB\WorkBuddy.exe.bak"));
    assert!(!is_workbuddy_executable(r"C:\WorkBuddy.exe\Other.exe"));
    assert!(!is_workbuddy_executable(r"C:\WB\MyWorkBuddy.exe"));
    assert!(!is_workbuddy_executable(""));
}

#[test]
fn the_head_decides_whether_a_publication_committed() {
    assert_eq!(head_write_failure(Some(4), 4, true), HeadWriteOutcome::Committed);
    assert_eq!(
        head_write_failure(Some(3), 4, true),
        HeadWriteOutcome::Failed { recover_draft: true }
    );
    assert_eq!(
        head_write_failure(None, 4, false),
        HeadWriteOutcome::Failed { recover_draft: false }
    );
}

#[test]
fn a_failed_restore_withholds_the_captured_frame() {
    let restore_failed = || AppError::new("LIVE_PREVIEW_FAILED", "restore");
    let capture_failed = || AppError::new("CAPTURE", "capture");
    assert_eq!(capture_result(Ok(5), Ok(())).unwrap(), 5);
    assert_eq!(capture_result(Ok(5), Err(restore_failed())).unwrap_err().message, "restore");
    assert_eq!(capture_result::<u8>(Err(capture_failed()), Ok(())).unwrap_err().code, "CAPTURE");
    assert_eq!(
        capture_result::<u8>(Err(capture_failed()), Err(restore_failed())).unwrap_err().message,
        "restore"
    );
}
