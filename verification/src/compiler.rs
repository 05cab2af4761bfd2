//! Upgrades of compiled draft stylesheets that keep the source image and parameters.
use vstd::prelude::*;
use crate::error::{AppError, AppResult};
use crate::text::{chars_of, contains, contains_seq, replace_all, replace_text, same_text};

verus! {

/// The parts of a draft document that a stylesheet upgrade reads and writes.
#[derive(Debug)]
pub struct DraftStyle {
    pub schema_version: u32,
    pub template_version: String,
    pub css: String,
    pub corrections: Vec<String>,
    pub edit_sequence: u64,
    pub saved_sequence: Option<u64>,
}

/// The selector list of the old template, whose menu bar rule outranked the panels.
pub open spec fn old_selector() -> Seq<char> {
    ".workbuddy-topbar,#workbuddy-menubar-container,.wb-home-page"@
}

/// The same selector list with the menu bar rule weakened.
pub open spec fn new_selector() -> Seq<char> {
    ".workbuddy-topbar,:where(#workbuddy-menubar-container),.wb-home-page"@
}

/// The note recorded for the upgrade.
pub open spec fn repair_note() -> Seq<char> {
    "已修复 1.6.0 背景遮挡和面板优先级；保留原图与参数，需重新预览并保存，旧修订未覆盖。"@
}

/// The stylesheet after the upgrade: the selector weakened everywhere, and the
/// background patch appended unless it is already there.
pub open spec fn repaired_css(css: Seq<char>, patch: Seq<char>) -> Seq<char> {
    let replaced = replace_all(css, old_selector(), new_selector());
    if contains_seq(replaced, patch) {
        replaced
    } else {
        replaced + patch
    }
}

/// The background repair applies to a version-3 draft compiled with template `v3.1`.
pub open spec fn repair_applies(d: DraftStyle) -> bool {
    d.schema_version == 3 && d.template_version@ == "workbuddy-5.2.6-offline-v3.1"@
}

/// Upgrades a version-3 draft compiled with template `v3.1`: the stylesheet is
/// repaired, the template becomes `v3.2`, the upgrade is noted, and the draft counts as
/// a new unsaved edit. Any other draft is left alone (`false`).
pub fn repair_draft_background(doc: &mut DraftStyle, patch: &str) -> (r: AppResult<bool>)
    ensures
        ({
            let o = *old(doc);
            let f = *final(doc);
            let applies = repair_applies(o);
            match r {
                Ok(false) => !applies && f == o,
                Ok(true) => {
                    &&& applies
                    &&& o.edit_sequence < u64::MAX
                    &&& f.schema_version == 3
                    &&& f.css@ == repaired_css(o.css@, patch@)
                    &&& f.template_version@ == "workbuddy-5.2.6-offline-v3.2"@
                    &&& f.corrections@.len() == o.corrections@.len() + 1
                    &&& f.corrections@.take(o.corrections@.len() as int) == o.corrections@
                    &&& f.corrections@.last()@ == repair_note()
                    &&& f.edit_sequence == o.edit_sequence + 1
                    &&& f.saved_sequence is None
                },
                Err(e) => applies && o.edit_sequence == u64::MAX && f == o && e.code@
                    == "THEME_STORE_ERROR"@,
            }
        }),
{
    if doc.schema_version != 3 || !same_text(
        doc.template_version.as_str(),
        "workbuddy-5.2.6-offline-v3.1",
    ) {
        return Ok(false);
    }
    let next = match doc.edit_sequence.checked_add(1) {
        Some(n) => n,
        None => {
            return Err(AppError::new("THEME_STORE_ERROR", "草稿序号溢出，未修改原稿。"));
        },
    };
    proof {
        reveal_strlit(".workbuddy-topbar,#workbuddy-menubar-container,.wb-home-page");
    }
    let mut css = replace_text(
        doc.css.as_str(),
        ".workbuddy-topbar,#workbuddy-menubar-container,.wb-home-page",
        ".workbuddy-topbar,:where(#workbuddy-menubar-container),.wb-home-page",
    );
    let current = chars_of(css.as_str());
    let wanted = chars_of(patch);
    if !contains(current.as_slice(), wanted.as_slice()) {
        css.append(patch);
    }
    doc.css = css;
    doc.template_version = "workbuddy-5.2.6-offline-v3.2".to_string();
    let ghost before = doc.corrections@;
    doc.corrections.push(
        "已修复 1.6.0 背景遮挡和面板优先级；保留原图与参数，需重新预览并保存，旧修订未覆盖。".to_string(),
    );
    assert(doc.corrections@.take(before.len() as int) =~= before);
    doc.edit_sequence = next;
    doc.saved_sequence = None;
    Ok(true)
}

/// The background repair happens once: a draft it upgraded (now on template `v3.2`) is
/// never upgraded again.
pub proof fn lemma_repair_once(d: DraftStyle)
    requires
        d.template_version@ == "workbuddy-5.2.6-offline-v3.2"@,
    ensures
        !repair_applies(d),
{
    reveal_strlit("workbuddy-5.2.6-offline-v3.1");
    reveal_strlit("workbuddy-5.2.6-offline-v3.2");
    assert("workbuddy-5.2.6-offline-v3.1"@[27] != "workbuddy-5.2.6-offline-v3.2"@[27]);
}

} // verus!
