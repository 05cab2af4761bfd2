//! Validation of a stored theme document before the library edits, saves or shows it.
use vstd::prelude::*;
use crate::color::{controls_in_range, parse_hex, parse_hex_color, validate_controls, ThemeControls};
use crate::error::{AppError, AppResult};
use crate::library::{check_id, check_theme_id, is_resource_id, is_theme_id, valid_name, validate_name};
use crate::region::{design_valid, validate, DesignAdvice};
use crate::text::{chars_of, contains, contains_seq};

verus! {

/// The parts of a theme document that validation reads. `style_check` is the verdict
/// on the style selection and image analysis of a version-3 document.
#[derive(Debug)]
pub struct DocumentCheck {
    pub schema_version: u32,
    pub style_check: AppResult<()>,
    pub draft_id: String,
    pub asset_id: String,
    pub name: String,
    pub controls: ThemeControls,
    pub design: Option<DesignAdvice>,
    pub background_samples: Vec<String>,
    pub theme_id: Option<String>,
    pub background: String,
    pub extracted_accent: String,
    pub css: String,
}

/// The code of the controls' failure, if they fail.
pub open spec fn controls_failure(c: ThemeControls) -> Option<Seq<char>> {
    if !controls_in_range(c) {
        Some("CUSTOM_THEME_CONTROLS_INVALID"@)
    } else {
        match c.accent {
            Some(a) => if parse_hex(a@) is None {
                Some("CUSTOM_THEME_ACCENT_INVALID"@)
            } else {
                None
            },
            None => None,
        }
    }
}

/// A stylesheet that could load outside content or close its style element.
pub open spec fn unsafe_css(css: Seq<char>) -> bool {
    contains_seq(css, "url("@) || contains_seq(css, "@import"@) || contains_seq(css, "</"@)
}

/// The code with which a document is refused, checked in this order: schema version,
/// style and analysis (version 3), identifiers and name, controls, presence and bounds
/// of the design, background samples (at most 256 colours), theme identifier, the
/// two document colours, and the stylesheet's safety. `None`: the document is valid.
pub open spec fn document_failure(d: DocumentCheck) -> Option<Seq<char>> {
    let store = "THEME_STORE_ERROR"@;
    if !(1 <= d.schema_version <= 3) {
        Some(store)
    } else if d.schema_version == 3 && d.style_check is Err {
        Some(d.style_check->Err_0.code@)
    } else if !is_resource_id(d.draft_id@) || !is_resource_id(d.asset_id@) || !valid_name(d.name@) {
        Some(store)
    } else if controls_failure(d.controls) is Some {
        controls_failure(d.controls)
    } else if d.schema_version >= 2 && d.design is None {
        Some(store)
    } else if d.design matches Some(g) && !design_valid(g) {
        Some("DESIGN_INVALID"@)
    } else if d.background_samples@.len() > 256 || exists|i: int|
        0 <= i < d.background_samples@.len() && parse_hex(
            (#[trigger] d.background_samples@[i])@,
        ) is None {
        Some(store)
    } else if d.theme_id matches Some(t) && !is_theme_id(t@) {
        Some(store)
    } else if parse_hex(d.background@) is None || parse_hex(d.extracted_accent@) is None {
        Some(store)
    } else if unsafe_css(d.css@) {
        Some(store)
    } else {
        None
    }
}

fn store_error(message: &str) -> (e: AppError)
    ensures
        e.code@ == "THEME_STORE_ERROR"@,
{
    AppError::new("THEME_STORE_ERROR", message)
}

fn samples_valid(samples: &Vec<String>) -> (r: bool)
    ensures
        r == (samples@.len() <= 256 && forall|i: int|
            0 <= i < samples@.len() ==> parse_hex((#[trigger] samples@[i])@) is Some),
{
    if samples.len() > 256 {
        return false;
    }
    let mut i: usize = 0;
    while i < samples.len()
        invariant
            i <= samples@.len(),
            forall|j: int| 0 <= j < i ==> parse_hex((#[trigger] samples@[j])@) is Some,
        decreases samples@.len() - i,
    {
        if parse_hex_color(samples[i].as_str()).is_none() {
            return false;
        }
        i = i + 1;
    }
    true
}

fn css_safe(css: &str) -> (r: bool)
    ensures
        r == !unsafe_css(css@),
{
    let v = chars_of(css);
    let a = chars_of("url(");
    let b = chars_of("@import");
    let c = chars_of("</");
    !(contains(v.as_slice(), a.as_slice()) || contains(v.as_slice(), b.as_slice()) || contains(
        v.as_slice(),
        c.as_slice(),
    ))
}

/// Refuses a document that the library must not edit, save or show; the asset file's
/// place on disk is checked by the caller.
pub fn validate_document(d: &DocumentCheck) -> (r: AppResult<()>)
    ensures
        match r {
            Ok(()) => document_failure(*d) is None,
            Err(e) => document_failure(*d) == Some(e.code@),
        },
{
    if d.schema_version < 1 || d.schema_version > 3 {
        return Err(store_error("此主题文档版本暂不支持编辑。"));
    }
    if d.schema_version == 3 {
        match &d.style_check {
            Err(e) => {
                return Err(AppError::new(e.code.as_str(), e.message.as_str()));
            },
            Ok(()) => {},
        }
    }
    check_id(d.draft_id.as_str())?;
    check_id(d.asset_id.as_str())?;
    validate_name(d.name.as_str())?;
    validate_controls(&d.controls)?;
    if d.schema_version >= 2 && d.design.is_none() {
        return Err(store_error("分区主题缺少设计参数。"));
    }
    match &d.design {
        Some(g) => validate(g)?,
        None => {},
    }
    if !samples_valid(&d.background_samples) {
        return Err(store_error("图片分析数据无效。"));
    }
    match &d.theme_id {
        Some(t) => check_theme_id(t.as_str())?,
        None => {},
    }
    if parse_hex_color(d.background.as_str()).is_none() || parse_hex_color(
        d.extracted_accent.as_str(),
    ).is_none() {
        return Err(store_error("主题颜色无效。"));
    }
    if !css_safe(d.css.as_str()) {
        return Err(store_error("主题文档包含不安全样式。"));
    }
    Ok(())
}


/// The design a fusion copy starts from: the original's focus with the veil removed,
/// and whether that focus was moved off the centre (and so counts as a manual choice).
pub fn fusion_copy_position(design: Option<DesignAdvice>) -> (r: (Option<DesignAdvice>, bool))
    ensures
        match design {
            Some(d) => r.0 matches Some(p) && p == (DesignAdvice { veil: 0, ..d }) && r.1 == (
            d.background_x != 50 || d.background_y != 50),
            None => r.0 is None && !r.1,
        },
{
    match design {
        Some(d) => {
            let moved = d.background_x != 50 || d.background_y != 50;
            let mut p = d;
            p.veil = 0;
            (Some(p), moved)
        },
        None => (None, false),
    }
}

} // verus!
