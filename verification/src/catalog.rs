//! The catalog of built-in themes: its paths, how a requested theme identifier is
//! resolved, how catalog themes are listed and named, and what a theme package carries.
use vstd::prelude::*;
use crate::error::{AppError, AppResult};
use crate::paths::{backslashed, escapes_root, resolve_resource_path};
use crate::json::JsonValue;
use crate::library::{parse_runtime_id, ref_key, reference_from_runtime, ThemeRef};
use crate::store::{LibraryItem, ThemeRecord};
use crate::text::{chars_of, has_prefix, join_path, same_text, starts_with, trim, trim_chars};

verus! {

/// A catalog entry names the theme and the identifier it runs under.
pub open spec fn entry_named(t: ThemeRecord) -> bool {
    trim(t.id@).len() > 0 && trim(t.runtime_theme_id@).len() > 0
}

/// A catalog entry whose package and preview stay inside the resource root.
pub open spec fn entry_contained(t: ThemeRecord) -> bool {
    !escapes_root(t.package_path@) && !escapes_root(t.preview_path@)
}

/// A usable catalog: not empty, every entry named, every resource path contained.
pub open spec fn catalog_valid(themes: Seq<ThemeRecord>) -> bool {
    &&& themes.len() > 0
    &&& forall|i: int| 0 <= i < themes.len() ==> entry_named(#[trigger] themes[i])
    &&& forall|i: int| 0 <= i < themes.len() ==> entry_contained(#[trigger] themes[i])
}

fn catalog_failed(message: &str) -> (e: AppError)
    ensures
        e.code@ == "THEME_CATALOG_FAILED"@,
{
    AppError::new("THEME_CATALOG_FAILED", message)
}

/// The package and preview paths of every catalog entry under `root`, in order; a
/// catalog that is empty, has an unnamed entry, or a path leaving `root` is refused.
/// The caller checks that the files exist.
pub fn catalog_paths(root: &str, themes: &Vec<ThemeRecord>) -> (r: AppResult<Vec<(String, String)>>)
    ensures
        match r {
            Ok(paths) => catalog_valid(themes@) && paths@.len() == themes@.len() && forall|i: int|
                0 <= i < paths@.len() ==> (#[trigger] paths@[i]).0@ == join_path(
                    root@,
                    backslashed(themes@[i].package_path@),
                ) && paths@[i].1@ == join_path(root@, backslashed(themes@[i].preview_path@)),
            Err(e) => !catalog_valid(themes@) && e.code@ == "THEME_CATALOG_FAILED"@,
        },
{
    if themes.len() == 0 {
        return Err(catalog_failed("主题清单缺少必要字段。"));
    }
    let mut i: usize = 0;
    while i < themes.len()
        invariant
            i <= themes@.len(),
            forall|j: int| 0 <= j < i ==> entry_named(#[trigger] themes@[j]),
        decreases themes@.len() - i,
    {
        let id = trim_chars(chars_of(themes[i].id.as_str()).as_slice());
        let runtime = trim_chars(chars_of(themes[i].runtime_theme_id.as_str()).as_slice());
        if id.len() == 0 || runtime.len() == 0 {
            assert(!entry_named(themes@[i as int]));
            return Err(catalog_failed("主题清单缺少必要字段。"));
        }
        i = i + 1;
    }
    let mut paths: Vec<(String, String)> = Vec::new();
    let mut k: usize = 0;
    while k < themes.len()
        invariant
            k <= themes@.len(),
            themes@.len() > 0,
            forall|j: int| 0 <= j < themes@.len() ==> entry_named(#[trigger] themes@[j]),
            forall|j: int| 0 <= j < k ==> entry_contained(#[trigger] themes@[j]),
            paths@.len() == k,
            forall|j: int|
                0 <= j < k ==> (#[trigger] paths@[j]).0@ == join_path(
                    root@,
                    backslashed(themes@[j].package_path@),
                ) && paths@[j].1@ == join_path(root@, backslashed(themes@[j].preview_path@)),
        decreases themes@.len() - k,
    {
        let package = match resolve_resource_path(root, themes[k].package_path.as_str()) {
            Ok(p) => p,
            Err(_) => {
                assert(!entry_contained(themes@[k as int]));
                return Err(catalog_failed("主题清单包含不安全的资源路径。"));
            },
        };
        let preview = match resolve_resource_path(root, themes[k].preview_path.as_str()) {
            Ok(p) => p,
            Err(_) => {
                assert(!entry_contained(themes@[k as int]));
                return Err(catalog_failed("主题清单包含不安全的资源路径。"));
            },
        };
        paths.push((package, preview));
        k = k + 1;
    }
    Ok(paths)
}

/// Where a requested theme comes from.
#[derive(PartialEq, Eq, Structural, Clone, Copy, Debug)]
pub enum ThemeSource {
    /// A running trial (`trial-…`).
    Trial,
    /// A revision of the theme library (`custom-v2-…`).
    Library,
    /// The built-in and earlier custom catalog.
    Catalog,
}

/// The source of a requested theme identifier, by its prefix.
pub fn theme_source(requested_id: &str) -> (r: ThemeSource)
    ensures
        r == if has_prefix(requested_id@, "trial-"@) {
            ThemeSource::Trial
        } else if has_prefix(requested_id@, "custom-v2-"@) {
            ThemeSource::Library
        } else {
            ThemeSource::Catalog
        },
{
    let v = chars_of(requested_id);
    if starts_with(v.as_slice(), chars_of("trial-").as_slice()) {
        ThemeSource::Trial
    } else if starts_with(v.as_slice(), chars_of("custom-v2-").as_slice()) {
        ThemeSource::Library
    } else {
        ThemeSource::Catalog
    }
}

/// The WorkBuddy stylesheet of a theme package: the text at `/targets/workbuddy/css`.
pub open spec fn package_css_of(package: JsonValue) -> Option<Seq<char>> {
    match package.field("targets"@) {
        Some(targets) => match targets.field("workbuddy"@) {
            Some(host) => match host.field("css"@) {
                Some(css) => css.text(),
                None => None,
            },
            None => None,
        },
        None => None,
    }
}

/// The WorkBuddy stylesheet that a theme package carries, if it carries one.
pub fn package_css(package: &JsonValue) -> (r: Option<String>)
    ensures
        match r {
            Some(css) => package_css_of(*package) == Some(css@),
            None => package_css_of(*package) is None,
        },
{
    let targets = match package.get("targets") {
        Some(t) => t,
        None => {
            return None;
        },
    };
    let host = match targets.get("workbuddy") {
        Some(h) => h,
        None => {
            return None;
        },
    };
    match host.get("css") {
        Some(JsonValue::Str(css)) => Some(css.clone()),
        _ => None,
    }
}

/// The catalog themes the library list shows beside its own: all but the library's
/// revisions (`custom-v2-…`), in order.
pub open spec fn catalog_shown(themes: Seq<ThemeRecord>) -> Seq<ThemeRecord>
    decreases themes.len(),
{
    if themes.len() == 0 {
        Seq::empty()
    } else {
        let rest = catalog_shown(themes.drop_last());
        if has_prefix(themes.last().id@, "custom-v2-"@) {
            rest
        } else {
            rest.push(themes.last())
        }
    }
}

/// The list entry of a catalog theme: unpinned, read-only, verified when applied.
pub open spec fn catalog_item(t: ThemeRecord, it: LibraryItem) -> bool {
    &&& it.reference.id@ == t.id@
    &&& it.reference.revision is None
    &&& it.name@ == t.name@
    &&& it.description@ == t.description@
    &&& it.preview_path@ == t.preview_path@
    &&& !it.editable
    &&& it.is_custom == t.is_custom
    &&& it.compatibility@ == "内置/旧主题；应用时运行验证"@
}

/// The library list entries of the catalog themes.
pub fn catalog_items(themes: &Vec<ThemeRecord>) -> (r: Vec<LibraryItem>)
    ensures
        r@.len() == catalog_shown(themes@).len(),
        forall|i: int| 0 <= i < r@.len() ==> catalog_item(catalog_shown(themes@)[i], #[trigger] r@[i]),
{
    let mut out: Vec<LibraryItem> = Vec::new();
    let mut k: usize = 0;
    let prefix = chars_of("custom-v2-");
    assert(themes@.take(0) =~= Seq::<ThemeRecord>::empty());
    while k < themes.len()
        invariant
            k <= themes@.len(),
            prefix@ == "custom-v2-"@,
            out@.len() == catalog_shown(themes@.take(k as int)).len(),
            forall|i: int|
                0 <= i < out@.len() ==> catalog_item(
                    catalog_shown(themes@.take(k as int))[i],
                    #[trigger] out@[i],
                ),
        decreases themes@.len() - k,
    {
        let t = &themes[k];
        assert(themes@.take(k + 1).drop_last() =~= themes@.take(k as int));
        assert(themes@.take(k + 1).last() == themes@[k as int]);
        let id = chars_of(t.id.as_str());
        if !starts_with(id.as_slice(), prefix.as_slice()) {
            out.push(
                LibraryItem {
                    reference: ThemeRef { id: t.id.clone(), revision: None },
                    name: t.name.clone(),
                    description: t.description.clone(),
                    preview_path: t.preview_path.clone(),
                    editable: false,
                    is_custom: t.is_custom,
                    compatibility: "内置/旧主题；应用时运行验证".to_string(),
                },
            );
        }
        k = k + 1;
    }
    assert(themes@.take(themes@.len() as int) =~= themes@);
    out
}

/// The first catalog theme that runs under `runtime_id`.
pub open spec fn runtime_owner(catalog: Seq<ThemeRecord>, runtime_id: Seq<char>) -> Option<Seq<char>>
    decreases catalog.len(),
{
    if catalog.len() == 0 {
        None
    } else if catalog[0].runtime_theme_id@ == runtime_id {
        Some(catalog[0].id@)
    } else {
        runtime_owner(catalog.skip(1), runtime_id)
    }
}

/// The key of the theme a page shows under `runtime_id`: the catalog theme that runs
/// under it, else the library revision it names, else the runtime id itself.
pub open spec fn theme_key_of(catalog: Seq<ThemeRecord>, runtime_id: Seq<char>) -> Seq<char> {
    match runtime_owner(catalog, runtime_id) {
        Some(id) => id,
        None => match parse_runtime_id(runtime_id) {
            Some((id, revision)) => ref_key(id, Some(revision)),
            None => runtime_id,
        },
    }
}

/// The key of the theme the page shows under `runtime_id`.
pub fn current_theme_key(catalog: &Vec<ThemeRecord>, runtime_id: &str) -> (r: String)
    ensures
        r@ == theme_key_of(catalog@, runtime_id@),
{
    let mut k: usize = 0;
    assert(catalog@.skip(0) =~= catalog@);
    while k < catalog.len()
        invariant
            k <= catalog@.len(),
            runtime_owner(catalog@, runtime_id@) == runtime_owner(catalog@.skip(k as int), runtime_id@),
        decreases catalog@.len() - k,
    {
        assert(catalog@.skip(k as int).skip(1) =~= catalog@.skip(k + 1));
        assert(catalog@.skip(k as int)[0] == catalog@[k as int]);
        if same_text(catalog[k].runtime_theme_id.as_str(), runtime_id) {
            return catalog[k].id.clone();
        }
        k = k + 1;
    }
    match reference_from_runtime(runtime_id) {
        Some(reference) => reference.key(),
        None => runtime_id.to_string(),
    }
}

/// What the status line says of WorkBuddy: not running, running without its debugging
/// port, or connected with a theme or with its original look.
pub fn status_message(running: bool, cdp_available: bool, themed: bool) -> (r: &'static str)
    ensures
        r@ == if !running {
            "WorkBuddy 未运行；应用或试用前请确认启动。"@
        } else if !cdp_available {
            "WorkBuddy 正在运行，但未开放 CDP；请在切换器中确认重启。"@
        } else if themed {
            "已连接 WorkBuddy，检测到 CodeDrobe 主题。"@
        } else {
            "已连接 WorkBuddy，当前为原版状态。"@
        },
{
    if !running {
        "WorkBuddy 未运行；应用或试用前请确认启动。"
    } else if !cdp_available {
        "WorkBuddy 正在运行，但未开放 CDP；请在切换器中确认重启。"
    } else if themed {
        "已连接 WorkBuddy，检测到 CodeDrobe 主题。"
    } else {
        "已连接 WorkBuddy，当前为原版状态。"
    }
}

} // verus!
