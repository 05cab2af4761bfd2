//! Runtime compatibility of theme stylesheets with the renderer's page structure, and
//! the checks that decide whether an interrupted apply may be rolled back.
use vstd::prelude::*;
use crate::error::{AppError, AppResult};
use crate::live::{css_hash, lower_hex, sha256_digest};
use crate::text::{chars_of, contains, contains_seq, same_text};

verus! {

/// The adapter generation written into compiled stylesheets.
pub open spec fn adapter_version() -> Seq<char> {
    "workbuddy-164.1"@
}

/// The adapter stylesheets shipped with the theme runtime: aliases for image themes,
/// aliases for built-in palettes, and the shared component rules.
#[derive(Debug)]
pub struct CompatFragments {
    pub image: String,
    pub builtin: String,
    pub components: String,
}

/// A stylesheet as it is applied to a page structure.
#[derive(Debug)]
pub struct EffectiveTheme {
    pub original_hash: String,
    pub adapter_version: String,
    pub structure: String,
    pub css: String,
    pub final_hash: String,
}

/// The identity of a stylesheet text.
pub open spec fn hash_of(css: Seq<char>) -> Seq<char> {
    lower_hex(sha256_digest(vstd::utf8::encode_utf8(css)))
}

/// The stylesheet for `structure`: `legacy` pages take it unchanged; `cr-v1` pages get
/// the adapter marker, the aliases of the palette contract it declares (image first),
/// and the component rules; any other structure, or a `cr-v1` sheet with neither
/// contract, is refused with the code on the right.
pub open spec fn compat_css(css: Seq<char>, structure: Seq<char>, f: CompatFragments) -> Result<
    Seq<char>,
    Seq<char>,
> {
    if structure == "cr-v1"@ {
        if contains_seq(css, "--fusion-main-bg:"@) {
            Ok(css + "\n/* "@ + adapter_version() + " */\n"@ + f.image@ + "\n"@ + f.components@)
        } else if contains_seq(css, "--wb-theme-surface-composer-rgb:"@) {
            Ok(css + "\n/* "@ + adapter_version() + " */\n"@ + f.builtin@ + "\n"@ + f.components@)
        } else {
            Err("COMPAT_PALETTE_UNSUPPORTED"@)
        }
    } else if structure == "legacy"@ {
        Ok(css)
    } else {
        Err("COMPAT_STRUCTURE_UNSUPPORTED"@)
    }
}

/// Adapts `css` to the page `structure`, with the identities of the source and the
/// result.
pub fn compile(css: &str, structure: &str, fragments: &CompatFragments) -> (r: AppResult<EffectiveTheme>)
    ensures
        match compat_css(css@, structure@, *fragments) {
            Ok(out) => r matches Ok(t) && t.css@ == out && t.original_hash@ == hash_of(css@)
                && t.final_hash@ == hash_of(out) && t.structure@ == structure@ && t.adapter_version@
                == adapter_version(),
            Err(code) => r matches Err(e) && e.code@ == code,
        },
{
    let mut final_css = css.to_string();
    if same_text(structure, "cr-v1") {
        let v = chars_of(css);
        let image_marker = chars_of("--fusion-main-bg:");
        let builtin_marker = chars_of("--wb-theme-surface-composer-rgb:");
        let aliases = if contains(v.as_slice(), image_marker.as_slice()) {
            fragments.image.as_str()
        } else if contains(v.as_slice(), builtin_marker.as_slice()) {
            fragments.builtin.as_str()
        } else {
            return Err(AppError::new(
                "COMPAT_PALETTE_UNSUPPORTED",
                "此旧主题缺少已知配色契约，原文件未修改；请使用可适配主题或创建新版副本。",
            ));
        };
        final_css.append("\n/* ");
        final_css.append("workbuddy-164.1");
        final_css.append(" */\n");
        final_css.append(aliases);
        final_css.append("\n");
        final_css.append(fragments.components.as_str());
    } else if !same_text(structure, "legacy") {
        return Err(AppError::new("COMPAT_STRUCTURE_UNSUPPORTED", "当前页面结构尚未识别，未修改主题。"));
    }
    let original_hash = css_hash(css);
    let final_hash = css_hash(final_css.as_str());
    Ok(EffectiveTheme {
        original_hash,
        adapter_version: "workbuddy-164.1".to_string(),
        structure: structure.to_string(),
        css: final_css,
        final_hash,
    })
}

/// A legacy page gets the stylesheet byte for byte, so its identity is unchanged.
pub proof fn lemma_legacy_is_identity(css: Seq<char>, f: CompatFragments)
    ensures
        compat_css(css, "legacy"@, f) == Ok::<Seq<char>, Seq<char>>(css),
{
    assert("legacy"@ != "cr-v1"@) by {
        reveal_strlit("legacy");
        reveal_strlit("cr-v1");
        assert("legacy"@.len() != "cr-v1"@.len());
    }
}

/// On a `cr-v1` page a stylesheet is accepted exactly when it declares one of the two
/// palette contracts. The result keeps the stylesheet unchanged at its start, follows it
/// with the adapter marker and the aliases of its contract (image aliases where the image
/// contract is declared, built-in palette aliases otherwise), and always ends with the
/// shared component rules.
pub proof fn lemma_cr_v1_layout(css: Seq<char>, f: CompatFragments)
    ensures
        compat_css(css, "cr-v1"@, f) is Ok <==> (contains_seq(css, "--fusion-main-bg:"@)
            || contains_seq(css, "--wb-theme-surface-composer-rgb:"@)),
        compat_css(css, "cr-v1"@, f) matches Ok(out) ==> {
            &&& out == css + "\n/* workbuddy-164.1 */\n"@ + (if contains_seq(
                css,
                "--fusion-main-bg:"@,
            ) {
                f.image@
            } else {
                f.builtin@
            }) + "\n"@ + f.components@
            &&& out.take(css.len() as int) == css
            &&& out.len() > f.components@.len()
            &&& out.skip(out.len() - f.components@.len() - 1) == "\n"@ + f.components@
        },
{
    if let Ok(out) = compat_css(css, "cr-v1"@, f) {
        let aliases = if contains_seq(css, "--fusion-main-bg:"@) {
            f.image@
        } else {
            f.builtin@
        };
        let head = css + "\n/* "@ + adapter_version() + " */\n"@ + aliases;
        assert("\n/* "@ + adapter_version() + " */\n"@ =~= "\n/* workbuddy-164.1 */\n"@) by {
            reveal_strlit("\n/* ");
            reveal_strlit("workbuddy-164.1");
            reveal_strlit(" */\n");
            reveal_strlit("\n/* workbuddy-164.1 */\n");
        }
        assert(out =~= head + ("\n"@ + f.components@));
        assert("\n"@.len() == 1) by {
            reveal_strlit("\n");
        }
        assert(out.take(css.len() as int) =~= css);
        assert(out.skip(out.len() - f.components@.len() - 1) =~= "\n"@ + f.components@);
    }
}

/// Only the `legacy` and `cr-v1` page structures are known; any other structure is
/// refused as unsupported, and a `cr-v1` stylesheet without a palette contract is refused
/// as having an unsupported palette.
pub proof fn lemma_compat_refusals(css: Seq<char>, structure: Seq<char>, f: CompatFragments)
    ensures
        structure != "legacy"@ && structure != "cr-v1"@ ==> compat_css(css, structure, f)
            == Err::<Seq<char>, Seq<char>>("COMPAT_STRUCTURE_UNSUPPORTED"@),
        !contains_seq(css, "--fusion-main-bg:"@) && !contains_seq(
            css,
            "--wb-theme-surface-composer-rgb:"@,
        ) ==> compat_css(css, "cr-v1"@, f) == Err::<Seq<char>, Seq<char>>(
            "COMPAT_PALETTE_UNSUPPORTED"@,
        ),
{
}

/// The text of an optional string.
pub open spec fn opt_text(s: Option<&str>) -> Option<Seq<char>> {
    match s {
        Some(t) => Some(t@),
        None => None,
    }
}

/// The page still shows the state from before the apply: one theme node with the
/// previous theme and stylesheet (where there was none, both sides are absent).
pub open spec fn previous_shown(
    count: u64,
    id: Option<Seq<char>>,
    hash: Option<Seq<char>>,
    previous_id: Option<Seq<char>>,
    previous_hash: Option<Seq<char>>,
) -> bool {
    count == 1 && id == previous_id && hash == previous_hash
}

/// A rollback may touch the page only where it shows the previous state, no theme, or
/// exactly the candidate of the interrupted apply; anything else is an outside change.
pub open spec fn rollback_allowed(
    count: u64,
    id: Option<Seq<char>>,
    hash: Option<Seq<char>>,
    previous_id: Option<Seq<char>>,
    previous_hash: Option<Seq<char>>,
    candidate_id: Seq<char>,
    candidate_hash: Seq<char>,
) -> bool {
    ||| previous_shown(count, id, hash, previous_id, previous_hash)
    ||| count == 0
    ||| (count == 1 && id == Some(candidate_id) && hash == Some(candidate_hash))
}

fn same_opt(a: Option<&str>, b: Option<&str>) -> (r: bool)
    ensures
        r == (opt_text(a) == opt_text(b)),
{
    match (a, b) {
        (Some(x), Some(y)) => same_text(x, y),
        (None, None) => true,
        _ => false,
    }
}

/// Decides a rollback: `Ok(true)` when the previous state is still shown (nothing to
/// restore), `Ok(false)` when the page must be restored, and `APPLY_EXTERNAL_CHANGE`
/// when the page was changed by someone else.
pub fn rollback_check(
    count: u64,
    id: Option<&str>,
    hash: Option<&str>,
    previous_id: Option<&str>,
    previous_hash: Option<&str>,
    candidate_id: &str,
    candidate_hash: &str,
) -> (r: AppResult<bool>)
    ensures
        match r {
            Ok(shown) => shown == previous_shown(
                count,
                opt_text(id),
                opt_text(hash),
                opt_text(previous_id),
                opt_text(previous_hash),
            ) && rollback_allowed(
                count,
                opt_text(id),
                opt_text(hash),
                opt_text(previous_id),
                opt_text(previous_hash),
                candidate_id@,
                candidate_hash@,
            ),
            Err(e) => !rollback_allowed(
                count,
                opt_text(id),
                opt_text(hash),
                opt_text(previous_id),
                opt_text(previous_hash),
                candidate_id@,
                candidate_hash@,
            ) && e.code@ == "APPLY_EXTERNAL_CHANGE"@,
        },
{
    let previous_matches = count == 1 && same_opt(id, previous_id) && same_opt(hash, previous_hash);
    let candidate_matches = count == 1 && same_opt(id, Some(candidate_id)) && same_opt(
        hash,
        Some(candidate_hash),
    );
    if !previous_matches && !(count == 0 || candidate_matches) {
        return Err(AppError::new("APPLY_EXTERNAL_CHANGE", "恢复期间检测到外部样式变化，恢复记录已保留。"));
    }
    Ok(previous_matches)
}

/// After a rollback the page must show the previous theme with its stylesheet, or no
/// theme where there was none before.
pub fn restore_verified(
    count: u64,
    id: Option<&str>,
    hash: Option<&str>,
    previous_id: Option<&str>,
    previous_hash: Option<&str>,
) -> (r: AppResult<()>)
    ensures
        ({
            let ok = match previous_hash {
                Some(h) => previous_shown(count, opt_text(id), opt_text(hash), opt_text(previous_id), Some(h@)),
                None => count == 0,
            };
            match r {
                Ok(()) => ok,
                Err(e) => !ok && e.code@ == "RESTORE_VERIFY_FAILED"@,
            }
        }),
{
    let restored = match previous_hash {
        Some(h) => count == 1 && same_opt(id, previous_id) && same_opt(hash, Some(h)),
        None => count == 0,
    };
    if !restored {
        return Err(AppError::new("RESTORE_VERIFY_FAILED", "操作前效果尚未恢复，记录已保留。"));
    }
    Ok(())
}

/// Keeps the first failure code of an apply; later failures do not replace it.
pub fn record_apply_failure(original_error: &mut Option<String>, code: &str)
    ensures
        match *old(original_error) {
            Some(e) => *final(original_error) == Some(e),
            None => *final(original_error) matches Some(e) && e@ == code@,
        },
{
    if original_error.is_none() {
        *original_error = Some(code.to_string());
    }
}

/// Where the page had theme nodes before an apply: none means nothing to return to,
/// one is a theme to identify, more is refused.
pub fn baseline_count(count: u64) -> (r: AppResult<bool>)
    ensures
        match r {
            Ok(has_theme) => count <= 1 && has_theme == (count == 1),
            Err(e) => count > 1 && e.code@ == "STYLE_NODE_COUNT_INVALID"@,
        },
{
    if count == 0 {
        Ok(false)
    } else if count == 1 {
        Ok(true)
    } else {
        Err(AppError::new("STYLE_NODE_COUNT_INVALID", "主题节点重复，未覆盖。"))
    }
}

} // verus!
