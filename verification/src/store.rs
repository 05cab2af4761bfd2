//! The on-disk layout of the theme library and the decisions around its files: every
//! path is derived from validated identifiers, revisions are numbered without reuse,
//! and the library lists themes in name order. Reading and writing the files is the
//! application's part.
use vstd::prelude::*;
use crate::error::{AppError, AppResult};
use crate::library::{
    check_id, check_theme_id, is_resource_id, is_theme_id, ref_key, runtime_id, runtime_id_of,
    valid_name, validate_name, parse_ref, ThemeRef,
};
use crate::text::{decimal, decimal_string, join, join_path, same_text, trim};

verus! {

fn store_error(message: &str) -> (e: AppError)
    ensures
        e.code@ == "THEME_STORE_ERROR"@,
{
    AppError::new("THEME_STORE_ERROR", message)
}

/// A lowercase hexadecimal digit.
pub open spec fn is_lower_hex(c: char) -> bool {
    ('0' <= c && c <= '9') || ('a' <= c && c <= 'f')
}

/// `uuid::Uuid::new_v4().simple().to_string()`: a random identifier, 32 lowercase
/// hexadecimal digits. Which digits come out is not stated.
#[verifier::external_body]
fn new_id() -> (r: String)
    ensures
        r@.len() == 32,
        forall|i: int| 0 <= i < r@.len() ==> is_lower_hex(#[trigger] r@[i]),
{
    uuid::Uuid::new_v4().simple().to_string()
}

/// A fresh resource identifier.
pub fn fresh_resource_id() -> (r: String)
    ensures
        is_resource_id(r@),
{
    let r = new_id();
    assert forall|i: int| 0 <= i < r@.len() implies crate::library::is_hex(#[trigger] r@[i]) by {
        assert(is_lower_hex(r@[i]));
    }
    r
}

/// A catalog entry of a theme that can be applied.
#[derive(Debug)]
pub struct ThemeRecord {
    pub id: String,
    pub name: String,
    pub description: String,
    pub package_path: String,
    pub preview_path: String,
    pub verified_work_buddy_version: String,
    pub theme_version: String,
    pub runtime_theme_id: String,
    pub is_custom: bool,
}

/// The asset files a theme may have.
pub open spec fn allowed_asset(name: Seq<char>) -> bool {
    name == "hero.jpg"@ || name == "thumbnail.jpg"@ || name == "source.jpg"@ || name
        == "source.png"@ || name == "source.webp"@
}

/// `a\b\c`.
pub open spec fn join3(a: Seq<char>, b: Seq<char>, c: Seq<char>) -> Seq<char> {
    join_path(join_path(a, b), c)
}

/// The directory of revision `r`.
pub open spec fn revision_name(r: u32) -> Seq<char> {
    seq!['r'] + decimal(r as nat)
}

/// The theme library rooted at `root`.
#[derive(Debug)]
pub struct ThemeStore {
    pub root: String,
}

impl ThemeStore {
    /// The library of an installation whose data lives under `runtime_root`.
    pub fn production(runtime_root: &str) -> (r: ThemeStore)
        ensures
            r.root@ == join_path(runtime_root@, "studio"@),
    {
        ThemeStore { root: join(runtime_root, "studio") }
    }

    /// `drafts\<id>.json`.
    pub fn draft_path(&self, id: &str) -> (r: AppResult<String>)
        ensures
            match r {
                Ok(p) => is_resource_id(id@) && p@ == join3(self.root@, "drafts"@, id@ + ".json"@),
                Err(e) => !is_resource_id(id@) && e.code@ == "THEME_STORE_ERROR"@,
            },
    {
        check_id(id)?;
        let dir = join(self.root.as_str(), "drafts");
        let mut file = id.to_string();
        file.append(".json");
        Ok(join(dir.as_str(), file.as_str()))
    }

    /// `assets\<id>`.
    pub fn asset_dir(&self, id: &str) -> (r: AppResult<String>)
        ensures
            match r {
                Ok(p) => is_resource_id(id@) && p@ == join3(self.root@, "assets"@, id@),
                Err(e) => !is_resource_id(id@) && e.code@ == "THEME_STORE_ERROR"@,
            },
    {
        check_id(id)?;
        let dir = join(self.root.as_str(), "assets");
        Ok(join(dir.as_str(), id))
    }

    /// `library\<theme id>`.
    pub fn theme_dir(&self, id: &str) -> (r: AppResult<String>)
        ensures
            match r {
                Ok(p) => is_theme_id(id@) && p@ == join3(self.root@, "library"@, id@),
                Err(e) => !is_theme_id(id@) && e.code@ == "THEME_STORE_ERROR"@,
            },
    {
        check_theme_id(id)?;
        let dir = join(self.root.as_str(), "library");
        Ok(join(dir.as_str(), id))
    }

    /// `library\<theme id>\head.json`, the published revision of a theme.
    pub fn head_path(&self, id: &str) -> (r: AppResult<String>)
        ensures
            match r {
                Ok(p) => is_theme_id(id@) && p@ == join_path(
                    join3(self.root@, "library"@, id@),
                    "head.json"@,
                ),
                Err(e) => !is_theme_id(id@) && e.code@ == "THEME_STORE_ERROR"@,
            },
    {
        let dir = self.theme_dir(id)?;
        Ok(join(dir.as_str(), "head.json"))
    }

    /// `library\<theme id>\r<revision>`; the reference must pin a positive revision.
    pub fn revision_dir(&self, reference: &ThemeRef) -> (r: AppResult<String>)
        ensures
            match r {
                Ok(p) => reference.revision matches Some(v) && v > 0 && is_theme_id(
                    reference.id@,
                ) && p@ == join_path(
                    join3(self.root@, "library"@, reference.id@),
                    revision_name(v),
                ),
                Err(e) => e.code@ == "THEME_STORE_ERROR"@ && !(reference.revision matches Some(v)
                    && v > 0 && is_theme_id(reference.id@)),
            },
    {
        let revision = match reference.revision {
            Some(v) => {
                if v == 0 {
                    return Err(store_error("缺少主题修订号。"));
                }
                v
            },
            None => {
                return Err(store_error("缺少主题修订号。"));
            },
        };
        let dir = self.theme_dir(reference.id.as_str())?;
        let mut name = "r".to_string();
        name.append(decimal_string(revision as u64).as_str());
        assert(name@ =~= revision_name(revision)) by {
            reveal_strlit("r");
        }
        Ok(join(dir.as_str(), name.as_str()))
    }

    /// `save-transactions\<id>.json`, the journal of a save in progress.
    pub fn pending_save_path(&self, id: &str) -> (r: AppResult<String>)
        ensures
            match r {
                Ok(p) => is_resource_id(id@) && p@ == join3(
                    self.root@,
                    "save-transactions"@,
                    id@ + ".json"@,
                ),
                Err(e) => !is_resource_id(id@) && e.code@ == "THEME_STORE_ERROR"@,
            },
    {
        check_id(id)?;
        let dir = join(self.root.as_str(), "save-transactions");
        let mut file = id.to_string();
        file.append(".json");
        Ok(join(dir.as_str(), file.as_str()))
    }

    /// An asset file of a draft: only the known asset names, inside its asset directory.
    /// The caller resolves the path on disk and confirms it stays under the root.
    pub fn asset_file(&self, id: &str, name: &str) -> (r: AppResult<String>)
        ensures
            match r {
                Ok(p) => allowed_asset(name@) && is_resource_id(id@) && p@ == join_path(
                    join3(self.root@, "assets"@, id@),
                    name@,
                ),
                Err(e) => e.code@ == "THEME_STORE_ERROR"@ && !(allowed_asset(name@)
                    && is_resource_id(id@)),
            },
    {
        if !(same_text(name, "hero.jpg") || same_text(name, "thumbnail.jpg") || same_text(
            name,
            "source.jpg",
        ) || same_text(name, "source.png") || same_text(name, "source.webp")) {
            return Err(store_error("不允许的资源文件。"));
        }
        let dir = self.asset_dir(id)?;
        Ok(join(dir.as_str(), name))
    }

    /// The catalog entry of a published revision whose document names the theme `name`
    /// and uses the asset `asset_id`.
    pub fn record(&self, reference: &ThemeRef, name: String, asset_id: &str) -> (r: AppResult<ThemeRecord>)
        ensures
            match r {
                Ok(t) => reference.revision matches Some(v) && v > 0 && is_theme_id(reference.id@)
                    && is_resource_id(asset_id@) && t.id@ == ref_key(reference.id@, reference.revision)
                    && t.name == name && t.description@ == "图片主题 · 可继续编辑"@ && t.package_path@
                    == join_path(
                    join_path(join3(self.root@, "library"@, reference.id@), revision_name(v)),
                    "theme.codedrobe-theme"@,
                ) && t.preview_path@ == join_path(
                    join3(self.root@, "assets"@, asset_id@),
                    "hero.jpg"@,
                ) && t.verified_work_buddy_version@ == "5.2.6 样板；运行时验证"@ && t.theme_version@
                    == "1.4.0-r"@ + decimal(v as nat) && t.runtime_theme_id@ == runtime_id_of(
                    reference.id@,
                    reference.revision,
                ) && t.is_custom,
                Err(e) => e.code@ == "THEME_STORE_ERROR"@ && !(reference.revision matches Some(v)
                    && v > 0 && is_theme_id(reference.id@) && is_resource_id(asset_id@)),
            },
    {
        let dir = self.revision_dir(reference)?;
        let revision = match reference.revision {
            Some(v) => v,
            None => {
                return Err(store_error("缺少主题修订号。"));
            },
        };
        let package_path = join(dir.as_str(), "theme.codedrobe-theme");
        let preview_path = self.asset_file(asset_id, "hero.jpg")?;
        let mut theme_version = "1.4.0-r".to_string();
        theme_version.append(decimal_string(revision as u64).as_str());
        Ok(ThemeRecord {
            id: reference.key(),
            name,
            description: "图片主题 · 可继续编辑".to_string(),
            package_path,
            preview_path,
            verified_work_buddy_version: "5.2.6 样板；运行时验证".to_string(),
            theme_version,
            runtime_theme_id: runtime_id(reference),
            is_custom: true,
        })
    }

    /// Where deleting theme `id` moves it: from its library directory to a fresh name
    /// `<id>-<random id>` under `trash`. The caller checks that the source exists and
    /// lies directly in the library before moving it.
    pub fn trash(&self, id: &str) -> (r: AppResult<(String, String, String)>)
        ensures
            match r {
                Ok((source, trash, destination)) => is_theme_id(id@) && source@ == join3(
                    self.root@,
                    "library"@,
                    id@,
                ) && trash@ == join_path(self.root@, "trash"@) && exists|suffix: Seq<char>|
                    is_resource_id(suffix) && destination@ == join_path(
                        trash@,
                        id@ + seq!['-'] + suffix,
                    ),
                Err(e) => !is_theme_id(id@) && e.code@ == "THEME_STORE_ERROR"@,
            },
    {
        let source = self.theme_dir(id)?;
        let trash = join(self.root.as_str(), "trash");
        let suffix = new_id();
        let mut name = id.to_string();
        crate::text::push_char(&mut name, '-');
        name.append(suffix.as_str());
        let destination = join(trash.as_str(), name.as_str());
        assert(name@ =~= id@ + seq!['-'] + suffix@);
        assert forall|i: int| 0 <= i < suffix@.len() implies crate::library::is_hex(
            #[trigger] suffix@[i],
        ) by {
            assert(is_lower_hex(suffix@[i]));
        }
        assert(is_resource_id(suffix@));
        Ok((source, trash, destination))
    }

    /// A new name for a published theme: the validated name, and the edit sequence after
    /// `edit_sequence`.
    pub fn rename(&self, name: &str, edit_sequence: u64) -> (r: AppResult<(String, u64)>)
        ensures
            match r {
                Ok((n, s)) => valid_name(name@) && n@ == trim(name@) && s == edit_sequence + 1,
                Err(e) => e.code@ == "THEME_STORE_ERROR"@ && (!valid_name(name@) || edit_sequence
                    == u64::MAX),
            },
    {
        let name = validate_name(name)?;
        match edit_sequence.checked_add(1) {
            Some(s) => Ok((name, s)),
            None => Err(store_error("草稿序号溢出。")),
        }
    }
}

/// A pinned revision may be read as published when it is at most the head and, unless it
/// is the head, its publication completed (no pending marker is left).
pub fn published_revision_check(revision: Option<u32>, head: Option<u32>, pending_marker: bool) -> (r:
    AppResult<u32>)
    ensures
        match r {
            Ok(v) => revision == Some(v) && (head matches Some(h) && v <= h && (v == h
                || !pending_marker)),
            Err(e) => e.code@ == "THEME_STORE_ERROR"@ && !(revision matches Some(v) && head matches Some(
                h,
            ) && v <= h && (v == h || !pending_marker)),
        },
{
    let v = match revision {
        Some(v) => v,
        None => {
            return Err(store_error("缺少主题修订号。"));
        },
    };
    let h = match head {
        Some(h) => h,
        None => {
            return Err(store_error("主题尚未发布。"));
        },
    };
    if v > h || (v != h && pending_marker) {
        return Err(store_error("草稿引用的修订尚未发布，请重新保存。"));
    }
    Ok(v)
}

/// The revision a save publishes: the first number after the head that no revision
/// directory uses yet (a crash may have left some behind).
pub open spec fn fresh_revision(last: u32, existing: Seq<u32>, r: u32) -> bool {
    &&& r > last
    &&& !existing.contains(r)
    &&& forall|k: u32| last < k < r ==> existing.contains(k)
}

fn contains_u32(v: &[u32], x: u32) -> (r: bool)
    ensures
        r == v@.contains(x),
{
    let mut i: usize = 0;
    while i < v.len()
        invariant
            i <= v@.len(),
            forall|j: int| 0 <= j < i ==> v@[j] != x,
        decreases v@.len() - i,
    {
        if v[i] == x {
            assert(v@[i as int] == x);
            return true;
        }
        i = i + 1;
    }
    false
}

/// What a publication does when writing `head.json` reported a failure.
#[derive(PartialEq, Eq, Structural, Clone, Copy, Debug)]
pub enum HeadWriteOutcome {
    /// The head names the new revision after all: the publication committed.
    Committed,
    /// The publication failed; the draft is put back first where it was rewritten.
    Failed { recover_draft: bool },
}

/// The head is the sole commit point: after a failed head write, the publication of
/// `revision` committed exactly when the head read back (`head_now`) names it; otherwise
/// it fails, restoring the draft where the save had rewritten it (`draft_rewritten`).
pub fn head_write_failure(head_now: Option<u32>, revision: u32, draft_rewritten: bool) -> (r:
    HeadWriteOutcome)
    ensures
        r == (if head_now == Some(revision) {
            HeadWriteOutcome::Committed
        } else {
            HeadWriteOutcome::Failed { recover_draft: draft_rewritten }
        }),
{
    match head_now {
        Some(h) if h == revision => HeadWriteOutcome::Committed,
        _ => HeadWriteOutcome::Failed { recover_draft: draft_rewritten },
    }
}

/// Numbers the next revision after `last`, skipping the numbers in `existing`; fails
/// when the numbers run out.
pub fn choose_revision(last: u32, existing: &[u32]) -> (r: AppResult<u32>)
    ensures
        match r {
            Ok(v) => fresh_revision(last, existing@, v),
            Err(e) => e.code@ == "THEME_STORE_ERROR"@ && forall|k: u32| k > last ==> existing@.contains(k),
        },
{
    if last == u32::MAX {
        return Err(store_error("主题修订号溢出。"));
    }
    let mut revision = last + 1;
    while contains_u32(existing, revision)
        invariant
            last < revision,
            forall|k: u32| last < k < revision ==> existing@.contains(k),
        decreases u32::MAX - revision,
    {
        if revision == u32::MAX {
            assert forall|k: u32| k > last implies existing@.contains(k) by {
                if k < revision {
                } else {
                    assert(k == revision);
                }
            }
            return Err(store_error("主题修订号溢出。"));
        }
        revision = revision + 1;
    }
    Ok(revision)
}

/// A chosen revision never reuses a number at or below the head, nor one already taken.
pub proof fn lemma_fresh_revision_unused(last: u32, existing: Seq<u32>, r: u32)
    requires
        fresh_revision(last, existing, r),
    ensures
        r > last,
        forall|i: int| 0 <= i < existing.len() ==> existing[i] != r,
{
}


/// A published theme found in the library directory: its directory name, head revision,
/// and the name and asset of that revision's document.
#[derive(Debug)]
pub struct ListedTheme {
    pub id: String,
    pub revision: u32,
    pub name: String,
    pub asset_id: String,
}

/// A theme as the library list shows it.
#[derive(Debug)]
pub struct LibraryItem {
    pub reference: ThemeRef,
    pub name: String,
    pub description: String,
    pub preview_path: String,
    pub editable: bool,
    pub is_custom: bool,
    pub compatibility: String,
}

/// The found themes whose directory name is a library theme identifier, in order.
pub open spec fn kept(found: Seq<ListedTheme>) -> Seq<ListedTheme>
    decreases found.len(),
{
    if found.len() == 0 {
        Seq::empty()
    } else {
        let rest = kept(found.drop_last());
        if is_theme_id(found.last().id@) {
            rest.push(found.last())
        } else {
            rest
        }
    }
}

/// The list entry shown for a found theme.
pub open spec fn item_for(root: Seq<char>, t: ListedTheme, it: LibraryItem) -> bool {
    &&& it.reference.id@ == t.id@
    &&& it.reference.revision == Some(t.revision)
    &&& it.name@ == t.name@
    &&& it.description@ == "图片主题 · 可继续编辑"@
    &&& it.preview_path@ == join_path(join3(root, "assets"@, t.asset_id@), "hero.jpg"@)
    &&& it.editable
    &&& it.is_custom
    &&& it.compatibility@ == "5.2.6 样板；应用时另做运行验证"@
}

/// The names of a list of found themes.
pub open spec fn listed_names(k: Seq<ListedTheme>) -> Seq<Seq<char>> {
    k.map_values(|t: ListedTheme| t.name@)
}

impl ThemeStore {
    /// The library list: the found themes with a library identifier, ordered by name
    /// (equal names keep their order). A theme whose asset identifier is invalid fails
    /// the whole list.
    pub fn list(&self, found: &Vec<ListedTheme>) -> (r: AppResult<Vec<LibraryItem>>)
        ensures
            ({
                let k = kept(found@);
                let o = crate::order::stable_order(listed_names(k), k.len() as int);
                match r {
                    Ok(items) => (forall|i: int| 0 <= i < k.len() ==> is_resource_id(
                        #[trigger] k[i].asset_id@,
                    )) && items@.len() == k.len() && forall|j: int|
                        0 <= j < items@.len() ==> item_for(self.root@, k[o[j]], #[trigger] items@[j]),
                    Err(e) => e.code@ == "THEME_STORE_ERROR"@ && exists|i: int|
                        0 <= i < k.len() && !is_resource_id(#[trigger] k[i].asset_id@),
                }
            }),
    {
        let ghost k = kept(found@);
        let mut picked: Vec<usize> = Vec::new();
        let mut names: Vec<Vec<char>> = Vec::new();
        let mut i: usize = 0;
        while i < found.len()
            invariant
                i <= found@.len(),
                k == kept(found@),
                picked@.len() == names@.len(),
                picked@.map_values(|x: usize| found@[x as int]) == kept(found@.take(i as int)),
                forall|m: int| 0 <= m < picked@.len() ==> (#[trigger] picked@[m]) < i,
                names@.map_values(|v: Vec<char>| v@) == listed_names(kept(found@.take(i as int))),
                forall|m: int| 0 <= m < picked@.len() ==> is_resource_id(
                    #[trigger] found@[picked@[m] as int].asset_id@,
                ),
            decreases found@.len() - i,
        {
            assert(found@.take(i + 1).drop_last() =~= found@.take(i as int));
            assert(found@.take(i + 1).last() == found@[i as int]);
            let t = &found[i];
            if check_theme_id(t.id.as_str()).is_ok() {
                if check_id(t.asset_id.as_str()).is_err() {
                    proof {
                        lemma_kept_prefix(found@, i + 1);
                        let kk = kept(found@.take(i + 1));
                        assert(kk[kk.len() - 1] == found@[i as int]);
                        assert(k[kk.len() - 1] == kk[kk.len() - 1]);
                        assert(!is_resource_id(k[kk.len() - 1].asset_id@));
                    }
                    return Err(store_error("主题资源标识无效。"));
                }
                let ghost before = picked@;
                let ghost before_names = names@;
                picked.push(i);
                names.push(crate::text::chars_of(t.name.as_str()));
                assert(picked@.map_values(|x: usize| found@[x as int]) =~= before.map_values(
                    |x: usize| found@[x as int],
                ).push(found@[i as int]));
                assert(names@.map_values(|v: Vec<char>| v@) =~= before_names.map_values(
                    |v: Vec<char>| v@,
                ).push(found@[i as int].name@));
            }
            i = i + 1;
        }
        assert(found@.take(found@.len() as int) =~= found@);
        let order = crate::order::sort_order(&names);
        let ghost o = crate::order::stable_order(listed_names(k), k.len() as int);
        proof { crate::order::lemma_stable_order_perm(listed_names(k), k.len() as int); }
        let mut items: Vec<LibraryItem> = Vec::new();
        let mut j: usize = 0;
        while j < order.len()
            invariant
                j <= order@.len(),
                k == kept(found@),
                picked@.map_values(|x: usize| found@[x as int]) == k,
                forall|m: int| 0 <= m < picked@.len() ==> (#[trigger] picked@[m]) < found@.len(),
                forall|m: int| 0 <= m < picked@.len() ==> is_resource_id(
                    #[trigger] found@[picked@[m] as int].asset_id@,
                ),
                order@.map_values(|x: usize| x as int) == o,
                o.len() == k.len(),
                forall|m: int| 0 <= m < o.len() ==> 0 <= #[trigger] o[m] < k.len(),
                items@.len() == j,
                forall|m: int| 0 <= m < j ==> item_for(self.root@, k[o[m]], #[trigger] items@[m]),
            decreases order@.len() - j,
        {
            let at = order[j];
            assert(o[j as int] == at as int);
            assert(k[at as int] == found@[picked@[at as int] as int]);
            let t = &found[picked[at]];
            let preview = match self.asset_file(t.asset_id.as_str(), "hero.jpg") {
                Ok(p) => p,
                Err(e) => {
                    return Err(e);
                },
            };
            let item = LibraryItem {
                reference: ThemeRef { id: t.id.clone(), revision: Some(t.revision) },
                name: t.name.clone(),
                description: "图片主题 · 可继续编辑".to_string(),
                preview_path: preview,
                editable: true,
                is_custom: true,
                compatibility: "5.2.6 样板；应用时另做运行验证".to_string(),
            };
            items.push(item);
            j = j + 1;
        }
        Ok(items)
    }
}

/// The kept themes of a prefix are a prefix of the kept themes.
proof fn lemma_kept_prefix(found: Seq<ListedTheme>, n: int)
    requires
        0 <= n <= found.len(),
    ensures
        kept(found.take(n)).len() <= kept(found).len(),
        forall|m: int| 0 <= m < kept(found.take(n)).len() ==> kept(found)[m] == kept(found.take(n))[m],
    decreases found.len() - n,
{
    if n == found.len() {
        assert(found.take(n) =~= found);
    } else {
        lemma_kept_prefix(found, n + 1);
        assert(found.take(n + 1).drop_last() =~= found.take(n));
    }
}


/// A fresh library theme identifier: `custom-v2-` and a random resource identifier.
pub fn new_theme_id() -> (r: String)
    ensures
        is_theme_id(r@),
{
    let id = fresh_resource_id();
    let mut t = "custom-v2-".to_string();
    t.append(id.as_str());
    proof {
        reveal_strlit("custom-v2-");
        assert("custom-v2-"@.len() == 10);
        assert(t@.skip(10) =~= id@);
        assert(t@.take(10) =~= "custom-v2-"@);
    }
    t
}

/// Which side of an interrupted save the draft must end on.
#[derive(PartialEq, Eq, Structural, Clone, Copy, Debug)]
pub enum SaveSide {
    /// The save was not published: the draft returns to its state before the save.
    Before,
    /// The save was published: the draft takes the saved revision.
    After,
}

/// A save journal belongs to draft `id`: its earlier draft is that draft, and names no
/// theme other than the one saved to.
pub fn pending_save_matches(id: &str, before_draft_id: &str, before_theme_id: Option<&str>, reference_id: &str) -> (r:
    AppResult<()>)
    ensures
        r is Ok <==> (before_draft_id@ == id@ && match before_theme_id {
            Some(t) => t@ == reference_id@,
            None => true,
        }),
        r matches Err(e) ==> e.code@ == "THEME_STORE_ERROR"@,
{
    let theme_ok = match before_theme_id {
        Some(t) => same_text(t, reference_id),
        None => true,
    };
    if !same_text(before_draft_id, id) || !theme_ok {
        return Err(store_error("保存恢复记录与草稿不匹配，未改动文件。"));
    }
    Ok(())
}

/// The head decides an interrupted save: at the saved revision the save happened, at
/// the previous head it did not; any other head means the theme changed meanwhile.
pub fn save_recovery_side(head: Option<u32>, saved_revision: Option<u32>, previous_head: Option<u32>) -> (r:
    AppResult<SaveSide>)
    ensures
        match r {
            Ok(SaveSide::After) => head == saved_revision,
            Ok(SaveSide::Before) => head != saved_revision && head == previous_head,
            Err(e) => head != saved_revision && head != previous_head && e.code@
                == "THEME_STORE_ERROR"@,
        },
{
    if head == saved_revision {
        Ok(SaveSide::After)
    } else if head == previous_head {
        Ok(SaveSide::Before)
    } else {
        Err(store_error("保存恢复期间主题已变化，请保留恢复记录后检查。"))
    }
}

/// Whether recovery must rewrite the draft: it must still be one of the two sides (else
/// an edit made meanwhile is kept and recovery stops), and is rewritten unless it
/// already is the side chosen.
pub fn save_recovery_write(current_is_before: bool, current_is_after: bool, side: SaveSide) -> (r:
    AppResult<bool>)
    ensures
        match r {
            Ok(write) => (current_is_before || current_is_after) && write == match side {
                SaveSide::Before => !current_is_before,
                SaveSide::After => !current_is_after,
            },
            Err(e) => !current_is_before && !current_is_after && e.code@ == "THEME_STORE_ERROR"@,
        },
{
    if !current_is_before && !current_is_after {
        return Err(store_error("草稿在保存恢复期间已被修改，未覆盖新内容。"));
    }
    match side {
        SaveSide::Before => Ok(!current_is_before),
        SaveSide::After => Ok(!current_is_after),
    }
}

/// A draft whose latest edit is already saved as a pinned revision is not published
/// again: its reference is returned instead.
pub fn pinned_save(saved_sequence: Option<u64>, edit_sequence: u64, theme_id: Option<&str>, revision: Option<u32>) -> (r:
    Option<ThemeRef>)
    ensures
        match r {
            Some(t) => saved_sequence == Some(edit_sequence) && (theme_id matches Some(i) && i@
                == t.id@) && revision is Some && t.revision == revision,
            None => !(saved_sequence == Some(edit_sequence) && theme_id is Some && revision is Some),
        },
{
    let saved = match saved_sequence {
        Some(s) => s == edit_sequence,
        None => false,
    };
    if !saved {
        return None;
    }
    match (theme_id, revision) {
        (Some(i), Some(v)) => Some(ThemeRef { id: i.to_string(), revision: Some(v) }),
        _ => None,
    }
}

/// An edit submitted with a sequence at or below the draft's is stale and changes
/// nothing.
pub fn stale_update(update_sequence: u64, edit_sequence: u64) -> (r: bool)
    ensures
        r == (update_sequence <= edit_sequence),
{
    update_sequence <= edit_sequence
}

/// A design change applies only to the edit it was made on; it becomes the next edit.
pub fn design_update_sequence(edit_sequence: u64, requested: u64) -> (r: AppResult<u64>)
    requires
        requested < u64::MAX,
    ensures
        match r {
            Ok(next) => requested == edit_sequence && next == requested + 1,
            Err(e) => requested != edit_sequence && e.code@ == "THEME_STORE_ERROR"@,
        },
{
    if edit_sequence != requested {
        return Err(store_error("草稿已变化，未覆盖新参数；请重试。"));
    }
    Ok(requested + 1)
}

/// The theme a reference text names, if it parses.
pub open spec fn names_theme(key: Option<&str>, id: Seq<char>) -> bool {
    key matches Some(k) && (parse_ref(k@) matches Some(p) && p.0 == id)
}

/// A theme may be deleted only while neither the theme selected for keeping nor the one
/// WorkBuddy shows is (a revision of) it.
pub fn deletion_check(id: &str, selected: Option<&str>, current: Option<&str>) -> (r: AppResult<()>)
    ensures
        r is Ok <==> !(names_theme(selected, id@) || names_theme(current, id@)),
        r matches Err(e) ==> e.code@ == "THEME_ACTIVE"@,
{
    let in_use = |key: Option<&str>| -> (b: bool)
        ensures
            b == names_theme(key, id@),
        {
            match key {
                Some(k) => match ThemeRef::parse(k) {
                    Ok(t) => same_text(t.id.as_str(), id),
                    Err(_) => false,
                },
                None => false,
            }
        };
    if in_use(selected) || in_use(current) {
        return Err(AppError::new("THEME_ACTIVE", "请先应用其他主题或恢复原版，再删除此主题。"));
    }
    Ok(())
}

impl ThemeStore {
    /// `trials\<id>\theme.codedrobe-theme`: where trial `id` keeps its temporary package.
    pub fn trial_package(&self, id: &str) -> (r: AppResult<String>)
        ensures
            match r {
                Ok(p) => is_resource_id(id@) && p@ == join_path(
                    join3(self.root@, "trials"@, id@),
                    "theme.codedrobe-theme"@,
                ),
                Err(e) => !is_resource_id(id@) && e.code@ == "THEME_STORE_ERROR"@,
            },
    {
        check_id(id)?;
        let trials = join(self.root.as_str(), "trials");
        let dir = join(trials.as_str(), id);
        Ok(join(dir.as_str(), "theme.codedrobe-theme"))
    }
}

/// The catalog entry of trial `id`'s temporary package: key `trial-<id>`, applied under
/// the runtime id `workbuddy-trial-<id>`.
pub fn trial_record(id: &str, name: String, package_path: String, preview_path: String) -> (r:
    ThemeRecord)
    ensures
        r.id@ == "trial-"@ + id@,
        r.name == name,
        r.description@ == "临时试用"@,
        r.package_path == package_path,
        r.preview_path == preview_path,
        r.verified_work_buddy_version@ == "运行时验证"@,
        r.theme_version@ == "1.4.0"@,
        r.runtime_theme_id@ == "workbuddy-trial-"@ + id@,
        r.is_custom,
{
    let mut key = "trial-".to_string();
    key.append(id);
    let mut runtime = "workbuddy-trial-".to_string();
    runtime.append(id);
    ThemeRecord {
        id: key,
        name,
        description: "临时试用".to_string(),
        package_path,
        preview_path,
        verified_work_buddy_version: "运行时验证".to_string(),
        theme_version: "1.4.0".to_string(),
        runtime_theme_id: runtime,
        is_custom: true,
    }
}

} // verus!
