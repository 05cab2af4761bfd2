//! Windows path text: custom theme directories, bundled resources, install candidates
//! and the arguments handed to the theme runtime. A path is held as its text; the
//! library spells every separator it writes as `\`.
use vstd::prelude::*;
use crate::error::{AppError, AppResult};
use crate::text::{
    chars_of, decimal, decimal_string, has_prefix, join, join_path, push_char, starts_with,
    string_of, sub_chars,
};

verus! {

/// The debugging port WorkBuddy is started with.
pub const DEFAULT_CDP_PORT: u16 = 19336;

/// The port of earlier releases, which collides with other tools.
pub const LEGACY_CDP_PORT: u16 = 9336;

/// A stored port, with the unset and the legacy port moved to the default.
pub fn compatible_cdp_port(port: u16) -> (r: u16)
    ensures
        r == (if port == 0 || port == LEGACY_CDP_PORT {
            DEFAULT_CDP_PORT
        } else {
            port
        }),
{
    if port == 0 || port == LEGACY_CDP_PORT {
        DEFAULT_CDP_PORT
    } else {
        port
    }
}

/// A character allowed in a custom theme identifier.
pub open spec fn custom_id_char(c: char) -> bool {
    ('a' <= c && c <= 'z') || ('0' <= c && c <= '9') || c == '-'
}

/// A custom theme identifier: `custom-`, then lowercase letters, digits and `-`, at most
/// 80 characters in all (all ASCII, so as many bytes).
pub open spec fn safe_custom_theme_id(s: Seq<char>) -> bool {
    &&& has_prefix(s, "custom-"@)
    &&& s.len() <= 80
    &&& forall|i: int| 0 <= i < s.len() ==> custom_id_char(#[trigger] s[i])
}

/// Whether `theme_id` names a custom theme directory without leaving the theme root.
pub fn is_safe_custom_theme_id(theme_id: &str) -> (r: bool)
    ensures
        r == safe_custom_theme_id(theme_id@),
{
    let v = chars_of(theme_id);
    let prefix = chars_of("custom-");
    if !starts_with(v.as_slice(), prefix.as_slice()) || v.len() > 80 {
        return false;
    }
    let mut i: usize = 0;
    while i < v.len()
        invariant
            i <= v@.len(),
            v@ == theme_id@,
            forall|j: int| 0 <= j < i ==> custom_id_char(#[trigger] v@[j]),
        decreases v@.len() - i,
    {
        let c = v[i];
        if !(('a' <= c && c <= 'z') || ('0' <= c && c <= '9') || c == '-') {
            assert(!custom_id_char(v@[i as int]));
            return false;
        }
        i = i + 1;
    }
    true
}

/// The directory of the custom theme `theme_id` under `root`.
pub fn custom_theme_directory(root: &str, theme_id: &str) -> (r: AppResult<String>)
    ensures
        match r {
            Ok(p) => safe_custom_theme_id(theme_id@) && p@ == join_path(root@, theme_id@),
            Err(e) => !safe_custom_theme_id(theme_id@) && e.code@ == "CUSTOM_THEME_INVALID"@,
        },
{
    if !is_safe_custom_theme_id(theme_id) {
        return Err(AppError::new("CUSTOM_THEME_INVALID", "自定义主题标识无效。"));
    }
    Ok(join(root, theme_id))
}

/// A path separator.
pub open spec fn is_separator(c: char) -> bool {
    c == '\\' || c == '/'
}

/// A `..` component at position `i` of `p`.
pub open spec fn parent_component_at(p: Seq<char>, i: int) -> bool {
    &&& 0 <= i && i + 2 <= p.len()
    &&& p[i] == '.' && p[i + 1] == '.'
    &&& (i == 0 || is_separator(p[i - 1]))
    &&& (i + 2 == p.len() || is_separator(p[i + 2]))
}

/// A path that could leave the directory it is joined to: one that starts at a root
/// (`\`, `/`, a UNC or verbatim prefix), starts with a drive (`D:`), or has a `..`
/// component.
pub open spec fn escapes_root(p: Seq<char>) -> bool {
    ||| (p.len() > 0 && is_separator(p[0]))
    ||| (p.len() >= 2 && p[1] == ':' && (('a' <= p[0] && p[0] <= 'z') || ('A' <= p[0] && p[0]
        <= 'Z')))
    ||| exists|i: int| parent_component_at(p, i)
}

/// `p` with every `/` spelled `\`.
pub open spec fn backslashed(p: Seq<char>) -> Seq<char> {
    p.map_values(|c: char| if c == '/' { '\\' } else { c })
}

fn backslashed_text(p: &str) -> (r: String)
    ensures
        r@ == backslashed(p@),
{
    let v = chars_of(p);
    let mut out = String::new();
    let mut i: usize = 0;
    while i < v.len()
        invariant
            i <= v@.len(),
            v@ == p@,
            out@ =~= backslashed(v@.take(i as int)),
        decreases v@.len() - i,
    {
        let c = v[i];
        push_char(&mut out, if c == '/' { '\\' } else { c });
        i = i + 1;
    }
    assert(v@.take(v@.len() as int) =~= v@);
    out
}

fn escapes_root_chars(p: &[char]) -> (r: bool)
    ensures
        r == escapes_root(p@),
{
    let n = p.len();
    if n > 0 && (p[0] == '\\' || p[0] == '/') {
        return true;
    }
    if n >= 2 && p[1] == ':' && (('a' <= p[0] && p[0] <= 'z') || ('A' <= p[0] && p[0] <= 'Z')) {
        return true;
    }
    let mut i: usize = 0;
    while n >= 2 && i <= n - 2
        invariant
            n == p@.len(),
            i <= n,
            forall|j: int| 0 <= j < i ==> !parent_component_at(p@, j),
        decreases n - i,
    {
        if p[i] == '.' && p[i + 1] == '.' && (i == 0 || p[i - 1] == '\\' || p[i - 1] == '/') && (i
            + 2 == n || p[i + 2] == '\\' || p[i + 2] == '/') {
            assert(parent_component_at(p@, i as int));
            return true;
        }
        i = i + 1;
    }
    assert forall|j: int| !parent_component_at(p@, j) by {
        if parent_component_at(p@, j) {
            assert(j < i);
        }
    }
    false
}

/// A catalog resource path inside `root`; a path that could leave `root` is refused.
pub fn resolve_resource_path(root: &str, relative: &str) -> (r: AppResult<String>)
    ensures
        match r {
            Ok(p) => !escapes_root(relative@) && p@ == join_path(root@, backslashed(relative@)),
            Err(e) => escapes_root(relative@) && e.code@ == "THEME_CATALOG_FAILED"@,
        },
{
    let v = chars_of(relative);
    if escapes_root_chars(v.as_slice()) {
        return Err(AppError::new("THEME_CATALOG_FAILED", "主题清单包含不安全的资源路径。"));
    }
    let normalized = backslashed_text(relative);
    Ok(join(root, normalized.as_str()))
}

/// The two places a bundled runtime file may be: beside the application, or under
/// `vendor` in a development checkout.
pub fn bundled_runtime_candidates(root: &str, runtime_relative_path: &str) -> (r: Vec<String>)
    ensures
        r@.len() == 2,
        r@[0]@ == join_path(root@, backslashed(runtime_relative_path@)),
        r@[1]@ == join_path(join_path(root@, "vendor"@), backslashed(runtime_relative_path@)),
{
    let relative = backslashed_text(runtime_relative_path);
    let vendor = join(root, "vendor");
    let first = join(root, relative.as_str());
    let second = join(vendor.as_str(), relative.as_str());
    let mut out: Vec<String> = Vec::new();
    out.push(first);
    out.push(second);
    out
}

/// The conventional install locations on drive `d`.
pub open spec fn drive_candidate(d: char, k: int) -> Seq<char> {
    if k == 0 {
        seq![d, ':', '\\'] + "WorkBuddy\\WorkBuddy.exe"@
    } else {
        seq![d, ':', '\\'] + "Program Files\\WorkBuddy\\WorkBuddy.exe"@
    }
}

/// For each drive in order: `X:\WorkBuddy\WorkBuddy.exe`, then
/// `X:\Program Files\WorkBuddy\WorkBuddy.exe`.
pub fn drive_root_workbuddy_candidates(drives: &[char]) -> (r: Vec<String>)
    requires
        2 * drives@.len() <= usize::MAX,
    ensures
        r@.len() == 2 * drives@.len(),
        forall|i: int| 0 <= i < r@.len() ==> (#[trigger] r@[i])@ == drive_candidate(drives@[i / 2], i % 2),
{
    let mut out: Vec<String> = Vec::new();
    let mut i: usize = 0;
    while i < drives.len()
        invariant
            i <= drives@.len(),
            out@.len() == 2 * i,
            forall|k: int| 0 <= k < out@.len() ==> (#[trigger] out@[k])@ == drive_candidate(drives@[k / 2], k % 2),
        decreases drives@.len() - i,
    {
        let d = drives[i];
        let mut root = String::new();
        push_char(&mut root, d);
        push_char(&mut root, ':');
        push_char(&mut root, '\\');
        let mut a = root.clone();
        a.append("WorkBuddy\\WorkBuddy.exe");
        let mut b = root;
        b.append("Program Files\\WorkBuddy\\WorkBuddy.exe");
        let ghost before = out@;
        out.push(a);
        out.push(b);
        assert forall|k: int| 0 <= k < out@.len() implies (#[trigger] out@[k])@ == drive_candidate(
            drives@[k / 2],
            k % 2,
        ) by {
            if k < 2 * i {
                assert(out@[k] == before[k]);
            } else if k == 2 * i {
                assert(k / 2 == i && k % 2 == 0);
            } else {
                assert(k / 2 == i && k % 2 == 1);
            }
        }
        i = i + 1;
    }
    out
}

/// `str::split` at path separators: the pieces between separators, always at least one.
pub open spec fn split_seps(s: Seq<char>) -> Seq<Seq<char>>
    decreases s.len(),
{
    if s.len() == 0 {
        seq![Seq::<char>::empty()]
    } else {
        let rest = split_seps(s.drop_last());
        if is_separator(s.last()) {
            rest.push(Seq::<char>::empty())
        } else {
            rest.update(rest.len() - 1, rest.last().push(s.last()))
        }
    }
}

proof fn lemma_split_seps_len(s: Seq<char>)
    ensures
        split_seps(s).len() >= 1,
    decreases s.len(),
{
    if s.len() > 0 {
        lemma_split_seps_len(s.drop_last());
    }
}

/// One more piece of a path added to its components: empty pieces (repeated or trailing
/// separators) and `.` are skipped, except a `.` that begins a relative path.
pub open spec fn add_component(kept: Seq<Seq<char>>, c: Seq<char>, rooted: bool) -> Seq<Seq<char>> {
    if c.len() == 0 {
        kept
    } else if c == seq!['.'] {
        if kept.len() == 0 && !rooted {
            kept.push(c)
        } else {
            kept
        }
    } else {
        kept.push(c)
    }
}

/// The components of a path's pieces.
pub open spec fn normal_components(pieces: Seq<Seq<char>>, rooted: bool) -> Seq<Seq<char>>
    decreases pieces.len(),
{
    if pieces.len() == 0 {
        Seq::empty()
    } else {
        add_component(normal_components(pieces.drop_last(), rooted), pieces.last(), rooted)
    }
}

/// An ASCII letter.
pub open spec fn is_drive_letter(c: char) -> bool {
    ('a' <= c && c <= 'z') || ('A' <= c && c <= 'Z')
}

/// The upper case of a drive letter.
pub open spec fn drive_upper(c: char) -> char {
    if 'a' <= c && c <= 'z' {
        ((c as u32) - 32) as char
    } else {
        c
    }
}

/// The root marker of a key: `\` for a path with a root, empty otherwise.
pub open spec fn root_mark(rooted: bool) -> Seq<char> {
    if rooted {
        seq!['\\']
    } else {
        Seq::empty()
    }
}

/// A verbatim (`\\?\`) or device (`\\.\`) path, compared as it is spelled.
pub open spec fn raw_prefixed(p: Seq<char>) -> bool {
    p.len() >= 4 && p[0] == '\\' && p[1] == '\\' && (p[2] == '?' || p[2] == '.') && p[3] == '\\'
}

/// How Windows compares paths, as text: the prefix (a drive letter in upper case, or
/// `\\` for a network share), whether the path has a root, and its components, where
/// `/` and `\` are both separators and repeated or trailing separators and `.` components
/// do not count. Verbatim and device paths are compared as spelled.
pub open spec fn path_key(p: Seq<char>) -> Seq<Seq<char>> {
    if raw_prefixed(p) {
        seq![p, seq!['?']]
    } else if p.len() >= 2 && p[1] == ':' && is_drive_letter(p[0]) {
        let r = p.skip(2);
        let rooted = r.len() > 0 && is_separator(r[0]);
        seq![seq![drive_upper(p[0]), ':'], root_mark(rooted)] + normal_components(
            split_seps(r),
            rooted,
        )
    } else if p.len() >= 2 && is_separator(p[0]) && is_separator(p[1]) {
        seq![seq!['\\', '\\'], root_mark(true)] + normal_components(split_seps(p.skip(2)), true)
    } else {
        let rooted = p.len() > 0 && is_separator(p[0]);
        seq![Seq::<char>::empty(), root_mark(rooted)] + normal_components(split_seps(p), rooted)
    }
}

/// The views of a list of character vectors.
pub open spec fn parts_view(v: Seq<Vec<char>>) -> Seq<Seq<char>> {
    v.map_values(|x: Vec<char>| x@)
}

fn add_part(kept: &mut Vec<Vec<char>>, c: Vec<char>, rooted: bool)
    ensures
        parts_view(final(kept)@) == add_component(parts_view(old(kept)@), c@, rooted),
{
    let ghost before = kept@;
    let n = c.len();
    if n == 0 {
        return;
    }
    if n == 1 && c[0] == '.' {
        assert(c@ =~= seq!['.']);
        if kept.len() == 0 && !rooted {
            kept.push(c);
            assert(parts_view(kept@) =~= parts_view(before).push(seq!['.']));
        }
        return;
    }
    proof {
        if c@ == seq!['.'] {
            assert(c@[0] == '.');
        }
    }
    let ghost cv = c@;
    kept.push(c);
    assert(parts_view(kept@) =~= parts_view(before).push(cv));
}

fn normal_parts(s: &[char], rooted: bool) -> (r: Vec<Vec<char>>)
    ensures
        parts_view(r@) == normal_components(split_seps(s@), rooted),
{
    let mut kept: Vec<Vec<char>> = Vec::new();
    let mut cur: Vec<char> = Vec::new();
    let ghost mut pieces: Seq<Seq<char>> = Seq::empty();
    let mut i: usize = 0;
    assert(s@.take(0) =~= Seq::<char>::empty());
    assert(parts_view(kept@) =~= Seq::<Seq<char>>::empty());
    while i < s.len()
        invariant
            i <= s@.len(),
            split_seps(s@.take(i as int)) == pieces.push(cur@),
            parts_view(kept@) == normal_components(pieces, rooted),
        decreases s@.len() - i,
    {
        let c = s[i];
        assert(s@.take(i + 1).drop_last() =~= s@.take(i as int));
        assert(s@.take(i + 1).last() == c);
        proof {
            lemma_split_seps_len(s@.take(i as int));
        }
        if c == '\\' || c == '/' {
            let ghost old_pieces = pieces;
            let ghost old_cur = cur@;
            let piece = cur;
            cur = Vec::new();
            add_part(&mut kept, piece, rooted);
            proof {
                pieces = pieces.push(old_cur);
                assert(pieces.drop_last() =~= old_pieces);
            }
            assert(split_seps(s@.take(i + 1)) =~= pieces.push(cur@));
        } else {
            cur.push(c);
            assert(split_seps(s@.take(i + 1)) =~= pieces.push(cur@));
        }
        i = i + 1;
    }
    assert(s@.take(s@.len() as int) =~= s@);
    let ghost last = cur@;
    add_part(&mut kept, cur, rooted);
    assert(pieces.push(last).drop_last() =~= pieces);
    kept
}

/// The comparison key of a path (`path_key`).
pub fn normal_path_key(path: &str) -> (r: Vec<Vec<char>>)
    ensures
        parts_view(r@) == path_key(path@),
{
    let p = chars_of(path);
    let n = p.len();
    if n >= 4 && p[0] == '\\' && p[1] == '\\' && (p[2] == '?' || p[2] == '.') && p[3] == '\\' {
        let mut out: Vec<Vec<char>> = Vec::new();
        let q: Vec<char> = vec!['?'];
        assert(q@ =~= seq!['?']);
        let ghost pv = p@;
        out.push(p);
        out.push(q);
        assert(parts_view(out@) =~= seq![pv, seq!['?']]);
        return out;
    }
    let mut out: Vec<Vec<char>> = Vec::new();
    let (start, rooted) = if n >= 2 && p[1] == ':' && (('a' <= p[0] && p[0] <= 'z') || ('A' <= p[0]
        && p[0] <= 'Z')) {
        let d = if 'a' <= p[0] && p[0] <= 'z' {
            let v: u8 = p[0] as u8;
            let u: u8 = v - 32;
            assert(u as u32 == (p@[0] as u32) - 32);
            u as char
        } else {
            p[0]
        };
        let dv: Vec<char> = vec![d, ':'];
        assert(dv@ =~= seq![drive_upper(p@[0]), ':']);
        out.push(dv);
        (2usize, n > 2 && (p[2] == '\\' || p[2] == '/'))
    } else if n >= 2 && (p[0] == '\\' || p[0] == '/') && (p[1] == '\\' || p[1] == '/') {
        let uv: Vec<char> = vec!['\\', '\\'];
        assert(uv@ =~= seq!['\\', '\\']);
        out.push(uv);
        (2usize, true)
    } else {
        out.push(Vec::new());
        (0usize, n > 0 && (p[0] == '\\' || p[0] == '/'))
    };
    if rooted {
        let rv: Vec<char> = vec!['\\'];
        assert(rv@ =~= root_mark(true));
        out.push(rv);
    } else {
        let rv: Vec<char> = Vec::new();
        assert(rv@ =~= root_mark(false));
        out.push(rv);
    }
    let rest = sub_chars(p.as_slice(), start, n);
    let parts = normal_parts(rest.as_slice(), rooted);
    let ghost head = parts_view(out@);
    let mut k: usize = 0;
    while k < parts.len()
        invariant
            k <= parts@.len(),
            parts_view(out@) == head + parts_view(parts@).take(k as int),
        decreases parts@.len() - k,
    {
        let c = parts[k].clone();
        assert(c@ =~= parts@[k as int]@);
        let ghost before = out@;
        out.push(c);
        assert(parts_view(out@) =~= parts_view(before).push(parts@[k as int]@));
        assert(parts_view(parts@).take(k + 1) =~= parts_view(parts@).take(k as int).push(parts@[k as int]@));
        assert(parts_view(out@) =~= head + parts_view(parts@).take(k + 1));
        k = k + 1;
    }
    assert(parts_view(parts@).take(parts@.len() as int) =~= parts_view(parts@));
    proof {
        if start == 2 {
            assert(rest@ =~= path@.skip(2));
        } else {
            assert(rest@ =~= path@);
        }
        assert(path@ == p@);
    }
    assert(parts_view(out@) =~= path_key(path@));
    out
}

fn same_parts(a: &Vec<Vec<char>>, b: &Vec<Vec<char>>) -> (r: bool)
    ensures
        r == (parts_view(a@) == parts_view(b@)),
{
    if a.len() != b.len() {
        assert(parts_view(a@).len() != parts_view(b@).len());
        return false;
    }
    let mut i: usize = 0;
    while i < a.len()
        invariant
            i <= a@.len(),
            a@.len() == b@.len(),
            forall|j: int| 0 <= j < i ==> a@[j]@ == b@[j]@,
        decreases a@.len() - i,
    {
        if !crate::text::same_chars(a[i].as_slice(), b[i].as_slice()) {
            assert(parts_view(a@)[i as int] != parts_view(b@)[i as int]);
            return false;
        }
        i = i + 1;
    }
    assert(parts_view(a@) =~= parts_view(b@));
    true
}

/// The keys of a list of paths.
pub open spec fn keys(paths: Seq<Seq<char>>) -> Seq<Seq<Seq<char>>> {
    paths.map_values(|p: Seq<char>| path_key(p))
}

/// `paths` without repeats: each path at the first position where it, or another
/// spelling of the same path, occurs.
pub open spec fn dedup(paths: Seq<Seq<char>>) -> Seq<Seq<char>>
    decreases paths.len(),
{
    if paths.len() == 0 {
        Seq::empty()
    } else {
        let rest = dedup(paths.drop_last());
        if keys(rest).contains(path_key(paths.last())) {
            rest
        } else {
            rest.push(paths.last())
        }
    }
}

/// The texts of a list of strings.
pub open spec fn texts(v: Seq<String>) -> Seq<Seq<char>> {
    v.map_values(|s: String| s@)
}

/// `paths` in order, each path kept only where it, or another spelling of it, first
/// occurs.
pub fn deduplicate_paths(paths: Vec<String>) -> (r: Vec<String>)
    ensures
        texts(r@) == dedup(texts(paths@)),
{
    let mut unique: Vec<String> = Vec::new();
    let mut unique_keys: Vec<Vec<Vec<char>>> = Vec::new();
    let mut i: usize = 0;
    assert(texts(paths@).take(0) =~= Seq::<Seq<char>>::empty());
    while i < paths.len()
        invariant
            i <= paths@.len(),
            texts(unique@) == dedup(texts(paths@).take(i as int)),
            unique_keys@.len() == unique@.len(),
            forall|k: int| 0 <= k < unique@.len() ==> parts_view(#[trigger] unique_keys@[k]@) == path_key(unique@[k]@),
        decreases paths@.len() - i,
    {
        let path = &paths[i];
        let key = normal_path_key(path.as_str());
        let mut known = false;
        let mut j: usize = 0;
        while j < unique_keys.len()
            invariant
                j <= unique_keys@.len(),
                unique_keys@.len() == unique@.len(),
                forall|k: int| 0 <= k < unique@.len() ==> parts_view(#[trigger] unique_keys@[k]@) == path_key(unique@[k]@),
                parts_view(key@) == path_key(path@),
                known == exists|k: int| 0 <= k < j && path_key((#[trigger] unique@[k])@) == path_key(path@),
            decreases unique_keys@.len() - j,
        {
            if same_parts(&unique_keys[j], &key) {
                known = true;
            }
            j = j + 1;
        }
        proof {
            let t = texts(paths@).take(i + 1);
            assert(t.drop_last() =~= texts(paths@).take(i as int));
            assert(t.last() == path@);
            if known {
                let k = choose|k: int| 0 <= k < unique@.len() && path_key((#[trigger] unique@[k])@) == path_key(path@);
                assert(keys(texts(unique@))[k] == path_key(path@));
            } else {
                assert forall|k: int| 0 <= k < keys(texts(unique@)).len() implies keys(texts(unique@))[k] != path_key(path@) by {
                    assert(keys(texts(unique@))[k] == path_key(unique@[k]@));
                }
            }
        }
        if !known {
            let ghost before = unique@;
            unique.push(path.clone());
            unique_keys.push(key);
            assert(texts(unique@) =~= texts(before).push(path@));
        }
        i = i + 1;
    }
    assert(texts(paths@).take(paths@.len() as int) =~= texts(paths@));
    unique
}

/// Deduplication keeps only paths it was given, keeps a spelling of every one of them,
/// and never keeps two spellings of the same path.
pub proof fn lemma_dedup_members(paths: Seq<Seq<char>>)
    ensures
        forall|p: Seq<char>| #[trigger] paths.contains(p) ==> keys(dedup(paths)).contains(path_key(p)),
        forall|q: Seq<char>| #[trigger] dedup(paths).contains(q) ==> paths.contains(q),
        forall|i: int, j: int|
            0 <= i < j < dedup(paths).len() ==> path_key(#[trigger] dedup(paths)[i]) != path_key(
                #[trigger] dedup(paths)[j],
            ),
    decreases paths.len(),
{
    if paths.len() > 0 {
        let init = paths.drop_last();
        let last = paths.last();
        let rest = dedup(init);
        lemma_dedup_members(init);
        assert forall|p: Seq<char>| paths.contains(p) implies (init.contains(p) || p == last) by {
            if p != last {
                let k = choose|k: int| 0 <= k < paths.len() && paths[k] == p;
                assert(init[k] == p);
            }
        }
        if keys(rest).contains(path_key(last)) {
            assert forall|q: Seq<char>| dedup(paths).contains(q) implies paths.contains(q) by {
                let k = choose|k: int| 0 <= k < init.len() && init[k] == q;
                assert(paths[k] == q);
            }
        } else {
            let d = rest.push(last);
            assert(dedup(paths) == d);
            assert(keys(d) =~= keys(rest).push(path_key(last)));
            assert forall|p: Seq<char>| #[trigger] paths.contains(p) implies keys(d).contains(path_key(p)) by {
                if p == last {
                    assert(keys(d)[rest.len() as int] == path_key(p));
                } else {
                    assert(init.contains(p));
                    let k = choose|k: int| 0 <= k < keys(rest).len() && keys(rest)[k] == path_key(p);
                    assert(keys(d)[k] == path_key(p));
                }
            }
            assert forall|q: Seq<char>| #[trigger] d.contains(q) implies paths.contains(q) by {
                let k = choose|k: int| 0 <= k < d.len() && d[k] == q;
                if k == rest.len() {
                    assert(paths[paths.len() - 1] == q);
                } else {
                    assert(rest[k] == q);
                    assert(rest.contains(q));
                    let m = choose|m: int| 0 <= m < init.len() && init[m] == q;
                    assert(paths[m] == q);
                }
            }
            assert forall|i: int, j: int| 0 <= i < j < d.len() implies path_key(#[trigger] d[i])
                != path_key(#[trigger] d[j]) by {
                if j == rest.len() {
                    assert(d[i] == rest[i]);
                    assert(keys(rest)[i] == path_key(rest[i]));
                } else {
                    assert(d[i] == rest[i] && d[j] == rest[j]);
                }
            }
        }
    }
}

/// Deduplicating twice changes nothing.
pub proof fn lemma_dedup_idempotent(paths: Seq<Seq<char>>)
    ensures
        dedup(dedup(paths)) == dedup(paths),
{
    lemma_dedup_members(paths);
    lemma_dedup_of_distinct(dedup(paths));
}

proof fn lemma_dedup_of_distinct(s: Seq<Seq<char>>)
    requires
        forall|i: int, j: int| 0 <= i < j < s.len() ==> path_key(#[trigger] s[i]) != path_key(#[trigger] s[j]),
    ensures
        dedup(s) == s,
    decreases s.len(),
{
    if s.len() > 0 {
        let init = s.drop_last();
        assert forall|i: int, j: int| 0 <= i < j < init.len() implies path_key(#[trigger] init[i])
            != path_key(#[trigger] init[j]) by {
            assert(init[i] == s[i] && init[j] == s[j]);
        }
        lemma_dedup_of_distinct(init);
        assert(!keys(init).contains(path_key(s.last()))) by {
            if keys(init).contains(path_key(s.last())) {
                let k = choose|k: int| 0 <= k < keys(init).len() && keys(init)[k] == path_key(s.last());
                assert(s[k] == init[k]);
            }
        }
        assert(init.push(s.last()) =~= s);
    }
}

/// `path` in the spelling a child process accepts: `\\?\UNC\server\share` becomes
/// `\\server\share` and `\\?\D:\x` becomes `D:\x`; other paths are unchanged.
pub open spec fn child_path(path: Seq<char>) -> Seq<char> {
    if has_prefix(path, "\\\\?\\UNC\\"@) {
        "\\\\"@ + path.skip(8)
    } else if has_prefix(path, "\\\\?\\"@) {
        path.skip(4)
    } else {
        path
    }
}

/// A path without the extended-length prefix that the embedded runtime cannot open.
pub fn child_process_path(path: &str) -> (r: String)
    ensures
        r@ == child_path(path@),
{
    let v = chars_of(path);
    let unc = chars_of("\\\\?\\UNC\\");
    let verbatim = chars_of("\\\\?\\");
    proof {
        reveal_strlit("\\\\?\\UNC\\");
        reveal_strlit("\\\\?\\");
    }
    if starts_with(v.as_slice(), unc.as_slice()) {
        let rest = sub_chars(v.as_slice(), 8, v.len());
        assert(rest@ =~= path@.skip(8));
        let mut out = string_of(chars_of("\\\\").as_slice());
        out.append(string_of(rest.as_slice()).as_str());
        return out;
    }
    if starts_with(v.as_slice(), verbatim.as_slice()) {
        let rest = sub_chars(v.as_slice(), 4, v.len());
        assert(rest@ =~= path@.skip(4));
        return string_of(rest.as_slice());
    }
    path.to_string()
}

/// The runtime arguments of the compatibility probe run before an apply.
pub open spec fn probe_args(package: Seq<char>, port: u16) -> Seq<Seq<char>> {
    seq![
        "probe"@,
        "--app"@,
        "workbuddy"@,
        "--theme"@,
        child_path(package),
        "--port"@,
        decimal(port as nat),
        "--timeout-ms"@,
        "10000"@,
        "--json"@,
    ]
}

/// Arguments for probing `theme_package` against the renderer on `port`.
pub fn theme_probe_args(theme_package: &str, port: u16) -> (r: Vec<String>)
    ensures
        texts(r@) == probe_args(theme_package@, port),
{
    let mut out: Vec<String> = Vec::new();
    out.push("probe".to_string());
    out.push("--app".to_string());
    out.push("workbuddy".to_string());
    out.push("--theme".to_string());
    out.push(child_process_path(theme_package));
    out.push("--port".to_string());
    out.push(decimal_string(port as u64));
    out.push("--timeout-ms".to_string());
    out.push("10000".to_string());
    out.push("--json".to_string());
    assert(texts(out@) =~= probe_args(theme_package@, port));
    out
}

/// The runtime arguments that apply `package` to the WorkBuddy at `app_path` through
/// the renderer on `port`, without launching it.
pub open spec fn apply_arg_list(package: Seq<char>, app_path: Seq<char>, port: u16) -> Seq<Seq<char>> {
    seq![
        "apply"@,
        "--app"@,
        "workbuddy"@,
        "--theme"@,
        child_path(package),
        "--app-path"@,
        child_path(app_path),
        "--port"@,
        decimal(port as nat),
        "--no-launch"@,
        "--json"@,
    ]
}

/// Arguments for applying `theme_package` to the WorkBuddy at `app_path`.
pub fn apply_args(theme_package: &str, app_path: &str, port: u16) -> (r: Vec<String>)
    ensures
        texts(r@) == apply_arg_list(theme_package@, app_path@, port),
{
    let mut out: Vec<String> = Vec::new();
    out.push("apply".to_string());
    out.push("--app".to_string());
    out.push("workbuddy".to_string());
    out.push("--theme".to_string());
    out.push(child_process_path(theme_package));
    out.push("--app-path".to_string());
    out.push(child_process_path(app_path));
    out.push("--port".to_string());
    out.push(decimal_string(port as u64));
    out.push("--no-launch".to_string());
    out.push("--json".to_string());
    assert(texts(out@) =~= apply_arg_list(theme_package@, app_path@, port));
    out
}

/// The runtime arguments that check `package` against the renderer on `port`.
pub open spec fn verify_arg_list(package: Seq<char>, port: u16) -> Seq<Seq<char>> {
    seq![
        "verify"@,
        "--app"@,
        "workbuddy"@,
        "--theme"@,
        child_path(package),
        "--port"@,
        decimal(port as nat),
        "--json"@,
    ]
}

/// Arguments for verifying that `theme_package` is what the renderer shows.
pub fn verify_args(theme_package: &str, port: u16) -> (r: Vec<String>)
    ensures
        texts(r@) == verify_arg_list(theme_package@, port),
{
    let mut out: Vec<String> = Vec::new();
    out.push("verify".to_string());
    out.push("--app".to_string());
    out.push("workbuddy".to_string());
    out.push("--theme".to_string());
    out.push(child_process_path(theme_package));
    out.push("--port".to_string());
    out.push(decimal_string(port as u64));
    out.push("--json".to_string());
    assert(texts(out@) =~= verify_arg_list(theme_package@, port));
    out
}

/// The runtime arguments that remove the theme from the renderer on `port`.
pub open spec fn restore_arg_list(port: u16) -> Seq<Seq<char>> {
    seq!["restore"@, "--app"@, "workbuddy"@, "--port"@, decimal(port as nat), "--json"@]
}

/// Arguments for restoring the original WorkBuddy look.
pub fn restore_args(port: u16) -> (r: Vec<String>)
    ensures
        texts(r@) == restore_arg_list(port),
{
    let mut out: Vec<String> = Vec::new();
    out.push("restore".to_string());
    out.push("--app".to_string());
    out.push("workbuddy".to_string());
    out.push("--port".to_string());
    out.push(decimal_string(port as u64));
    out.push("--json".to_string());
    assert(texts(out@) =~= restore_arg_list(port));
    out
}

/// The one stored credential that clearing old AI credentials removes, named only once
/// the user confirmed: nothing else is ever targeted.
pub fn legacy_credential_target(confirmed: bool) -> (r: AppResult<&'static str>)
    ensures
        match r {
            Ok(t) => confirmed && t@ == "WorkBuddyThemeSwitcher:CustomThemeAiKey"@,
            Err(e) => !confirmed && e.code@ == "CONFIRMATION_REQUIRED"@,
        },
{
    if !confirmed {
        return Err(AppError::new("CONFIRMATION_REQUIRED", "请先确认清除旧凭据。"));
    }
    Ok("WorkBuddyThemeSwitcher:CustomThemeAiKey")
}

} // verus!
