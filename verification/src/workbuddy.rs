//! What the switcher reads about a WorkBuddy installation and its renderer: the file
//! version it supports, install keys in registry query output, its running processes,
//! the renderer page among the debugging targets, and the replies of the theme runtime.
use vstd::prelude::*;
use crate::error::{AppError, AppResult};
use crate::json::JsonValue;
use crate::text::{
    chars_of, contains, contains_seq, decimal, decimal_string, find_char, find_first, find_from,
    find_text, find_text_from, first_index, has_prefix, lemma_decimal_no_dash, lemma_find_from,
    lemma_first_index, lemma_first_index_found, lemma_parse_decimal, lines, lines_of, lower_text,
    parse_unsigned, parse_unsigned_text, push_char, same_chars, same_text, starts_with, string_of, sub_chars,
    to_lower_chars, trim, trim_chars,
};

verus! {

// ---------------------------------------------------------------- file versions

/// The text of `s` before its first `.` (all of it when there is none).
pub open spec fn dot_field(s: Seq<char>) -> Seq<char> {
    match first_index(s, '.') {
        Some(i) => s.take(i),
        None => s,
    }
}

/// The text of `s` after its first `.`, if it has one.
pub open spec fn after_dot(s: Seq<char>) -> Option<Seq<char>> {
    match first_index(s, '.') {
        Some(i) => Some(s.skip(i + 1)),
        None => None,
    }
}

/// The first three dot-separated fields of a version, each read as a `u16`.
pub open spec fn version_triple(s: Seq<char>) -> Option<(nat, nat, nat)> {
    match after_dot(s) {
        None => None,
        Some(r1) => match after_dot(r1) {
            None => None,
            Some(r2) => match (
                parse_unsigned(dot_field(s), 65535),
                parse_unsigned(dot_field(r1), 65535),
                parse_unsigned(dot_field(r2), 65535),
            ) {
                (Some(a), Some(b), Some(c)) => Some((a, b, c)),
                _ => None,
            },
        },
    }
}

/// The product version of a fixed file-information block: `a.b.c.d` from the high and
/// low halves of its two version words, when the block carries the expected signature.
pub open spec fn product_version_of(signature: u32, ms: u32, ls: u32) -> Option<Seq<char>> {
    if signature != 0xfeef04bd {
        None
    } else {
        Some(decimal((ms >> 16u32) as nat) + seq!['.'] + decimal((ms & 0xffffu32) as nat) + seq!['.']
            + decimal((ls >> 16u32) as nat) + seq!['.'] + decimal((ls & 0xffffu32) as nat))
    }
}

/// The product version recorded in a file's fixed file-information block.
pub fn product_version(signature: u32, ms: u32, ls: u32) -> (r: Option<String>)
    ensures
        match r {
            Some(v) => product_version_of(signature, ms, ls) == Some(v@),
            None => product_version_of(signature, ms, ls) is None,
        },
{
    if signature != 0xfeef04bd {
        return None;
    }
    let mut text = decimal_string((ms >> 16u32) as u64);
    push_char(&mut text, '.');
    text.append(decimal_string((ms & 0xffffu32) as u64).as_str());
    push_char(&mut text, '.');
    text.append(decimal_string((ls >> 16u32) as u64).as_str());
    push_char(&mut text, '.');
    text.append(decimal_string((ls & 0xffffu32) as u64).as_str());
    Some(text)
}

/// Supported: 5.x from 5.2.6 on. A version that is unknown or not in `a.b.c` form does
/// not block: the renderer probe decides then.
pub open spec fn supported_version(version: Option<Seq<char>>) -> bool {
    match version {
        None => true,
        Some(s) => match version_triple(s) {
            None => true,
            Some((a, b, c)) => a == 5 && (b > 2 || (b == 2 && c >= 6)),
        },
    }
}

proof fn lemma_dot_split(x: Seq<char>, rest: Seq<char>)
    requires
        forall|i: int| 0 <= i < x.len() ==> x[i] != '.',
    ensures
        dot_field(x + seq!['.'] + rest) == x,
        after_dot(x + seq!['.'] + rest) == Some(rest),
{
    let s = x + seq!['.'] + rest;
    assert forall|j: int| 0 <= j < x.len() implies s[j] != '.' by {
        assert(s[j] == x[j]);
    }
    assert(s[x.len() as int] == '.');
    lemma_first_index(s, '.', x.len() as int);
    assert(s.take(x.len() as int) =~= x);
    assert(s.skip(x.len() as int + 1) =~= rest);
}

/// A product version read from a file is judged by the numbers it holds: supported
/// exactly when its major part is 5 and it is at least 5.2.6.
pub proof fn lemma_product_version_judged(signature: u32, ms: u32, ls: u32)
    requires
        signature == 0xfeef04bd,
    ensures
        supported_version(product_version_of(signature, ms, ls)) == ({
            let a = (ms >> 16u32) as nat;
            let b = (ms & 0xffffu32) as nat;
            let c = (ls >> 16u32) as nat;
            a == 5 && (b > 2 || (b == 2 && c >= 6))
        }),
{
    let a = (ms >> 16u32) as nat;
    let b = (ms & 0xffffu32) as nat;
    let c = (ls >> 16u32) as nat;
    let d = (ls & 0xffffu32) as nat;
    assert(ms >> 16u32 <= 65535u32) by (bit_vector);
    assert(ms & 0xffffu32 <= 65535u32) by (bit_vector);
    assert(ls >> 16u32 <= 65535u32) by (bit_vector);
    lemma_decimal_no_dash(a);
    lemma_decimal_no_dash(b);
    lemma_decimal_no_dash(c);
    let r2 = decimal(c) + seq!['.'] + decimal(d);
    let r1 = decimal(b) + seq!['.'] + r2;
    let s = decimal(a) + seq!['.'] + r1;
    assert(product_version_of(signature, ms, ls) == Some(s)) by {
        assert(s =~= decimal(a) + seq!['.'] + decimal(b) + seq!['.'] + decimal(c) + seq!['.']
            + decimal(d));
    }
    lemma_dot_split(decimal(a), r1);
    lemma_dot_split(decimal(b), r2);
    lemma_dot_split(decimal(c), decimal(d));
    lemma_parse_decimal(a, 65535);
    lemma_parse_decimal(b, 65535);
    lemma_parse_decimal(c, 65535);
}

fn split_dot(s: &[char]) -> (r: (Vec<char>, Option<Vec<char>>))
    ensures
        r.0@ == dot_field(s@),
        match r.1 {
            Some(rest) => after_dot(s@) == Some(rest@),
            None => after_dot(s@) is None,
        },
{
    match find_char(s, '.') {
        Some(i) => {
            proof { lemma_first_index_found(s@, '.'); }
            assert(first_index(s@, '.') == Some(i as int));
            let n = s.len();
            assert(i < n);
            (sub_chars(s, 0, i), Some(sub_chars(s, i + 1, n)))
        },
        None => (sub_chars(s, 0, s.len()), None),
    }
}

/// Whether the switcher supports a WorkBuddy file version.
pub fn is_supported_workbuddy_version(version: Option<&str>) -> (r: bool)
    ensures
        r == supported_version(
            match version {
                Some(v) => Some(v@),
                None => None,
            },
        ),
{
    let text = match version {
        Some(v) => chars_of(v),
        None => {
            return true;
        },
    };
    assert(text@.subrange(0, text@.len() as int) =~= text@);
    let (f0, r1) = split_dot(text.as_slice());
    let r1 = match r1 {
        Some(r) => r,
        None => {
            return true;
        },
    };
    let (f1, r2) = split_dot(r1.as_slice());
    let r2 = match r2 {
        Some(r) => r,
        None => {
            return true;
        },
    };
    let (f2, _) = split_dot(r2.as_slice());
    let major = parse_unsigned_text(f0.as_slice(), 65535);
    let minor = parse_unsigned_text(f1.as_slice(), 65535);
    let patch = parse_unsigned_text(f2.as_slice(), 65535);
    match (major, minor, patch) {
        (Some(a), Some(b), Some(c)) => a == 5 && (b > 2 || (b == 2 && c >= 6)),
        _ => true,
    }
}

/// The message of an unsupported version.
pub open spec fn unsupported_message(version: Option<Seq<char>>) -> Seq<char> {
    "当前 WorkBuddy "@ + match version {
        Some(v) => v,
        None => "未知版本"@,
    } + " 不在兼容范围内；主题切换器支持 5.2.6 至 5.x。"@
}

/// Refuses a WorkBuddy version outside the supported range.
pub fn ensure_supported_workbuddy_version(version: Option<&str>) -> (r: AppResult<()>)
    ensures
        ({
            let v = match version {
                Some(v) => Some(v@),
                None => None,
            };
            match r {
                Ok(()) => supported_version(v),
                Err(e) => !supported_version(v) && e.code@ == "WORKBUDDY_VERSION_UNSUPPORTED"@
                    && e.message@ == unsupported_message(v),
            }
        }),
{
    if is_supported_workbuddy_version(version) {
        return Ok(());
    }
    let mut message = "当前 WorkBuddy ".to_string();
    match version {
        Some(v) => message.append(v),
        None => message.append("未知版本"),
    }
    message.append(" 不在兼容范围内；主题切换器支持 5.2.6 至 5.x。");
    Err(AppError { code: "WORKBUDDY_VERSION_UNSUPPORTED".to_string(), message })
}

// ---------------------------------------------------------------- registry query output

/// The value of `value_name` on a `reg query` output line: the line must start with the
/// name (ASCII case ignored); the value follows the first `REG_SZ`, or else the first
/// `REG_EXPAND_SZ`, trimmed, and must not be empty.
pub open spec fn registry_value(line: Seq<char>, value_name: Seq<char>) -> Option<Seq<char>> {
    if !has_prefix(lower_text(line), lower_text(value_name)) {
        None
    } else {
        match value_after(line, "REG_SZ"@) {
            Some(v) => Some(v),
            None => value_after(line, "REG_EXPAND_SZ"@),
        }
    }
}

/// The trimmed, non-empty text after the first `kind` in `line`.
pub open spec fn value_after(line: Seq<char>, kind: Seq<char>) -> Option<Seq<char>> {
    match find_first(line, kind) {
        Some(i) => {
            let v = trim(line.skip(i + kind.len()));
            if v.len() > 0 {
                Some(v)
            } else {
                None
            }
        },
        None => None,
    }
}

fn value_after_chars(line: &[char], kind: &str) -> (r: Option<Vec<char>>)
    ensures
        match r {
            Some(v) => value_after(line@, kind@) == Some(v@),
            None => value_after(line@, kind@) is None,
        },
{
    let k = chars_of(kind);
    match find_text(line, k.as_slice()) {
        Some(i) => {
            proof { crate::text::lemma_find_from(line@, k@, 0); }
            assert(crate::text::find_from(line@, k@, 0) == Some(i as int));
            assert(crate::text::occurs_at(line@, k@, i as int));
            let n = line.len();
            assert(i + k@.len() <= n);
            let rest = sub_chars(line, i + k.len(), n);
            assert(rest@ =~= line@.skip(i + k@.len()));
            let v = trim_chars(rest.as_slice());
            if v.len() > 0 {
                Some(v)
            } else {
                None
            }
        },
        None => None,
    }
}

/// The value of `value_name` on one line of `reg query` output.
pub fn registry_value_from_line(line: &str, value_name: &str) -> (r: Option<String>)
    ensures
        match r {
            Some(v) => registry_value(line@, value_name@) == Some(v@),
            None => registry_value(line@, value_name@) is None,
        },
{
    let text = chars_of(line);
    let lower = to_lower_chars(text.as_slice());
    let name = chars_of(value_name);
    let lower_name = to_lower_chars(name.as_slice());
    if !starts_with(lower.as_slice(), lower_name.as_slice()) {
        return None;
    }
    match value_after_chars(text.as_slice(), "REG_SZ") {
        Some(v) => Some(string_of(v.as_slice())),
        None => match value_after_chars(text.as_slice(), "REG_EXPAND_SZ") {
            Some(v) => Some(string_of(v.as_slice())),
            None => None,
        },
    }
}

/// Whether a trimmed output line gives a display name that mentions WorkBuddy.
pub open spec fn names_workbuddy(line: Seq<char>) -> bool {
    match registry_value(line, "DisplayName"@) {
        Some(name) => contains_seq(lower_text(name), "workbuddy"@),
        None => false,
    }
}

/// A scan of `reg query /s` output: the key currently open and the keys whose display
/// name mentions WorkBuddy, in order.
pub open spec fn install_scan(ls: Seq<Seq<char>>) -> (Option<Seq<char>>, Seq<Seq<char>>)
    decreases ls.len(),
{
    if ls.len() == 0 {
        (None, Seq::empty())
    } else {
        let (current, found) = install_scan(ls.drop_last());
        let t = trim(ls.last());
        if has_prefix(t, "HKEY_"@) {
            (Some(t), found)
        } else if names_workbuddy(t) && current is Some {
            (current, found.push(current->0))
        } else {
            (current, found)
        }
    }
}

/// The registry keys whose display name mentions WorkBuddy.
pub fn registry_workbuddy_install_keys(output: &str) -> (r: Vec<String>)
    ensures
        r@.map_values(|k: String| k@) == install_scan(lines(output@)).1,
{
    let all = lines_of(output);
    let ghost ls = lines(output@);
    let hkey = chars_of("HKEY_");
    let mut current: Option<Vec<char>> = None;
    let mut found: Vec<String> = Vec::new();
    let mut i: usize = 0;
    assert(ls.take(0) =~= Seq::<Seq<char>>::empty());
    assert(all@.map_values(|l: Vec<char>| l@).len() == ls.len());
    while i < all.len()
        invariant
            i <= all@.len(),
            all@.map_values(|l: Vec<char>| l@) == ls,
            hkey@ == "HKEY_"@,
            install_scan(ls.take(i as int)).0 == match current {
                Some(c) => Some(c@),
                None => None::<Seq<char>>,
            },
            install_scan(ls.take(i as int)).1 == found@.map_values(|k: String| k@),
        decreases all@.len() - i,
    {
        assert(ls[i as int] == all@[i as int]@);
        assert(ls.take(i + 1).drop_last() =~= ls.take(i as int));
        assert(ls.take(i + 1).last() == ls[i as int]);
        let t = trim_chars(all[i].as_slice());
        if starts_with(t.as_slice(), hkey.as_slice()) {
            current = Some(t);
        } else {
            let line = string_of(t.as_slice());
            let mentions = match registry_value_from_line(line.as_str(), "DisplayName") {
                Some(name) => {
                    let n = chars_of(name.as_str());
                    let lower = to_lower_chars(n.as_slice());
                    let wb = chars_of("workbuddy");
                    contains(lower.as_slice(), wb.as_slice())
                },
                None => false,
            };
            if mentions {
                match &current {
                    Some(c) => {
                        let ghost before = found@;
                        found.push(string_of(c.as_slice()));
                        assert(found@.map_values(|k: String| k@) =~= before.map_values(
                            |k: String| k@,
                        ).push(c@));
                    },
                    None => {},
                }
            }
        }
        i = i + 1;
    }
    assert(ls.take(all@.len() as int) =~= ls);
    found
}

// ---------------------------------------------------------------- running processes

/// `s` without its leading `"` characters.
pub open spec fn skip_quotes(s: Seq<char>) -> Seq<char>
    decreases s.len(),
{
    if s.len() > 0 && s[0] == '"' {
        skip_quotes(s.drop_first())
    } else {
        s
    }
}

/// `s` without its trailing `"` characters.
pub open spec fn drop_quotes(s: Seq<char>) -> Seq<char>
    decreases s.len(),
{
    if s.len() > 0 && s.last() == '"' {
        drop_quotes(s.drop_last())
    } else {
        s
    }
}

/// `str::trim_matches('"')`.
pub open spec fn trim_quotes(s: Seq<char>) -> Seq<char> {
    drop_quotes(skip_quotes(s))
}

/// What separates two cells of a CSV row in which every cell is quoted.
pub open spec fn cell_separator() -> Seq<char> {
    seq!['"', ',', '"']
}

/// The process id on one row of `tasklist /FO CSV /NH` output: with the outer quotes
/// removed, the first cell must name `WorkBuddy.exe` (in any ASCII case) and the second
/// must parse as a `u32`.
pub open spec fn tasklist_pid(row: Seq<char>) -> Option<u32> {
    let t = trim_quotes(row);
    match find_first(t, cell_separator()) {
        None => None,
        Some(i) => {
            let start = i + 3;
            let end = match find_from(t, cell_separator(), start) {
                Some(j) => j,
                None => t.len() as int,
            };
            if lower_text(t.take(i)) != "workbuddy.exe"@ {
                None
            } else {
                match parse_unsigned(t.subrange(start, end), u32::MAX as nat) {
                    Some(v) => Some(v as u32),
                    None => None,
                }
            }
        },
    }
}

/// The WorkBuddy process ids on the rows `ls`, in order.
pub open spec fn tasklist_pids_of(ls: Seq<Seq<char>>) -> Seq<u32>
    decreases ls.len(),
{
    if ls.len() == 0 {
        Seq::empty()
    } else {
        let rest = tasklist_pids_of(ls.drop_last());
        match tasklist_pid(ls.last()) {
            Some(p) => rest.push(p),
            None => rest,
        }
    }
}

fn trim_quote_chars(s: &[char]) -> (r: Vec<char>)
    ensures
        r@ == trim_quotes(s@),
{
    let mut a: usize = 0;
    assert(s@.skip(0) =~= s@);
    while a < s.len() && s[a] == '"'
        invariant
            a <= s@.len(),
            skip_quotes(s@) == skip_quotes(s@.skip(a as int)),
        decreases s@.len() - a,
    {
        assert(s@.skip(a as int).drop_first() =~= s@.skip(a + 1));
        a = a + 1;
    }
    assert(skip_quotes(s@) == s@.skip(a as int));
    let mut b: usize = s.len();
    assert(s@.subrange(a as int, b as int) =~= s@.skip(a as int));
    while b > a && s[b - 1] == '"'
        invariant
            a <= b <= s@.len(),
            trim_quotes(s@) == drop_quotes(s@.subrange(a as int, b as int)),
        decreases b - a,
    {
        assert(s@.subrange(a as int, b as int).drop_last() =~= s@.subrange(a as int, b - 1));
        b = b - 1;
    }
    sub_chars(s, a, b)
}

fn tasklist_pid_of(row: &[char]) -> (r: Option<u32>)
    ensures
        r == tasklist_pid(row@),
{
    let t = trim_quote_chars(row);
    let sep: Vec<char> = vec!['"', ',', '"'];
    assert(sep@ =~= cell_separator());
    let i = match find_text(t.as_slice(), sep.as_slice()) {
        Some(i) => i,
        None => {
            return None;
        },
    };
    proof {
        lemma_find_from(t@, sep@, 0);
        assert(find_from(t@, sep@, 0) == Some(i as int));
        assert(crate::text::occurs_at(t@, sep@, i as int));
        assert(i + 3 <= t@.len());
    }
    let n = t.len();
    assert(i + 3 <= n);
    let start = i + 3;
    let end = match find_text_from(t.as_slice(), sep.as_slice(), start) {
        Some(j) => j,
        None => t.len(),
    };
    proof {
        lemma_find_from(t@, sep@, start as int);
    }
    let image = sub_chars(t.as_slice(), 0, i);
    let lower = to_lower_chars(image.as_slice());
    let name = chars_of("workbuddy.exe");
    assert(image@ =~= t@.take(i as int));
    if !same_chars(lower.as_slice(), name.as_slice()) {
        return None;
    }
    let pid = sub_chars(t.as_slice(), start, end);
    match parse_unsigned_text(pid.as_slice(), 4294967295u64) {
        Some(v) => Some(v as u32),
        None => None,
    }
}

/// The WorkBuddy process ids listed in `tasklist /FO CSV /NH` output, in order.
pub fn tasklist_pids(rows: &str) -> (r: Vec<u32>)
    ensures
        r@ == tasklist_pids_of(lines(rows@)),
{
    let all = lines_of(rows);
    let ghost ls = lines(rows@);
    let mut out: Vec<u32> = Vec::new();
    let mut i: usize = 0;
    assert(ls.take(0) =~= Seq::<Seq<char>>::empty());
    assert(all@.map_values(|l: Vec<char>| l@).len() == ls.len());
    while i < all.len()
        invariant
            i <= all@.len(),
            all@.map_values(|l: Vec<char>| l@) == ls,
            out@ == tasklist_pids_of(ls.take(i as int)),
        decreases all@.len() - i,
    {
        assert(ls[i as int] == all@[i as int]@);
        assert(ls.take(i + 1).drop_last() =~= ls.take(i as int));
        assert(ls.take(i + 1).last() == ls[i as int]);
        match tasklist_pid_of(all[i].as_slice()) {
            Some(p) => out.push(p),
            None => {},
        }
        i = i + 1;
    }
    assert(ls.take(all@.len() as int) =~= ls);
    out
}

// ---------------------------------------------------------------- debugging targets

/// One entry of the renderer's debugging target list.
#[derive(Debug)]
pub struct CdpTarget {
    pub id: String,
    pub target_type: String,
    pub title: String,
    pub url: String,
    pub websocket_debugger_url: Option<String>,
    pub description: Option<String>,
}

/// `s` with every `\` spelled `/`.
pub open spec fn forward_slashed(s: Seq<char>) -> Seq<char> {
    s.map_values(|c: char| if c == '\\' { '/' } else { c })
}

/// The WorkBuddy renderer page: a page with a debugger socket whose URL (any slash,
/// any ASCII case) is the bundled renderer entry, and whose title, description or URL
/// mentions WorkBuddy.
pub open spec fn is_renderer(t: CdpTarget) -> bool {
    &&& t.target_type@ == "page"@
    &&& t.websocket_debugger_url is Some
    &&& contains_seq(lower_text(forward_slashed(t.url@)), "resources/app.asar/renderer/index.html"@)
    &&& (contains_seq(lower_text(t.title@), "workbuddy"@) || (t.description matches Some(d)
        && contains_seq(lower_text(d@), "workbuddy"@)) || contains_seq(
        lower_text(t.url@),
        "workbuddy"@,
    ))
}

fn mentions_workbuddy(s: &str) -> (r: bool)
    ensures
        r == contains_seq(lower_text(s@), "workbuddy"@),
{
    let v = chars_of(s);
    let lower = to_lower_chars(v.as_slice());
    let wb = chars_of("workbuddy");
    contains(lower.as_slice(), wb.as_slice())
}

/// Whether `target` is the WorkBuddy renderer page.
pub fn renderer_matches(target: &CdpTarget) -> (r: bool)
    ensures
        r == is_renderer(*target),
{
    let page = target.target_type == "page".to_string();
    if !page || target.websocket_debugger_url.is_none() {
        return false;
    }
    let url = chars_of(target.url.as_str());
    let mut slashed: Vec<char> = Vec::new();
    let mut i: usize = 0;
    while i < url.len()
        invariant
            i <= url@.len(),
            slashed@ =~= forward_slashed(url@.take(i as int)),
        decreases url@.len() - i,
    {
        let c = url[i];
        slashed.push(if c == '\\' { '/' } else { c });
        i = i + 1;
    }
    assert(url@.take(url@.len() as int) =~= url@);
    let lower = to_lower_chars(slashed.as_slice());
    let entry = chars_of("resources/app.asar/renderer/index.html");
    if !contains(lower.as_slice(), entry.as_slice()) {
        return false;
    }
    let described = match &target.description {
        Some(d) => mentions_workbuddy(d.as_str()),
        None => false,
    };
    mentions_workbuddy(target.title.as_str()) || described || mentions_workbuddy(
        target.url.as_str(),
    )
}

// ---------------------------------------------------------------- runtime replies

/// The theme style nodes the renderer reports.
#[derive(Debug)]
pub struct ThemeNodeMetadata {
    pub style_node_count: u32,
    pub runtime_theme_id: Option<String>,
}

/// Reads the renderer's theme metadata: `styleNodeCount` must be a number that fits a
/// `u32`; `runtimeThemeId` is kept when it is a string.
pub fn parse_theme_node_metadata(value: &JsonValue) -> (r: AppResult<ThemeNodeMetadata>)
    ensures
        ({
            let count = match value.field("styleNodeCount"@) {
                Some(c) => c.u64_value(),
                None => None,
            };
            match r {
                Ok(m) => count == Some(m.style_node_count as u64) && match value.field(
                    "runtimeThemeId"@,
                ) {
                    Some(JsonValue::Str(s)) => m.runtime_theme_id matches Some(t) && t@ == s@,
                    _ => m.runtime_theme_id is None,
                },
                Err(e) => (count is None || count->0 > u32::MAX) && e.code@
                    == "CDP_PROTOCOL_ERROR"@,
            }
        }),
{
    let count = match value.get("styleNodeCount") {
        Some(JsonValue::Number(Some(n))) => *n,
        _ => {
            return Err(AppError::new("CDP_PROTOCOL_ERROR", "主题节点数量格式无效。"));
        },
    };
    if count > 4294967295u64 {
        return Err(AppError::new("CDP_PROTOCOL_ERROR", "主题节点数量格式无效。"));
    }
    let runtime_theme_id = match value.get("runtimeThemeId") {
        Some(JsonValue::Str(s)) => Some(s.clone()),
        _ => None,
    };
    Ok(ThemeNodeMetadata { style_node_count: count as u32, runtime_theme_id })
}

/// `value` is the boolean `b`.
pub open spec fn is_bool(value: Option<JsonValue>, b: bool) -> bool {
    value == Some(JsonValue::Bool(b))
}

/// The `result.pass` flag of a verified target is `true`.
pub open spec fn target_passed(t: JsonValue) -> bool {
    match t.field("result"@) {
        Some(r) => is_bool(r.field("pass"@), true),
        None => false,
    }
}

/// A target that was skipped or passed.
pub open spec fn target_settled(t: JsonValue) -> bool {
    is_bool(t.field("skipped"@), true) || target_passed(t)
}

/// A runtime verification passes when it names targets, at least one passed, and every
/// other one was skipped.
pub open spec fn verify_passes(value: JsonValue) -> bool {
    match value.field("targets"@) {
        Some(JsonValue::Array(targets)) => {
            &&& targets@.len() > 0
            &&& exists|i: int| 0 <= i < targets@.len() && target_passed(#[trigger] targets@[i])
            &&& forall|i: int| 0 <= i < targets@.len() ==> target_settled(#[trigger] targets@[i])
        },
        _ => false,
    }
}

/// One target that was neither skipped nor passed (`result.pass` is not `true`) fails the
/// whole verification, wherever it stands among the targets.
pub proof fn lemma_failed_target_rejects(value: JsonValue, k: int)
    requires
        value.field("targets"@) matches Some(JsonValue::Array(ts)) && 0 <= k < ts@.len()
            && ts@[k].field("skipped"@) != Some(JsonValue::Bool(true)) && !(ts@[k].field(
            "result"@,
        ) matches Some(r) && r.field("pass"@) == Some(JsonValue::Bool(true))),
    ensures
        !verify_passes(value),
{
    if let Some(JsonValue::Array(ts)) = value.field("targets"@) {
        assert(!target_settled(ts@[k]));
    }
}

/// A verification passes only on a list of targets in which some target passed.
pub proof fn lemma_verify_needs_a_pass(value: JsonValue)
    ensures
        verify_passes(value) ==> (value.field("targets"@) matches Some(JsonValue::Array(ts))
            && exists|i: int|
            0 <= i < ts@.len() && ((#[trigger] ts@[i]).field("result"@) matches Some(r)
                && r.field("pass"@) == Some(JsonValue::Bool(true)))),
{
    if verify_passes(value) {
        if let Some(JsonValue::Array(ts)) = value.field("targets"@) {
            let i = choose|i: int| 0 <= i < ts@.len() && target_passed(#[trigger] ts@[i]);
            assert(ts@[i].field("result"@) matches Some(r) && r.field("pass"@) == Some(
                JsonValue::Bool(true),
            ));
        }
    }
}

/// A list of targets in which every target was skipped or passed, and some target
/// passed, passes.
pub proof fn lemma_settled_targets_pass(value: JsonValue, k: int)
    requires
        value.field("targets"@) matches Some(JsonValue::Array(ts)) && 0 <= k < ts@.len() && (
        ts@[k].field("result"@) matches Some(r) && r.field("pass"@) == Some(JsonValue::Bool(true)))
            && forall|i: int|
            0 <= i < ts@.len() ==> (#[trigger] ts@[i]).field("skipped"@) == Some(
                JsonValue::Bool(true),
            ) || (ts@[i].field("result"@) matches Some(r) && r.field("pass"@) == Some(
                JsonValue::Bool(true),
            )),
    ensures
        verify_passes(value),
{
    if let Some(JsonValue::Array(ts)) = value.field("targets"@) {
        assert(target_passed(ts@[k]));
        assert forall|i: int| 0 <= i < ts@.len() implies target_settled(#[trigger] ts@[i]) by {
            assert(ts@[i].field("skipped"@) == Some(JsonValue::Bool(true)) || (ts@[i].field(
                "result"@,
            ) matches Some(r) && r.field("pass"@) == Some(JsonValue::Bool(true))));
        }
    }
}

fn flag(value: &JsonValue, key: &str) -> (r: bool)
    ensures
        r == is_bool(value.field(key@), true),
{
    match value.get(key) {
        Some(JsonValue::Bool(b)) => *b,
        _ => false,
    }
}

fn passed(t: &JsonValue) -> (r: bool)
    ensures
        r == target_passed(*t),
{
    match t.get("result") {
        Some(result) => flag(result, "pass"),
        None => false,
    }
}

/// Whether a runtime verification reply passes.
pub fn codedrobe_verify_passes(value: &JsonValue) -> (r: bool)
    ensures
        r == verify_passes(*value),
{
    let targets = match value.get("targets") {
        Some(JsonValue::Array(targets)) => targets,
        _ => {
            return false;
        },
    };
    if targets.len() == 0 {
        return false;
    }
    let ghost all = targets@;
    assert(verify_passes(*value) == (all.len() > 0 && (exists|i: int| 0 <= i < all.len() && target_passed(#[trigger] all[i])) && (forall|i: int| 0 <= i < all.len() ==> target_settled(#[trigger] all[i]))));
    let mut any = false;
    let mut i: usize = 0;
    while i < targets.len()
        invariant
            i <= targets@.len(),
            all == targets@,
            verify_passes(*value) == (all.len() > 0 && (exists|i: int| 0 <= i < all.len() && target_passed(#[trigger] all[i])) && (forall|i: int| 0 <= i < all.len() ==> target_settled(#[trigger] all[i]))),
            any == exists|j: int| 0 <= j < i && target_passed(#[trigger] targets@[j]),
            forall|j: int| 0 <= j < i ==> target_settled(#[trigger] targets@[j]),
        decreases targets@.len() - i,
    {
        let p = passed(&targets[i]);
        if !(flag(&targets[i], "skipped") || p) {
            assert(!target_settled(targets@[i as int]));
            return false;
        }
        if p {
            any = true;
        }
        i = i + 1;
    }
    any
}

impl ThemeNodeMetadata {
    /// The page shows exactly one theme node, and it carries `runtime_theme_id`.
    pub fn shows(&self, runtime_theme_id: &str) -> (r: bool)
        ensures
            r == (self.style_node_count == 1 && (self.runtime_theme_id matches Some(t) && t@
                == runtime_theme_id@)),
    {
        self.style_node_count == 1 && match &self.runtime_theme_id {
            Some(t) => same_text(t.as_str(), runtime_theme_id),
            None => false,
        }
    }
}

/// Why an applied theme must be rolled back: the runtime's own check failed, or else the
/// page does not show exactly the applied theme's node. `None` when the apply stands.
pub fn apply_failure(verified: bool, node_ok: bool) -> (r: Option<&'static str>)
    ensures
        match r {
            None => verified && node_ok,
            Some(c) => if !verified {
                c@ == "VERIFY_FAILED"@
            } else {
                !node_ok && c@ == "STYLE_NODE_COUNT_INVALID"@
            },
        },
{
    if !verified {
        Some("VERIFY_FAILED")
    } else if !node_ok {
        Some("STYLE_NODE_COUNT_INVALID")
    } else {
        None
    }
}

} // verus!
