//! Theme identifiers, revision references and the on-disk layout of the theme library.
use vstd::prelude::*;
use crate::error::{AppError, AppResult};
use crate::text::{
    chars_of, decimal, decimal_string, find_char, first_index, has_prefix, lemma_first_index, lemma_first_index_found,
    lemma_parse_decimal, parse_unsigned, parse_unsigned_text, push_char, starts_with, string_of,
    sub_chars, trim, trim_chars, is_control, is_control_char, last_pair, find_last_pair, join,
    join_path, lemma_decimal_no_dash,
};

verus! {

/// Whether `c` is an ASCII hexadecimal digit (either case).
pub open spec fn is_hex(c: char) -> bool {
    ('0' <= c && c <= '9') || ('a' <= c && c <= 'f') || ('A' <= c && c <= 'F')
}

/// A resource identifier: exactly 32 hexadecimal digits.
pub open spec fn is_resource_id(s: Seq<char>) -> bool {
    s.len() == 32 && forall|i: int| 0 <= i < s.len() ==> is_hex(#[trigger] s[i])
}

/// The prefix of every library theme identifier.
pub open spec fn theme_prefix() -> Seq<char> {
    "custom-v2-"@
}

/// A library theme identifier: `custom-v2-` followed by a resource identifier.
pub open spec fn is_theme_id(s: Seq<char>) -> bool {
    has_prefix(s, theme_prefix()) && is_resource_id(s.skip(theme_prefix().len() as int))
}

pub fn is_hex_char(c: char) -> (r: bool)
    ensures
        r == is_hex(c),
{
    ('0' <= c && c <= '9') || ('a' <= c && c <= 'f') || ('A' <= c && c <= 'F')
}

fn store_error(message: &str) -> (e: AppError)
    ensures
        e.code@ == "THEME_STORE_ERROR"@,
{
    AppError::new("THEME_STORE_ERROR", message)
}

fn is_resource_id_chars(v: &[char]) -> (r: bool)
    ensures
        r == is_resource_id(v@),
{
    if v.len() != 32 {
        return false;
    }
    let mut i: usize = 0;
    while i < v.len()
        invariant
            i <= v@.len(),
            v@.len() == 32,
            forall|j: int| 0 <= j < i ==> is_hex(#[trigger] v@[j]),
        decreases v@.len() - i,
    {
        if !is_hex_char(v[i]) {
            return false;
        }
        i = i + 1;
    }
    true
}

/// Accepts exactly the resource identifiers (32 hexadecimal digits).
pub fn check_id(value: &str) -> (r: AppResult<()>)
    ensures
        r is Ok <==> is_resource_id(value@),
        r matches Err(e) ==> e.code@ == "THEME_STORE_ERROR"@,
{
    let v = chars_of(value);
    if is_resource_id_chars(v.as_slice()) {
        Ok(())
    } else {
        Err(store_error("主题资源标识无效。"))
    }
}

fn is_theme_id_chars(v: &[char]) -> (r: bool)
    ensures
        r == is_theme_id(v@),
{
    let prefix = chars_of("custom-v2-");
    if !starts_with(v, prefix.as_slice()) {
        return false;
    }
    let rest = sub_chars(v, prefix.len(), v.len());
    assert(rest@ =~= v@.skip(prefix@.len() as int));
    is_resource_id_chars(rest.as_slice())
}

/// Accepts exactly the library theme identifiers.
pub fn check_theme_id(value: &str) -> (r: AppResult<()>)
    ensures
        r is Ok <==> is_theme_id(value@),
        r matches Err(e) ==> e.code@ == "THEME_STORE_ERROR"@,
{
    let v = chars_of(value);
    if is_theme_id_chars(v.as_slice()) {
        Ok(())
    } else {
        Err(store_error("主题标识无效。"))
    }
}

/// A theme, optionally pinned to one saved revision.
#[derive(Debug)]
pub struct ThemeRef {
    pub id: String,
    pub revision: Option<u32>,
}

/// The text form of a reference: `id`, or `id@revision`.
pub open spec fn ref_key(id: Seq<char>, revision: Option<u32>) -> Seq<char> {
    match revision {
        Some(r) => id + seq!['@'] + decimal(r as nat),
        None => id,
    }
}

/// What a reference text parses to: text without `@` is an unpinned identifier; otherwise
/// the part before the first `@` must be a library theme identifier and the rest a
/// positive `u32` revision.
pub open spec fn parse_ref(key: Seq<char>) -> Option<(Seq<char>, Option<u32>)> {
    match first_index(key, '@') {
        None => Some((key, None)),
        Some(i) => {
            let id = key.take(i);
            let revision = parse_unsigned(key.skip(i + 1), u32::MAX as nat);
            if !is_theme_id(id) {
                None
            } else {
                match revision {
                    Some(v) => if v > 0 {
                        Some((id, Some(v as u32)))
                    } else {
                        None
                    },
                    None => None,
                }
            }
        },
    }
}

impl ThemeRef {
    /// The text form: `id` or `id@revision`.
    pub fn key(&self) -> (r: String)
        ensures
            r@ == ref_key(self.id@, self.revision),
    {
        match self.revision {
            Some(revision) => {
                let mut text = self.id.clone();
                push_char(&mut text, '@');
                let digits = decimal_string(revision as u64);
                text.append(digits.as_str());
                text
            },
            None => self.id.clone(),
        }
    }

    /// Parses the text form; a pinned reference must name a library theme and a
    /// positive revision.
    pub fn parse(key: &str) -> (r: AppResult<ThemeRef>)
        ensures
            r is Ok <==> parse_ref(key@) is Some,
            r matches Ok(t) ==> parse_ref(key@) == Some((t.id@, t.revision)),
            r matches Err(e) ==> e.code@ == "THEME_STORE_ERROR"@,
    {
        let chars = chars_of(key);
        match find_char(chars.as_slice(), '@') {
            None => Ok(ThemeRef { id: key.to_string(), revision: None }),
            Some(i) => {
                proof { lemma_first_index_found(chars@, '@'); }
                let id = sub_chars(chars.as_slice(), 0, i);
                let rest = sub_chars(chars.as_slice(), i + 1, chars.len());
                assert(id@ =~= key@.take(i as int));
                assert(rest@ =~= key@.skip(i + 1));
                if !is_theme_id_chars(id.as_slice()) {
                    return Err(store_error("主题标识无效。"));
                }
                match parse_unsigned_text(rest.as_slice(), 4294967295u64) {
                    Some(v) => {
                        if v > 0 {
                            Ok(ThemeRef { id: string_of(id.as_slice()), revision: Some(v as u32) })
                        } else {
                            Err(store_error("主题修订号无效。"))
                        }
                    },
                    None => Err(store_error("主题修订号无效。")),
                }
            },
        }
    }
}

/// Parsing the text form of a reference gives the reference back, for every identifier
/// without `@` and, for pinned references, every library theme identifier and positive
/// revision.
pub proof fn lemma_ref_key_roundtrip(id: Seq<char>, revision: Option<u32>)
    requires
        forall|i: int| 0 <= i < id.len() ==> id[i] != '@',
        revision matches Some(r) ==> r > 0 && is_theme_id(id),
    ensures
        parse_ref(ref_key(id, revision)) == Some((id, revision)),
{
    let key = ref_key(id, revision);
    match revision {
        None => {
            lemma_first_index(id, '@', id.len() as int);
        },
        Some(r) => {
            assert(key[id.len() as int] == '@');
            assert forall|j: int| 0 <= j < id.len() implies key[j] != '@' by {
                assert(key[j] == id[j]);
            }
            lemma_first_index(key, '@', id.len() as int);
            assert(key.take(id.len() as int) =~= id);
            assert(key.skip(id.len() as int + 1) =~= decimal(r as nat));
            lemma_parse_decimal(r as nat, u32::MAX as nat);
        },
    }
}

/// A valid theme name: after trimming, 1 to 48 characters and no control characters.
pub open spec fn valid_name(name: Seq<char>) -> bool {
    let t = trim(name);
    0 < t.len() <= 48 && forall|i: int| 0 <= i < t.len() ==> !is_control(#[trigger] t[i])
}

/// The trimmed theme name, when it is valid.
pub fn validate_name(value: &str) -> (r: AppResult<String>)
    ensures
        r is Ok <==> valid_name(value@),
        r matches Ok(n) ==> n@ == trim(value@),
        r matches Err(e) ==> e.code@ == "THEME_STORE_ERROR"@,
{
    let chars = chars_of(value);
    let t = trim_chars(chars.as_slice());
    if t.len() == 0 || t.len() > 48 {
        return Err(store_error("主题名称应为 1–48 个字符。"));
    }
    let mut i: usize = 0;
    while i < t.len()
        invariant
            i <= t@.len(),
            t@ == trim(value@),
            forall|j: int| 0 <= j < i ==> !is_control(#[trigger] t@[j]),
        decreases t@.len() - i,
    {
        if is_control_char(t[i]) {
            assert(is_control(trim(value@)[i as int]));
            return Err(store_error("主题名称应为 1–48 个字符。"));
        }
        i = i + 1;
    }
    Ok(string_of(t.as_slice()))
}

/// The identifier under which a library revision runs inside WorkBuddy.
pub open spec fn runtime_id_of(id: Seq<char>, revision: Option<u32>) -> Seq<char> {
    "workbuddy-"@ + id + "-r"@ + decimal(
        match revision {
            Some(r) => r as nat,
            None => 0,
        },
    )
}

/// The runtime identifier `workbuddy-{id}-r{revision}` (revision 0 when unpinned).
pub fn runtime_id(reference: &ThemeRef) -> (r: String)
    ensures
        r@ == runtime_id_of(reference.id@, reference.revision),
{
    let mut text = "workbuddy-".to_string();
    text.append(reference.id.as_str());
    text.append("-r");
    let revision: u32 = match reference.revision {
        Some(r) => r,
        None => 0,
    };
    let digits = decimal_string(revision as u64);
    text.append(digits.as_str());
    text
}

/// What a runtime identifier names: after `workbuddy-`, a library theme identifier, then
/// the last `-r`, then a `u32` revision.
pub open spec fn parse_runtime_id(s: Seq<char>) -> Option<(Seq<char>, u32)> {
    let prefix = "workbuddy-"@;
    if !has_prefix(s, prefix) {
        None
    } else {
        let rest = s.skip(prefix.len() as int);
        match last_pair(rest, '-', 'r') {
            None => None,
            Some(i) => {
                let theme = rest.take(i);
                if !is_theme_id(theme) {
                    None
                } else {
                    match parse_unsigned(rest.skip(i + 2), u32::MAX as nat) {
                        Some(v) => Some((theme, v as u32)),
                        None => None,
                    }
                }
            },
        }
    }
}

/// The pinned library reference behind a runtime identifier, if it names one.
pub fn reference_from_runtime(id: &str) -> (r: Option<ThemeRef>)
    ensures
        r is Some <==> parse_runtime_id(id@) is Some,
        r matches Some(t) ==> parse_runtime_id(id@) == Some((t.id@, t.revision->0))
            && t.revision is Some,
{
    let chars = chars_of(id);
    let prefix = chars_of("workbuddy-");
    if !starts_with(chars.as_slice(), prefix.as_slice()) {
        return None;
    }
    let rest = sub_chars(chars.as_slice(), prefix.len(), chars.len());
    assert(rest@ =~= id@.skip(prefix@.len() as int));
    match find_last_pair(rest.as_slice(), '-', 'r') {
        None => None,
        Some(i) => {
            proof { lemma_last_pair_found(rest@, '-', 'r'); }
            let theme = sub_chars(rest.as_slice(), 0, i);
            let digits = sub_chars(rest.as_slice(), i + 2, rest.len());
            assert(theme@ =~= rest@.take(i as int));
            assert(digits@ =~= rest@.skip(i + 2));
            if !is_theme_id_chars(theme.as_slice()) {
                return None;
            }
            match parse_unsigned_text(digits.as_slice(), 4294967295u64) {
                Some(v) => Some(ThemeRef { id: string_of(theme.as_slice()), revision: Some(v as u32) }),
                None => None,
            }
        },
    }
}

proof fn lemma_last_pair_found(s: Seq<char>, a: char, b: char)
    requires
        last_pair(s, a, b) is Some,
    ensures
        0 <= last_pair(s, a, b)->0 && last_pair(s, a, b)->0 + 2 <= s.len(),
    decreases s.len(),
{
    if !(s[s.len() - 2] == a && s[s.len() - 1] == b) {
        lemma_last_pair_found(s.drop_last(), a, b);
    }
}

proof fn lemma_last_pair_before_digits(x: Seq<char>, d: Seq<char>)
    requires
        forall|i: int| 0 <= i < d.len() ==> d[i] != '-' && d[i] != 'r',
    ensures
        last_pair(x + "-r"@ + d, '-', 'r') == Some(x.len() as int),
    decreases d.len(),
{
    let s = x + "-r"@ + d;
    assert("-r"@ =~= seq!['-', 'r']) by {
        reveal_strlit("-r");
    }
    if d.len() == 0 {
        assert(s[s.len() - 2] == '-' && s[s.len() - 1] == 'r');
    } else {
        assert(s.drop_last() =~= x + "-r"@ + d.drop_last());
        lemma_last_pair_before_digits(x, d.drop_last());
        assert(s[s.len() - 1] == d.last());
    }
}

/// A pinned library reference is recovered from its runtime identifier.
pub proof fn lemma_runtime_id_roundtrip(id: Seq<char>, revision: u32)
    requires
        is_theme_id(id),
    ensures
        parse_runtime_id(runtime_id_of(id, Some(revision))) == Some((id, revision)),
{
    let prefix = "workbuddy-"@;
    let d = decimal(revision as nat);
    let s = runtime_id_of(id, Some(revision));
    assert(s =~= prefix + (id + "-r"@ + d));
    assert(s.take(prefix.len() as int) =~= prefix);
    let rest = s.skip(prefix.len() as int);
    assert(rest =~= id + "-r"@ + d);
    lemma_decimal_no_dash(revision as nat);
    lemma_last_pair_before_digits(id, d);
    assert("-r"@.len() == 2) by {
        reveal_strlit("-r");
    }
    assert(rest.take(id.len() as int) =~= id);
    assert(rest.skip(id.len() as int + 2) =~= d);
    lemma_parse_decimal(revision as nat, u32::MAX as nat);
}

} // verus!
