//! The structured diagnostic line protocol of the theme runtime: only allowlisted codes
//! and check names ever leave it, whatever else the subprocess prints.
use vstd::prelude::*;
use crate::json::JsonValue;
use crate::text::{
    chars_of, decimal, decimal_string, has_prefix, lines, lines_of, push_char, same_text,
    starts_with, string_of, sub_chars, utf8_len_at_most,
};

verus! {

/// The codes a diagnostic may carry.
pub open spec fn code_names() -> Seq<&'static str> {
    seq![
        "CODEDROBE_RESTART_REQUIRED",
        "CODEDROBE_VERIFY_FAILED",
        "CODEDROBE_DOM_INCOMPATIBLE",
        "CODEDROBE_PORT_OCCUPIED",
        "CODEDROBE_TARGET_TIMEOUT",
        "CODEDROBE_CDP_TIMEOUT",
        "CODEDROBE_CDP_CONNECTION_FAILED",
        "CODEDROBE_CDP_PROTOCOL_ERROR",
        "CODEDROBE_RENDERER_EVALUATION_FAILED",
        "CODEDROBE_THEME_READ_FAILED",
        "CODEDROBE_THEME_INVALID",
        "TARGET_NOT_FOUND",
        "NOT_CONNECTED",
        "CODEDROBE_COMMAND_FAILED",
    ]
}

/// The check names a diagnostic may carry, in ascending byte order.
pub open spec fn check_names() -> Seq<&'static str> {
    seq![
        "assistant-paint",
        "assistant-shell",
        "assistant-text",
        "automation-shell",
        "canvas-paint",
        "composer-paint",
        "connector-shell",
        "conversation-composer",
        "conversation-editor",
        "conversation-timeline",
        "css-identity",
        "dialog-paint",
        "editor-paint",
        "editor-text",
        "expert-shell",
        "home-canvas-paint",
        "home-composer",
        "home-composer-panel",
        "home-header",
        "horizontal-layout",
        "host-root",
        "images-decoded",
        "known-scene",
        "menu-paint",
        "project-chat-composer",
        "project-chat-shell",
        "projects-shell",
        "renderer-profile",
        "root",
        "runtime-installed",
        "scene-composer",
        "send-disc",
        "send-disc-hover",
        "send-hover",
        "send-paint",
        "single-style-node",
        "skills-shell",
        "style-present",
        "theme-identity",
        "user-paint",
    ]
}

/// The codes after which retrying the same operation cannot succeed.
pub open spec fn deterministic_codes() -> Seq<&'static str> {
    seq![
        "CODEDROBE_DOM_INCOMPATIBLE",
        "COMPAT_STYLE_MISMATCH",
        "COMPAT_STRUCTURE_UNSUPPORTED",
        "COMPAT_PALETTE_UNSUPPORTED",
        "COMPAT_IMAGE_INVALID",
        "APPLY_BASELINE_UNKNOWN",
        "APPLY_RECOVERY_PENDING",
        "CDP_TARGET_AMBIGUOUS",
        "CODEDROBE_THEME_READ_FAILED",
        "CODEDROBE_THEME_INVALID",
        "CODEDROBE_VERIFY_FAILED",
        "CODEDROBE_NOT_FOUND",
        "NODE_NOT_FOUND",
        "CODEDROBE_RESTART_REQUIRED",
        "UNSUPPORTED_WORKBUDDY_VERSION",
    ]
}

fn code_table() -> (r: Vec<&'static str>)
    ensures
        r@ == code_names(),
{
    vec![
        "CODEDROBE_RESTART_REQUIRED",
        "CODEDROBE_VERIFY_FAILED",
        "CODEDROBE_DOM_INCOMPATIBLE",
        "CODEDROBE_PORT_OCCUPIED",
        "CODEDROBE_TARGET_TIMEOUT",
        "CODEDROBE_CDP_TIMEOUT",
        "CODEDROBE_CDP_CONNECTION_FAILED",
        "CODEDROBE_CDP_PROTOCOL_ERROR",
        "CODEDROBE_RENDERER_EVALUATION_FAILED",
        "CODEDROBE_THEME_READ_FAILED",
        "CODEDROBE_THEME_INVALID",
        "TARGET_NOT_FOUND",
        "NOT_CONNECTED",
        "CODEDROBE_COMMAND_FAILED",
    ]
}


fn check_table() -> (r: Vec<&'static str>)
    ensures
        r@ == check_names(),
{
    vec![
        "assistant-paint",
        "assistant-shell",
        "assistant-text",
        "automation-shell",
        "canvas-paint",
        "composer-paint",
        "connector-shell",
        "conversation-composer",
        "conversation-editor",
        "conversation-timeline",
        "css-identity",
        "dialog-paint",
        "editor-paint",
        "editor-text",
        "expert-shell",
        "home-canvas-paint",
        "home-composer",
        "home-composer-panel",
        "home-header",
        "horizontal-layout",
        "host-root",
        "images-decoded",
        "known-scene",
        "menu-paint",
        "project-chat-composer",
        "project-chat-shell",
        "projects-shell",
        "renderer-profile",
        "root",
        "runtime-installed",
        "scene-composer",
        "send-disc",
        "send-disc-hover",
        "send-hover",
        "send-paint",
        "single-style-node",
        "skills-shell",
        "style-present",
        "theme-identity",
        "user-paint",
    ]
}

fn deterministic_table() -> (r: Vec<&'static str>)
    ensures
        r@ == deterministic_codes(),
{
    vec![
        "CODEDROBE_DOM_INCOMPATIBLE",
        "COMPAT_STYLE_MISMATCH",
        "COMPAT_STRUCTURE_UNSUPPORTED",
        "COMPAT_PALETTE_UNSUPPORTED",
        "COMPAT_IMAGE_INVALID",
        "APPLY_BASELINE_UNKNOWN",
        "APPLY_RECOVERY_PENDING",
        "CDP_TARGET_AMBIGUOUS",
        "CODEDROBE_THEME_READ_FAILED",
        "CODEDROBE_THEME_INVALID",
        "CODEDROBE_VERIFY_FAILED",
        "CODEDROBE_NOT_FOUND",
        "NODE_NOT_FOUND",
        "CODEDROBE_RESTART_REQUIRED",
        "UNSUPPORTED_WORKBUDDY_VERSION",
    ]
}

/// Whether `text` is one of `names`.
pub open spec fn listed(names: Seq<&'static str>, text: Seq<char>) -> bool {
    exists|i: int| 0 <= i < names.len() && (#[trigger] names[i])@ == text
}

/// The failures that a retry cannot fix, and that therefore pause the keeper, are
/// exactly these fifteen codes; every other code is retried.
pub proof fn lemma_deterministic_codes_exact(code: Seq<char>)
    ensures
        listed(deterministic_codes(), code) <==> (
            code == "CODEDROBE_DOM_INCOMPATIBLE"@
            || code == "COMPAT_STYLE_MISMATCH"@
            || code == "COMPAT_STRUCTURE_UNSUPPORTED"@
            || code == "COMPAT_PALETTE_UNSUPPORTED"@
            || code == "COMPAT_IMAGE_INVALID"@
            || code == "APPLY_BASELINE_UNKNOWN"@
            || code == "APPLY_RECOVERY_PENDING"@
            || code == "CDP_TARGET_AMBIGUOUS"@
            || code == "CODEDROBE_THEME_READ_FAILED"@
            || code == "CODEDROBE_THEME_INVALID"@
            || code == "CODEDROBE_VERIFY_FAILED"@
            || code == "CODEDROBE_NOT_FOUND"@
            || code == "NODE_NOT_FOUND"@
            || code == "CODEDROBE_RESTART_REQUIRED"@
            || code == "UNSUPPORTED_WORKBUDDY_VERSION"@
        ),
{
    if listed(deterministic_codes(), code) {
        let i = choose|i: int| 0 <= i < deterministic_codes().len() && (#[trigger] deterministic_codes()[i])@ == code;
        assert(0 <= i < 15);
    } else {
        if code == "CODEDROBE_DOM_INCOMPATIBLE"@ {
            assert(deterministic_codes()[0]@ == code);
        } else if code == "COMPAT_STYLE_MISMATCH"@ {
            assert(deterministic_codes()[1]@ == code);
        } else if code == "COMPAT_STRUCTURE_UNSUPPORTED"@ {
            assert(deterministic_codes()[2]@ == code);
        } else if code == "COMPAT_PALETTE_UNSUPPORTED"@ {
            assert(deterministic_codes()[3]@ == code);
        } else if code == "COMPAT_IMAGE_INVALID"@ {
            assert(deterministic_codes()[4]@ == code);
        } else if code == "APPLY_BASELINE_UNKNOWN"@ {
            assert(deterministic_codes()[5]@ == code);
        } else if code == "APPLY_RECOVERY_PENDING"@ {
            assert(deterministic_codes()[6]@ == code);
        } else if code == "CDP_TARGET_AMBIGUOUS"@ {
            assert(deterministic_codes()[7]@ == code);
        } else if code == "CODEDROBE_THEME_READ_FAILED"@ {
            assert(deterministic_codes()[8]@ == code);
        } else if code == "CODEDROBE_THEME_INVALID"@ {
            assert(deterministic_codes()[9]@ == code);
        } else if code == "CODEDROBE_VERIFY_FAILED"@ {
            assert(deterministic_codes()[10]@ == code);
        } else if code == "CODEDROBE_NOT_FOUND"@ {
            assert(deterministic_codes()[11]@ == code);
        } else if code == "NODE_NOT_FOUND"@ {
            assert(deterministic_codes()[12]@ == code);
        } else if code == "CODEDROBE_RESTART_REQUIRED"@ {
            assert(deterministic_codes()[13]@ == code);
        } else if code == "UNSUPPORTED_WORKBUDDY_VERSION"@ {
            assert(deterministic_codes()[14]@ == code);
        }
    }
}

/// The entry of `table` spelled `text`, if any.
fn find_name(table: &Vec<&'static str>, text: &str) -> (r: Option<&'static str>)
    ensures
        match r {
            Some(name) => name@ == text@ && table@.contains(name),
            None => !listed(table@, text@),
        },
{
    let mut i: usize = 0;
    while i < table.len()
        invariant
            i <= table@.len(),
            forall|j: int| 0 <= j < i ==> (#[trigger] table@[j])@ != text@,
        decreases table@.len() - i,
    {
        if same_text(table[i], text) {
            assert(table@[i as int] == table[i as int]);
            return Some(table[i]);
        }
        i = i + 1;
    }
    None
}

/// Whether a retry of an operation that failed with `code` would fail the same way.
pub fn deterministic(code: &str) -> (r: bool)
    ensures
        r == listed(deterministic_codes(), code@),
{
    let table = deterministic_table();
    find_name(&table, code).is_some()
}

/// The user-facing explanation of a failure code.
pub open spec fn message_for(code: Seq<char>) -> &'static str {
    if code == "CODEDROBE_RESTART_REQUIRED"@ {
        "WorkBuddy 需要重启后才能开启本地 CDP；请保存工作后确认重启。"
    } else if code == "CODEDROBE_VERIFY_FAILED"@ {
        "主题应用后的校验未通过，已停止自动重试。请恢复原版或更换主题。"
    } else if code == "CODEDROBE_DOM_INCOMPATIBLE"@ {
        "当前 WorkBuddy 页面的必要组件与主题不匹配。请回到首页重试；仍失败时请更新主题切换器。"
    } else if code == "CODEDROBE_PORT_OCCUPIED"@ {
        "本地 CDP 端口已被其他程序占用。"
    } else if code == "CODEDROBE_THEME_READ_FAILED"@ || code == "CODEDROBE_THEME_INVALID"@ {
        "主题资源无法读取或格式无效。请重新安装完整的主题切换器；自定义主题可从主题库重新保存。"
    } else if code == "CODEDROBE_TIMEOUT"@ || code == "CODEDROBE_CDP_TIMEOUT"@ || code
        == "CODEDROBE_TARGET_TIMEOUT"@ {
        "WorkBuddy 本地连接响应超时。请等待窗口加载完成后重试。"
    } else if code == "CODEDROBE_CDP_CONNECTION_FAILED"@ || code == "TARGET_NOT_FOUND"@ || code
        == "NOT_CONNECTED"@ {
        "未连接到可用的 WorkBuddy 页面，请检查连接状态后重试。"
    } else if code == "CODEDROBE_CDP_PROTOCOL_ERROR"@ || code
        == "CODEDROBE_RENDERER_EVALUATION_FAILED"@ {
        "WorkBuddy 页面执行主题检查失败。请重试；持续失败时请提供此错误码。"
    } else {
        "本地主题操作未完成，请在设置与诊断中查看错误码。"
    }
}

/// The user-facing explanation of a failure code.
pub fn message(code: &str) -> (r: &'static str)
    ensures
        r == message_for(code@),
{
    if same_text(code, "CODEDROBE_RESTART_REQUIRED") {
        "WorkBuddy 需要重启后才能开启本地 CDP；请保存工作后确认重启。"
    } else if same_text(code, "CODEDROBE_VERIFY_FAILED") {
        "主题应用后的校验未通过，已停止自动重试。请恢复原版或更换主题。"
    } else if same_text(code, "CODEDROBE_DOM_INCOMPATIBLE") {
        "当前 WorkBuddy 页面的必要组件与主题不匹配。请回到首页重试；仍失败时请更新主题切换器。"
    } else if same_text(code, "CODEDROBE_PORT_OCCUPIED") {
        "本地 CDP 端口已被其他程序占用。"
    } else if same_text(code, "CODEDROBE_THEME_READ_FAILED") || same_text(
        code,
        "CODEDROBE_THEME_INVALID",
    ) {
        "主题资源无法读取或格式无效。请重新安装完整的主题切换器；自定义主题可从主题库重新保存。"
    } else if same_text(code, "CODEDROBE_TIMEOUT") || same_text(code, "CODEDROBE_CDP_TIMEOUT")
        || same_text(code, "CODEDROBE_TARGET_TIMEOUT") {
        "WorkBuddy 本地连接响应超时。请等待窗口加载完成后重试。"
    } else if same_text(code, "CODEDROBE_CDP_CONNECTION_FAILED") || same_text(
        code,
        "TARGET_NOT_FOUND",
    ) || same_text(code, "NOT_CONNECTED") {
        "未连接到可用的 WorkBuddy 页面，请检查连接状态后重试。"
    } else if same_text(code, "CODEDROBE_CDP_PROTOCOL_ERROR") || same_text(
        code,
        "CODEDROBE_RENDERER_EVALUATION_FAILED",
    ) {
        "WorkBuddy 页面执行主题检查失败。请重试；持续失败时请提供此错误码。"
    } else {
        "本地主题操作未完成，请在设置与诊断中查看错误码。"
    }
}


/// A parsed diagnostic: an allowlisted code and the allowlisted checks it names.
#[derive(Debug)]
pub struct Diagnostic {
    pub code: &'static str,
    pub checks: Vec<&'static str>,
}

/// Decimal text of a signed integer.
pub open spec fn signed_decimal(n: int) -> Seq<char> {
    if n < 0 {
        seq!['-'] + decimal((-n) as nat)
    } else {
        decimal(n as nat)
    }
}

/// `parts` joined with `sep` between neighbours.
pub open spec fn joined(parts: Seq<Seq<char>>, sep: Seq<char>) -> Seq<char>
    decreases parts.len(),
{
    if parts.len() == 0 {
        Seq::empty()
    } else if parts.len() == 1 {
        parts[0]
    } else {
        joined(parts.drop_last(), sep) + sep + parts.last()
    }
}

/// The one-line log form: `CODE-EXIT<exit>`, then `-CHECKS-` and the checks joined by
/// `+` when there are any.
pub open spec fn log_text(code: Seq<char>, exit: int, checks: Seq<Seq<char>>) -> Seq<char> {
    code + "-EXIT"@ + signed_decimal(exit) + if checks.len() == 0 {
        Seq::<char>::empty()
    } else {
        "-CHECKS-"@ + joined(checks, "+"@)
    }
}

impl Diagnostic {
    /// The views of the check names.
    pub open spec fn check_texts(&self) -> Seq<Seq<char>> {
        self.checks@.map_values(|c: &'static str| c@)
    }

    /// The log form of this diagnostic for a process that exited with `exit`.
    pub fn log_code(&self, exit: i32) -> (r: String)
        ensures
            r@ == log_text(self.code@, exit as int, self.check_texts()),
    {
        let mut text = self.code.to_string();
        text.append("-EXIT");
        if exit < 0 {
            push_char(&mut text, '-');
            let magnitude: i64 = -(exit as i64);
            text.append(decimal_string(magnitude as u64).as_str());
        } else {
            text.append(decimal_string(exit as u64).as_str());
        }
        let ghost head = text@;
        assert(head == self.code@ + "-EXIT"@ + signed_decimal(exit as int));
        let n = self.checks.len();
        if n > 0 {
            text.append("-CHECKS-");
            let mut joined_text = self.checks[0].to_string();
            let mut i: usize = 1;
            assert(self.check_texts().take(1) =~= seq![self.checks@[0]@]);
            while i < n
                invariant
                    1 <= i <= n,
                    n == self.checks@.len(),
                    joined_text@ == joined(self.check_texts().take(i as int), "+"@),
                decreases n - i,
            {
                push_char(&mut joined_text, '+');
                joined_text.append(self.checks[i]);
                proof {
                    let t = self.check_texts().take(i + 1);
                    assert(t.drop_last() =~= self.check_texts().take(i as int));
                    assert(t.last() == self.checks@[i as int]@);
                    assert(seq!['+'] =~= "+"@) by {
                        reveal_strlit("+");
                    }
                }
                i = i + 1;
            }
            assert(self.check_texts().take(n as int) =~= self.check_texts());
            text.append(joined_text.as_str());
        }
        text
    }
}

fn join_checks(checks: &Vec<&'static str>, sep: &str) -> (r: String)
    requires
        checks@.len() > 0,
    ensures
        r@ == joined(checks@.map_values(|c: &'static str| c@), sep@),
{
    let ghost texts = checks@.map_values(|c: &'static str| c@);
    let n = checks.len();
    let mut text = checks[0].to_string();
    let mut i: usize = 1;
    assert(texts.take(1) =~= seq![checks@[0]@]);
    while i < n
        invariant
            1 <= i <= n,
            n == checks@.len(),
            texts == checks@.map_values(|c: &'static str| c@),
            text@ == joined(texts.take(i as int), sep@),
        decreases n - i,
    {
        text.append(sep);
        text.append(checks[i]);
        proof {
            let t = texts.take(i + 1);
            assert(t.drop_last() =~= texts.take(i as int));
            assert(t.last() == checks@[i as int]@);
        }
        i = i + 1;
    }
    assert(texts.take(n as int) =~= texts);
    text
}

/// The failure a runtime process reports: its diagnostic, or `CODEDROBE_COMMAND_FAILED`
/// without checks when it printed none.
pub fn failure_report(found: Option<Diagnostic>) -> (r: Diagnostic)
    ensures
        match found {
            Some(d) => r == d,
            None => r.code@ == "CODEDROBE_COMMAND_FAILED"@ && r.checks@.len() == 0,
        },
{
    match found {
        Some(d) => d,
        None => Diagnostic { code: "CODEDROBE_COMMAND_FAILED", checks: Vec::new() },
    }
}

/// What the user is told of a failed runtime command: the explanation of its code, then
/// the checks it names, joined by `、`, when it names any.
pub open spec fn failure_text(d: Diagnostic) -> Seq<char> {
    message_for(d.code@)@ + if d.checks@.len() == 0 {
        Seq::<char>::empty()
    } else {
        " 检查项："@ + joined(d.check_texts(), "、"@) + "。"@
    }
}

impl Diagnostic {
    /// The message shown for this failure.
    pub fn failure_message(&self) -> (r: String)
        ensures
            r@ == failure_text(*self),
    {
        let mut text = message(self.code).to_string();
        if self.checks.len() > 0 {
            text.append(" 检查项：");
            let list = join_checks(&self.checks, "、");
            text.append(list.as_str());
            text.append("。");
        }
        text
    }
}

/// The diagnostic line prefix.
pub open spec fn line_prefix() -> Seq<char> {
    "[codedrobe-diagnostic] "@
}

/// The JSON body of a diagnostic line: the text after the prefix, when its UTF-8
/// encoding is at most 4096 bytes.
pub open spec fn line_body(line: Seq<char>) -> Option<Seq<char>> {
    let body = line.skip(line_prefix().len() as int);
    if has_prefix(line, line_prefix()) && vstd::utf8::encode_utf8(body).len() <= 4096 {
        Some(body)
    } else {
        None
    }
}

/// The candidate diagnostic bodies of a process output, in order.
pub open spec fn bodies(output: Seq<char>) -> Seq<Seq<char>> {
    lines(output).filter_map(|l: Seq<char>| line_body(l))
}

/// The JSON bodies of the diagnostic lines of `output`, in order; every other line, and
/// every body over the size bound, is dropped.
pub fn diagnostic_bodies(output: &str) -> (r: Vec<String>)
    ensures
        r@.map_values(|b: String| b@) == bodies(output@),
{
    let all = lines_of(output);
    let prefix = chars_of("[codedrobe-diagnostic] ");
    let ghost ls = lines(output@);
    let mut out: Vec<String> = Vec::new();
    let mut i: usize = 0;
    assert(ls.take(0) =~= Seq::<Seq<char>>::empty());
    assert(all@.map_values(|l: Vec<char>| l@).len() == ls.len());
    while i < all.len()
        invariant
            i <= all@.len(),
            ls == lines(output@),
            all@.map_values(|l: Vec<char>| l@) == ls,
            prefix@ == line_prefix(),
            out@.map_values(|b: String| b@) == ls.take(i as int).filter_map(
                |l: Seq<char>| line_body(l),
            ),
        decreases all@.len() - i,
    {
        let line = &all[i];
        assert(ls[i as int] == line@);
        proof {
            ls.lemma_filter_map_take_succ(|l: Seq<char>| line_body(l), i as int);
        }
        let ghost old_out = out@;
        if starts_with(line.as_slice(), prefix.as_slice()) {
            let body = sub_chars(line.as_slice(), prefix.len(), line.len());
            assert(body@ =~= line@.skip(line_prefix().len() as int));
            if utf8_len_at_most(body.as_slice(), 4096) {
                out.push(string_of(body.as_slice()));
                assert(out@.map_values(|b: String| b@) =~= old_out.map_values(|b: String| b@)
                    + seq![body@]);
            }
        }
        i = i + 1;
    }
    assert(ls.take(all@.len() as int) =~= ls);
    out
}

/// Whether the `checks` array of `doc` holds the string `name`.
pub open spec fn mentioned(doc: JsonValue, name: Seq<char>) -> bool {
    match doc.field("checks"@) {
        Some(JsonValue::Array(items)) => exists|i: int|
            0 <= i < items@.len() && (#[trigger] items@[i]).text() == Some(name),
        _ => false,
    }
}

/// The code of a diagnostic document: version 1 and an allowlisted code.
pub open spec fn envelope_code(doc: JsonValue) -> Option<Seq<char>> {
    match doc.field("version"@) {
        Some(v) => if v.u64_value() == Some(1u64) {
            match doc.field("code"@) {
                Some(c) => match c.text() {
                    Some(t) => if listed(code_names(), t) {
                        Some(t)
                    } else {
                        None
                    },
                    None => None,
                },
                None => None,
            }
        } else {
            None
        },
        None => None,
    }
}

/// The checks of a diagnostic document: the allowlisted names it mentions, each once,
/// in ascending order.
pub open spec fn envelope_checks(doc: JsonValue) -> Seq<&'static str> {
    check_names().filter(|n: &'static str| mentioned(doc, n@))
}

fn mentions(doc: &JsonValue, name: &str) -> (r: bool)
    ensures
        r == mentioned(*doc, name@),
{
    match doc.get("checks") {
        Some(JsonValue::Array(items)) => {
            let ghost all = items@;
            assert(mentioned(*doc, name@) == exists|j: int|
                0 <= j < all.len() && (#[trigger] all[j]).text() == Some(name@));
            let mut i: usize = 0;
            while i < items.len()
                invariant
                    i <= items@.len(),
                    all == items@,
                    mentioned(*doc, name@) == exists|j: int|
                        0 <= j < all.len() && (#[trigger] all[j]).text() == Some(name@),
                    forall|j: int| 0 <= j < i ==> (#[trigger] items@[j]).text() != Some(name@),
                decreases items@.len() - i,
            {
                match &items[i] {
                    JsonValue::Str(s) => {
                        if same_text(s.as_str(), name) {
                            assert(all[i as int].text() == Some(name@));
                            return true;
                        }
                    },
                    _ => {},
                }
                i = i + 1;
            }
            assert(!exists|j: int| 0 <= j < all.len() && (#[trigger] all[j]).text() == Some(name@));
            false
        },
        _ => false,
    }
}

/// Reads one diagnostic document; `None` unless it is version 1 with an allowlisted code.
pub fn from_envelope(doc: &JsonValue) -> (r: Option<Diagnostic>)
    ensures
        match r {
            Some(d) => envelope_code(*doc) == Some(d.code@) && d.checks@ == envelope_checks(*doc),
            None => envelope_code(*doc) is None,
        },
{
    let version_ok = match doc.get("version") {
        Some(JsonValue::Number(Some(v))) => *v == 1,
        _ => false,
    };
    if !version_ok {
        return None;
    }
    let text = match doc.get("code") {
        Some(JsonValue::Str(t)) => t,
        _ => {
            return None;
        },
    };
    let codes = code_table();
    let code = match find_name(&codes, text.as_str()) {
        Some(c) => c,
        None => {
            return None;
        },
    };
    let table = check_table();
    let mut checks: Vec<&'static str> = Vec::new();
    let mut i: usize = 0;
    let ghost pred = |n: &'static str| mentioned(*doc, n@);
    assert(table@.take(0) =~= Seq::<&'static str>::empty());
    proof {
        reveal(Seq::filter);
    }
    while i < table.len()
        invariant
            i <= table@.len(),
            table@ == check_names(),
            pred == (|n: &'static str| mentioned(*doc, n@)),
            checks@ == table@.take(i as int).filter(pred),
        decreases table@.len() - i,
    {
        let name = table[i];
        proof {
            reveal(Seq::filter);
            assert(table@.take(i + 1).drop_last() =~= table@.take(i as int));
            assert(table@.take(i + 1).last() == name);
        }
        if mentions(doc, name) {
            checks.push(name);
        }
        i = i + 1;
    }
    assert(table@.take(table@.len() as int) =~= table@);
    Some(Diagnostic { code, checks })
}

/// The code of an optional document.
pub open spec fn document_code(doc: Option<JsonValue>) -> Option<Seq<char>> {
    match doc {
        Some(d) => envelope_code(d),
        None => None,
    }
}

/// The index of the last document that is a valid diagnostic.
pub open spec fn last_valid(docs: Seq<Option<JsonValue>>) -> Option<int>
    decreases docs.len(),
{
    if docs.len() == 0 {
        None
    } else if document_code(docs.last()) is Some {
        Some(docs.len() - 1)
    } else {
        last_valid(docs.drop_last())
    }
}

/// The diagnostic of a process: the last of its parsed bodies (`None` where a body is
/// not JSON) that is a valid diagnostic document.
pub fn parse_documents(docs: &[Option<JsonValue>]) -> (r: Option<Diagnostic>)
    ensures
        match last_valid(docs@) {
            Some(i) => r matches Some(d) && docs@[i] matches Some(doc) && envelope_code(doc)
                == Some(d.code@) && d.checks@ == envelope_checks(doc),
            None => r is None,
        },
{
    let mut i: usize = docs.len();
    assert(docs@.take(docs@.len() as int) =~= docs@);
    while i > 0
        invariant
            i <= docs@.len(),
            last_valid(docs@) == last_valid(docs@.take(i as int)),
        decreases i,
    {
        assert(docs@.take(i as int).drop_last() =~= docs@.take(i - 1));
        assert(docs@.take(i as int).last() == docs@[i - 1]);
        i = i - 1;
        match &docs[i] {
            Some(doc) => {
                match from_envelope(doc) {
                    Some(d) => {
                        return Some(d);
                    },
                    None => {},
                }
            },
            None => {},
        }
    }
    None
}


/// Whatever a process prints, a diagnostic only ever carries an allowlisted code and
/// allowlisted check names.
pub proof fn lemma_diagnostic_allowlisted(doc: JsonValue)
    requires
        envelope_code(doc) is Some,
    ensures
        listed(code_names(), envelope_code(doc)->0),
        forall|i: int|
            0 <= i < envelope_checks(doc).len() ==> check_names().contains(
                #[trigger] envelope_checks(doc)[i],
            ),
{
    let pred = |n: &'static str| mentioned(doc, n@);
    assert forall|i: int| 0 <= i < envelope_checks(doc).len() implies check_names().contains(
        #[trigger] envelope_checks(doc)[i],
    ) by {
        check_names().lemma_filter_contains_rev(pred, envelope_checks(doc)[i]);
    }
}

} // verus!
