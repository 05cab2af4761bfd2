//! The renderer debugging protocol as the live preview speaks it: which endpoint may be
//! connected, how commands are numbered and budgeted, how replies are matched, and what
//! the renderer's answers must say before a frame or a theme state is trusted. The
//! socket itself is driven by the application.
use vstd::prelude::*;
use crate::error::{AppError, AppResult};
use crate::json::JsonValue;
use crate::paths::DEFAULT_CDP_PORT;
use crate::text::{decimal, decimal_string, same_text};
use sha2::Digest;

verus! {

/// The error of every failed live preview step.
pub fn err() -> (e: AppError)
    ensures
        e.code@ == "LIVE_PREVIEW_FAILED"@,
{
    AppError::new("LIVE_PREVIEW_FAILED", "实机画面未更新，请检查连接后刷新；旧画面不代表当前参数。")
}

// ---------------------------------------------------------------- hashing

/// The SHA-256 digest of `data`, as `sha2` computes it.
pub uninterp spec fn sha256_digest(data: Seq<u8>) -> Seq<u8>;

/// `sha2::Sha256::digest`: the 32-byte SHA-256 digest of `data`.
#[verifier::external_body]
fn sha256(data: &[u8]) -> (r: Vec<u8>)
    ensures
        r@ == sha256_digest(data@),
        r@.len() == 32,
{
    sha2::Sha256::digest(data).to_vec()
}

/// The lowercase hexadecimal digit of `n < 16`.
pub open spec fn lower_hex_digit(n: int) -> char {
    if n < 10 {
        (48 + n) as char
    } else {
        (87 + n) as char
    }
}

/// Lowercase hexadecimal text of `bytes`, two digits per byte.
pub open spec fn lower_hex(bytes: Seq<u8>) -> Seq<char>
    decreases bytes.len(),
{
    if bytes.len() == 0 {
        Seq::empty()
    } else {
        lower_hex(bytes.drop_last()) + seq![
            lower_hex_digit(bytes.last() as int / 16),
            lower_hex_digit(bytes.last() as int % 16),
        ]
    }
}

fn lower_hex_char(n: u8) -> (r: char)
    requires
        n < 16,
    ensures
        r == lower_hex_digit(n as int),
{
    if n < 10 {
        (48 + n) as char
    } else {
        (87 + n) as char
    }
}

/// The identity of a stylesheet: the lowercase hex SHA-256 of its UTF-8 bytes.
pub fn css_hash(css: &str) -> (r: String)
    ensures
        r@ == lower_hex(sha256_digest(vstd::utf8::encode_utf8(css@))),
{
    let digest = sha256(css.as_bytes());
    let mut out = String::new();
    let mut i: usize = 0;
    assert(digest@.take(0) =~= Seq::<u8>::empty());
    while i < digest.len()
        invariant
            i <= digest@.len(),
            out@ == lower_hex(digest@.take(i as int)),
        decreases digest@.len() - i,
    {
        let b = digest[i];
        crate::text::push_char(&mut out, lower_hex_char(b / 16));
        crate::text::push_char(&mut out, lower_hex_char(b % 16));
        assert(digest@.take(i + 1).drop_last() =~= digest@.take(i as int));
        assert(digest@.take(i + 1).last() == b);
        assert(out@ =~= lower_hex(digest@.take(i + 1)));
        i = i + 1;
    }
    assert(digest@.take(digest@.len() as int) =~= digest@);
    out
}

// ---------------------------------------------------------------- endpoint

/// The parts of a URL that decide whether it may be connected: scheme, host, explicit
/// port, user name, whether a password is present, and its serialisation.
#[derive(Debug)]
pub struct UrlEndpoint {
    pub scheme: String,
    pub host: Option<String>,
    pub port: Option<u16>,
    pub username: String,
    pub has_password: bool,
    pub serialized: String,
}

/// What `url::Url::parse` makes of a text, read through `scheme`, `host_str`, `port`,
/// `username`, `password` and `as_str`; `None` where it refuses the text.
pub uninterp spec fn url_parts(text: Seq<char>) -> Option<
    (Seq<char>, Option<Seq<char>>, Option<u16>, Seq<char>, bool, Seq<char>),
>;

/// The parts of an endpoint, as views.
pub open spec fn endpoint_view(e: UrlEndpoint) -> (
    Seq<char>,
    Option<Seq<char>>,
    Option<u16>,
    Seq<char>,
    bool,
    Seq<char>,
) {
    (
        e.scheme@,
        match e.host {
            Some(h) => Some(h@),
            None => None,
        },
        e.port,
        e.username@,
        e.has_password,
        e.serialized@,
    )
}

/// `url::Url::parse`, with the parsed URL read into an `UrlEndpoint`.
#[verifier::external_body]
fn parse_url(text: &str) -> (r: Option<UrlEndpoint>)
    ensures
        match r {
            Some(e) => url_parts(text@) == Some(endpoint_view(e)),
            None => url_parts(text@) is None,
        },
{
    let url = url::Url::parse(text).ok()?;
    Some(UrlEndpoint {
        scheme: url.scheme().to_string(),
        host: url.host_str().map(|h| h.to_string()),
        port: url.port(),
        username: url.username().to_string(),
        has_password: url.password().is_some(),
        serialized: url.as_str().to_string(),
    })
}

/// A local debugging endpoint on `port`: plain `ws`, loopback host, that exact port, no
/// credentials.
pub open spec fn local_endpoint(
    parts: (Seq<char>, Option<Seq<char>>, Option<u16>, Seq<char>, bool, Seq<char>),
    port: u16,
) -> bool {
    &&& parts.0 == "ws"@
    &&& (parts.1 == Some("localhost"@) || parts.1 == Some("127.0.0.1"@))
    &&& parts.2 == Some(port)
    &&& parts.3.len() == 0
    &&& !parts.4
}

/// Decides from parsed URL parts whether the endpoint may be connected; gives the URL
/// to connect to.
pub fn check_endpoint(parts: &UrlEndpoint, port: u16) -> (r: AppResult<String>)
    ensures
        match r {
            Ok(u) => local_endpoint(endpoint_view(*parts), port) && u@ == parts.serialized@,
            Err(e) => !local_endpoint(endpoint_view(*parts), port) && e.code@
                == "LIVE_PREVIEW_FAILED"@,
        },
{
    let host_ok = match &parts.host {
        Some(h) => same_text(h.as_str(), "localhost") || same_text(h.as_str(), "127.0.0.1"),
        None => false,
    };
    let port_ok = match parts.port {
        Some(p) => p == port,
        None => false,
    };
    if !same_text(parts.scheme.as_str(), "ws") || !host_ok || !port_ok || !parts.username.as_str().is_empty()
        || parts.has_password {
        return Err(err());
    }
    Ok(parts.serialized.clone())
}

/// Parses the debugger URL of the renderer target and accepts only a local endpoint on
/// `port`.
pub fn debugger_endpoint(websocket_url: &str, port: u16) -> (r: AppResult<String>)
    ensures
        match url_parts(websocket_url@) {
            Some(parts) => match r {
                Ok(u) => local_endpoint(parts, port) && u@ == parts.5,
                Err(e) => !local_endpoint(parts, port) && e.code@ == "LIVE_PREVIEW_FAILED"@,
            },
            None => r matches Err(e) && e.code@ == "LIVE_PREVIEW_FAILED"@,
        },
{
    match parse_url(websocket_url) {
        Some(parts) => check_endpoint(&parts, port),
        None => Err(err()),
    }
}

/// A loopback debugger endpoint for the status probe: plain `ws`, host `localhost` or
/// `127.0.0.1`, no user name and no password (any port).
pub open spec fn probe_local(
    parts: (Seq<char>, Option<Seq<char>>, Option<u16>, Seq<char>, bool, Seq<char>),
) -> bool {
    &&& parts.0 == "ws"@
    &&& (parts.1 == Some("localhost"@) || parts.1 == Some("127.0.0.1"@))
    &&& parts.3.len() == 0
    &&& !parts.4
}

/// Parses the renderer's debugger URL for the status probe: only a loopback endpoint is
/// accepted, and the port to connect to is its port, or the default debugging port
/// when the URL names none.
pub fn probe_endpoint(websocket_url: &str) -> (r: AppResult<u16>)
    ensures
        match url_parts(websocket_url@) {
            Some(p) => match r {
                Ok(port) => probe_local(p) && port == (match p.2 {
                    Some(q) => q,
                    None => DEFAULT_CDP_PORT,
                }),
                Err(e) => !probe_local(p) && e.code@ == "CDP_UNAVAILABLE"@,
            },
            None => r matches Err(e) && e.code@ == "CDP_UNAVAILABLE"@,
        },
{
    let parts = match parse_url(websocket_url) {
        Some(p) => p,
        None => {
            return Err(AppError::new("CDP_UNAVAILABLE", "CDP 地址无效。"));
        },
    };
    let host_ok = match &parts.host {
        Some(h) => same_text(h.as_str(), "localhost") || same_text(h.as_str(), "127.0.0.1"),
        None => false,
    };
    if !same_text(parts.scheme.as_str(), "ws") || !host_ok || !parts.username.as_str().is_empty()
        || parts.has_password {
        return Err(AppError::new("CDP_UNAVAILABLE", "CDP 必须绑定本机。"));
    }
    match parts.port {
        Some(q) => Ok(q),
        None => Ok(DEFAULT_CDP_PORT),
    }
}

// ---------------------------------------------------------------- commands and replies

/// The protocol state of one connection: the last command number used and the page
/// it is attached to.
#[derive(Debug)]
pub struct Cdp {
    pub next: u64,
    pub target_id: String,
}

/// A command to send: its number, method, parameters, and how long its reply may take.
#[derive(Debug)]
pub struct CdpCommand {
    pub id: u64,
    pub method: String,
    pub params: JsonValue,
    pub timeout_ms: u64,
}

/// The reply budget: 8 s for a screenshot, 3 s for anything else.
pub open spec fn command_timeout_ms(method: Seq<char>) -> u64 {
    if method == "Page.captureScreenshot"@ {
        8000
    } else {
        3000
    }
}

/// The parameters of a page evaluation: the expression, its value returned by value,
/// promises awaited, and a 2.5 s limit inside the page.
pub open spec fn evaluation_params(params: JsonValue, expression: Seq<char>) -> bool {
    &&& params matches JsonValue::Object(f)
    &&& f@.len() == 4
    &&& f@[0].0@ == "expression"@ && (f@[0].1 matches JsonValue::Str(e) && e@ == expression)
    &&& f@[1].0@ == "returnByValue"@ && f@[1].1 == JsonValue::Bool(true)
    &&& f@[2].0@ == "awaitPromise"@ && f@[2].1 == JsonValue::Bool(true)
    &&& f@[3].0@ == "timeout"@ && f@[3].1 == JsonValue::Number(Some(2500))
}

/// The parameters of a `Runtime.evaluate` command for `expression`.
pub fn evaluation_command_params(expression: &str) -> (r: JsonValue)
    ensures
        evaluation_params(r, expression@),
{
    let mut f: Vec<(String, JsonValue)> = Vec::new();
    f.push(("expression".to_string(), JsonValue::Str(expression.to_string())));
    f.push(("returnByValue".to_string(), JsonValue::Bool(true)));
    f.push(("awaitPromise".to_string(), JsonValue::Bool(true)));
    f.push(("timeout".to_string(), JsonValue::Number(Some(2500))));
    JsonValue::Object(f)
}

/// What to do with one incoming message while waiting for command `id`.
#[derive(Debug)]
pub enum ReplyStep {
    /// Not the reply to this command: keep waiting.
    Wait,
    /// The command failed.
    Fail,
    /// The command's result.
    Done(JsonValue),
}

/// The step for a parsed message while waiting for command `id`: a message with another
/// id is skipped, a reply with an `error` member fails, otherwise its `result` member
/// (`null` when absent) is the result.
pub open spec fn reply_step(id: u64, message: JsonValue) -> ReplyStep {
    let mid = match message.field("id"@) {
        Some(v) => v.u64_value(),
        None => None,
    };
    if mid != Some(id) {
        ReplyStep::Wait
    } else if message.field("error"@) is Some {
        ReplyStep::Fail
    } else {
        ReplyStep::Done(
            match message.field("result"@) {
                Some(r) => r,
                None => JsonValue::Null,
            },
        )
    }
}

impl Cdp {
    /// A fresh connection state for the page `target_id`.
    pub fn new(target_id: String) -> (r: Cdp)
        ensures
            r.next == 0,
            r.target_id == target_id,
    {
        Cdp { next: 0, target_id }
    }

    /// Numbers the next command (one more than the last) and sets its reply budget.
    pub fn call(&mut self, method: &str, params: JsonValue) -> (r: CdpCommand)
        requires
            old(self).next < u64::MAX,
        ensures
            final(self).next == old(self).next + 1,
            final(self).target_id == old(self).target_id,
            r.id == final(self).next,
            r.method@ == method@,
            r.params == params,
            r.timeout_ms == command_timeout_ms(method@),
    {
        self.next = self.next + 1;
        let timeout_ms: u64 = if same_text(method, "Page.captureScreenshot") {
            8000
        } else {
            3000
        };
        CdpCommand { id: self.next, method: method.to_string(), params, timeout_ms }
    }

    /// How a parsed incoming message bears on command `id`.
    pub fn reply(id: u64, message: JsonValue) -> (r: ReplyStep)
        ensures
            r == reply_step(id, message),
    {
        let mid = match message.get("id") {
            Some(JsonValue::Number(n)) => *n,
            _ => None,
        };
        match mid {
            Some(m) => {
                if m != id {
                    return ReplyStep::Wait;
                }
            },
            None => {
                return ReplyStep::Wait;
            },
        }
        if message.get("error").is_some() {
            return ReplyStep::Fail;
        }
        match message.into_field("result") {
            Some(r) => ReplyStep::Done(r),
            None => ReplyStep::Done(JsonValue::Null),
        }
    }

    /// The value of a `Runtime.evaluate` result: an exception fails, and so does a
    /// result without `result.value`.
    pub fn evaluate(result: JsonValue) -> (r: AppResult<JsonValue>)
        ensures
            match r {
                Ok(v) => result.field("exceptionDetails"@) is None && evaluation_value(result)
                    == Some(v),
                Err(e) => (result.field("exceptionDetails"@) is Some || evaluation_value(result)
                    is None) && e.code@ == "LIVE_PREVIEW_FAILED"@,
            },
    {
        if result.get("exceptionDetails").is_some() {
            return Err(err());
        }
        match result.into_field("result") {
            Some(inner) => match inner.into_field("value") {
                Some(v) => Ok(v),
                None => Err(err()),
            },
            None => Err(err()),
        }
    }

    /// Checks the renderer's theme state: exactly one theme style node, carrying the
    /// expected theme identifier and stylesheet.
    pub fn verify(value: &JsonValue, expected_id: &str, expected_css: &str) -> (r: AppResult<()>)
        ensures
            match r {
                Ok(()) => theme_state_is(*value, expected_id@, expected_css@),
                Err(e) => !theme_state_is(*value, expected_id@, expected_css@) && e.code@
                    == "LIVE_THEME_CHANGED"@,
            },
    {
        let count_ok = match value.get("count") {
            Some(JsonValue::Number(Some(n))) => *n == 1,
            _ => false,
        };
        let id_ok = match value.get("id") {
            Some(JsonValue::Str(s)) => same_text(s.as_str(), expected_id),
            _ => false,
        };
        let css_ok = match value.get("css") {
            Some(JsonValue::Str(s)) => same_text(s.as_str(), expected_css),
            _ => false,
        };
        if !count_ok || !id_ok || !css_ok {
            return Err(AppError::new("LIVE_THEME_CHANGED", "实机主题已变化，停止同步并准备恢复。"));
        }
        Ok(())
    }

    /// The theme state of the renderer: the style node count, the theme identifier, and
    /// the hash of the stylesheet.
    pub fn theme_fingerprint(value: &JsonValue) -> (r: AppResult<(u64, Option<String>, Option<String>)>)
        ensures
            match r {
                Ok((count, id, hash)) => member_u64(*value, "count"@) == Some(count) && opt_view(id)
                    == member_text(*value, "id"@) && opt_view(hash) == match member_text(
                    *value,
                    "css"@,
                ) {
                    Some(css) => Some(lower_hex(sha256_digest(vstd::utf8::encode_utf8(css)))),
                    None => None,
                },
                Err(e) => member_u64(*value, "count"@) is None && e.code@ == "LIVE_PREVIEW_FAILED"@,
            },
    {
        let count = match value.get("count") {
            Some(JsonValue::Number(Some(n))) => *n,
            _ => {
                return Err(err());
            },
        };
        let id = match value.get("id") {
            Some(JsonValue::Str(s)) => Some(s.clone()),
            _ => None,
        };
        let hash = match value.get("css") {
            Some(JsonValue::Str(s)) => Some(css_hash(s.as_str())),
            _ => None,
        };
        Ok((count, id, hash))
    }
}

/// The `result.value` of an evaluation reply.
pub open spec fn evaluation_value(result: JsonValue) -> Option<JsonValue> {
    match result.field("result"@) {
        Some(inner) => inner.field("value"@),
        None => None,
    }
}

/// The number member `key` read as a `u64`.
pub open spec fn member_u64(value: JsonValue, key: Seq<char>) -> Option<u64> {
    match value.field(key) {
        Some(v) => v.u64_value(),
        None => None,
    }
}

/// The string member `key`.
pub open spec fn member_text(value: JsonValue, key: Seq<char>) -> Option<Seq<char>> {
    match value.field(key) {
        Some(v) => v.text(),
        None => None,
    }
}

/// The text of an optional string.
pub open spec fn opt_view(s: Option<String>) -> Option<Seq<char>> {
    match s {
        Some(t) => Some(t@),
        None => None,
    }
}

/// The renderer reports one theme style node, with theme `id` and stylesheet `css`.
pub open spec fn theme_state_is(value: JsonValue, id: Seq<char>, css: Seq<char>) -> bool {
    &&& member_u64(value, "count"@) == Some(1u64)
    &&& member_text(value, "id"@) == Some(id)
    &&& member_text(value, "css"@) == Some(css)
}

/// The result of a capture taken under a paint lease: a frame is published only when the
/// lease was given back cleanly; a failed restore replaces whatever the capture gave.
pub fn capture_result<T>(captured: AppResult<T>, restored: AppResult<()>) -> (r: AppResult<T>)
    ensures
        match restored {
            Err(e) => r == Err::<T, AppError>(e),
            Ok(_) => r == captured,
        },
{
    match restored {
        Err(e) => Err(e),
        Ok(_) => captured,
    }
}

/// A page that is painting answers the paint probe with `true`; anything else means no
/// fresh frame can be trusted.
pub fn require_painted(value: &JsonValue) -> (r: AppResult<()>)
    ensures
        match r {
            Ok(()) => *value == JsonValue::Bool(true),
            Err(e) => *value != JsonValue::Bool(true) && e.code@ == "WORKBUDDY_NOT_PAINTING"@,
        },
{
    match value {
        JsonValue::Bool(true) => Ok(()),
        _ => Err(AppError::new(
            "WORKBUDDY_NOT_PAINTING",
            "WorkBuddy 暂停绘制。请显示窗口（不要最小化），停止滚动后刷新；不会自动切换你的会话。",
        )),
    }
}

/// A capture needs a non-empty viewport of at most 16 million pixels.
pub fn check_capture_size(width: u32, height: u32) -> (r: AppResult<()>)
    ensures
        r is Ok <==> (width > 0 && height > 0 && width * height <= 16_000_000),
        r matches Err(e) ==> e.code@ == "LIVE_PREVIEW_FAILED"@,
{
    let w = width as u64;
    let h = height as u64;
    assert(w * h <= u64::MAX) by (nonlinear_arith)
        requires
            w <= u32::MAX,
            h <= u32::MAX,
    ;
    if width == 0 || height == 0 || w * h > 16_000_000 {
        return Err(err());
    }
    Ok(())
}

/// Exactly one WorkBuddy main window, not minimised, must be open before a capture is
/// published (`states` holds, per window found, whether it is minimised).
pub fn require_one_window(states: &[bool]) -> (r: AppResult<()>)
    ensures
        r is Ok <==> states@ == seq![false],
        r matches Err(e) ==> e.code@ == "WORKBUDDY_NOT_PAINTING"@,
{
    if states.len() != 1 || states[0] {
        proof {
            if states@.len() == 1 {
                assert(states@[0] != seq![false][0]);
            }
        }
        return Err(AppError::new(
            "WORKBUDDY_NOT_PAINTING",
            "请保持一个 WorkBuddy 主窗口打开且不要最小化，然后刷新画面；不会自动显示窗口或切换会话。",
        ));
    }
    assert(states@ =~= seq![false]);
    Ok(())
}


// ---------------------------------------------------------------- live update

/// The JSON string literal that `serde_json` writes for the text `s` (quotes and
/// escapes included).
pub uninterp spec fn json_text(s: Seq<char>) -> Seq<char>;

/// `serde_json::to_string` on a string: its JSON literal. Serialising a `str` into the
/// `Vec` that `to_string` writes to has no failing step (the only error path is a failed
/// write, and writing to a `Vec` does not fail), so the error arm is never taken.
#[verifier::external_body]
fn json_string(s: &str) -> (r: String)
    ensures
        r@ == json_text(s@),
{
    match serde_json::to_string(s) {
        Ok(text) => text,
        Err(_) => String::new(),
    }
}

/// The script that hands the renderer new stylesheet text: it calls the runtime's
/// `updateCss` with the quoted theme id and stylesheet, fails where the runtime cannot
/// update in place, and stamps the style element with the sequence number.
pub open spec fn update_expression(id_json: Seq<char>, css_json: Seq<char>, sequence: u64) -> Seq<
    char,
> {
    "(() => {const s=document.getElementById('codedrobe-theme-style-workbuddy');const runtime=window.__CODEDROBE__?.hosts?.workbuddy;if(!runtime?.updateCss?.("@
        + id_json + ","@ + css_json
        + "))throw new Error('Live update unsupported');s.dataset.studioSequence='"@
        + decimal(sequence as nat) + "';return true;})()"@
}

/// The live update script for theme `id` with stylesheet `css`, stamped `sequence`.
pub fn live_update_expression(id: &str, css: &str, sequence: u64) -> (r: String)
    ensures
        r@ == update_expression(json_text(id@), json_text(css@), sequence),
{
    let id_json = json_string(id);
    let css_json = json_string(css);
    let digits = decimal_string(sequence);
    let mut text = "(() => {const s=document.getElementById('codedrobe-theme-style-workbuddy');const runtime=window.__CODEDROBE__?.hosts?.workbuddy;if(!runtime?.updateCss?.(".to_string();
    text.append(id_json.as_str());
    text.append(",");
    text.append(css_json.as_str());
    text.append("))throw new Error('Live update unsupported');s.dataset.studioSequence='");
    text.append(digits.as_str());
    text.append("';return true;})()");
    text
}

} // verus!
