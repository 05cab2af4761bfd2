//! Colours in CSS and hex spelling, the bounded controls of a custom theme, and the
//! image formats a custom theme accepts.
use vstd::prelude::*;
use crate::error::{AppError, AppResult};
use crate::text::{
    ascii_lower_char, chars_of, decimal, decimal_string, lower_text, push_char, same_chars, same_text,
    to_lower_chars,
    trim, trim_chars,
};

verus! {

/// An sRGB colour.
#[derive(PartialEq, Eq, Structural, Clone, Copy, Debug)]
pub struct RgbColor {
    pub red: u8,
    pub green: u8,
    pub blue: u8,
}

/// The uppercase hexadecimal digit of `n < 16`.
pub open spec fn hex_digit(n: int) -> char {
    if n < 10 {
        (48 + n) as char
    } else {
        (55 + n) as char
    }
}

/// Two uppercase hexadecimal digits of a byte.
pub open spec fn hex_byte(b: u8) -> Seq<char> {
    seq![hex_digit(b as int / 16), hex_digit(b as int % 16)]
}

/// `#RRGGBB`, uppercase.
pub open spec fn hex_text(c: RgbColor) -> Seq<char> {
    seq!['#'] + hex_byte(c.red) + hex_byte(c.green) + hex_byte(c.blue)
}

/// `rgb(R G B)` with decimal channels.
pub open spec fn css_text(c: RgbColor) -> Seq<char> {
    "rgb("@ + decimal(c.red as nat) + seq![' '] + decimal(c.green as nat) + seq![' '] + decimal(
        c.blue as nat,
    ) + seq![')']
}

fn hex_digit_char(n: u8) -> (r: char)
    requires
        n < 16,
    ensures
        r == hex_digit(n as int),
{
    if n < 10 {
        (48 + n) as char
    } else {
        (55 + n) as char
    }
}

impl RgbColor {
    /// The CSS colour `rgb(R G B)`.
    pub fn css(self) -> (r: String)
        ensures
            r@ == css_text(self),
    {
        let mut s = "rgb(".to_string();
        s.append(decimal_string(self.red as u64).as_str());
        push_char(&mut s, ' ');
        s.append(decimal_string(self.green as u64).as_str());
        push_char(&mut s, ' ');
        s.append(decimal_string(self.blue as u64).as_str());
        push_char(&mut s, ')');
        s
    }

    /// The colour as `#RRGGBB`.
    pub fn hex(self) -> (r: String)
        ensures
            r@ == hex_text(self),
    {
        let mut s = String::new();
        push_char(&mut s, '#');
        push_char(&mut s, hex_digit_char(self.red / 16));
        push_char(&mut s, hex_digit_char(self.red % 16));
        push_char(&mut s, hex_digit_char(self.green / 16));
        push_char(&mut s, hex_digit_char(self.green % 16));
        push_char(&mut s, hex_digit_char(self.blue / 16));
        push_char(&mut s, hex_digit_char(self.blue % 16));
        assert(s@ =~= hex_text(self));
        s
    }
}

/// The value of a hexadecimal digit (either case).
pub open spec fn hex_value(c: char) -> int {
    if '0' <= c && c <= '9' {
        c as int - 48
    } else if 'a' <= c && c <= 'f' {
        c as int - 87
    } else {
        c as int - 55
    }
}

/// Whether `c` is a hexadecimal digit (either case).
pub open spec fn is_hex_digit(c: char) -> bool {
    ('0' <= c && c <= '9') || ('a' <= c && c <= 'f') || ('A' <= c && c <= 'F')
}

/// The colour a `#RRGGBB` text (surrounding white space allowed, either case) names.
pub open spec fn parse_hex(value: Seq<char>) -> Option<RgbColor> {
    let t = trim(value);
    if t.len() == 7 && t[0] == '#' && (forall|i: int| 1 <= i < 7 ==> is_hex_digit(#[trigger] t[i])) {
        Some(
            RgbColor {
                red: (hex_value(t[1]) * 16 + hex_value(t[2])) as u8,
                green: (hex_value(t[3]) * 16 + hex_value(t[4])) as u8,
                blue: (hex_value(t[5]) * 16 + hex_value(t[6])) as u8,
            },
        )
    } else {
        None
    }
}

fn hex_value_of(c: char) -> (r: u8)
    requires
        is_hex_digit(c),
    ensures
        r as int == hex_value(c),
        r < 16,
{
    if '0' <= c && c <= '9' {
        (c as u8) - 48
    } else if 'a' <= c && c <= 'f' {
        (c as u8) - 87
    } else {
        (c as u8) - 55
    }
}

/// Parses `#RRGGBB`.
pub fn parse_hex_color(value: &str) -> (r: Option<RgbColor>)
    ensures
        r == parse_hex(value@),
{
    let v = chars_of(value);
    let t = trim_chars(v.as_slice());
    if t.len() != 7 || t[0] != '#' {
        return None;
    }
    let mut i: usize = 1;
    while i < 7
        invariant
            1 <= i <= 7,
            t@ == trim(value@),
            t@.len() == 7,
            forall|j: int| 1 <= j < i ==> is_hex_digit(#[trigger] t@[j]),
        decreases 7 - i,
    {
        let c = t[i];
        if !(('0' <= c && c <= '9') || ('a' <= c && c <= 'f') || ('A' <= c && c <= 'F')) {
            assert(!is_hex_digit(t@[i as int]));
            return None;
        }
        i = i + 1;
    }
    let red = hex_value_of(t[1]) * 16 + hex_value_of(t[2]);
    let green = hex_value_of(t[3]) * 16 + hex_value_of(t[4]);
    let blue = hex_value_of(t[5]) * 16 + hex_value_of(t[6]);
    Some(RgbColor { red, green, blue })
}

/// Reading the hex spelling of a colour gives the colour back.
pub proof fn lemma_hex_roundtrip(c: RgbColor)
    ensures
        parse_hex(hex_text(c)) == Some(c),
{
    let t = hex_text(c);
    assert forall|j: int| 0 <= j < t.len() implies !crate::text::is_space(#[trigger] t[j]) by {}
    crate::text::lemma_trim_none(t);
    assert forall|i: int| 1 <= i < 7 implies is_hex_digit(#[trigger] t[i]) by {}
    assert(hex_value(t[1]) * 16 + hex_value(t[2]) == c.red as int);
    assert(hex_value(t[3]) * 16 + hex_value(t[4]) == c.green as int);
    assert(hex_value(t[5]) * 16 + hex_value(t[6]) == c.blue as int);
}

/// `channel + adjustment`, clamped to a channel.
pub open spec fn shifted(channel: u8, adjustment: int) -> u8 {
    if channel + adjustment < 0 {
        0
    } else if channel + adjustment > 255 {
        255
    } else {
        (channel + adjustment) as u8
    }
}

/// Each channel moved by `adjustment` and clamped.
pub fn adjust_brightness(color: RgbColor, adjustment: i16) -> (r: RgbColor)
    requires
        adjustment <= i16::MAX - 255,
    ensures
        r == (RgbColor {
            red: shifted(color.red, adjustment as int),
            green: shifted(color.green, adjustment as int),
            blue: shifted(color.blue, adjustment as int),
        }),
{
    RgbColor {
        red: shift_channel(color.red, adjustment),
        green: shift_channel(color.green, adjustment),
        blue: shift_channel(color.blue, adjustment),
    }
}

fn shift_channel(channel: u8, adjustment: i16) -> (r: u8)
    requires
        adjustment <= i16::MAX - 255,
    ensures
        r == shifted(channel, adjustment as int),
{
    let v: i16 = channel as i16 + adjustment;
    if v < 0 {
        0
    } else if v > 255 {
        255
    } else {
        v as u8
    }
}

/// The user controls of a custom theme.
#[derive(Debug)]
pub struct ThemeControls {
    pub brightness: i16,
    pub blur: u8,
    pub panel_opacity: u8,
    pub accent: Option<String>,
}

impl Default for ThemeControls {
    fn default() -> (r: ThemeControls)
        ensures
            r.brightness == 0 && r.blur == 8 && r.panel_opacity == 82 && r.accent is None,
    {
        ThemeControls { brightness: 0, blur: 8, panel_opacity: 82, accent: None }
    }
}

/// Controls inside their ranges: brightness −40..=40, blur at most 24, panel opacity
/// 55..=96.
pub open spec fn controls_in_range(c: ThemeControls) -> bool {
    -40 <= c.brightness <= 40 && c.blur <= 24 && 55 <= c.panel_opacity <= 96
}

/// Checks the controls; the accent, when set, must be a `#RRGGBB` colour.
pub fn validate_controls(controls: &ThemeControls) -> (r: AppResult<()>)
    ensures
        match r {
            Ok(()) => controls_in_range(*controls) && match controls.accent {
                Some(a) => parse_hex(a@) is Some,
                None => true,
            },
            Err(e) => if !controls_in_range(*controls) {
                e.code@ == "CUSTOM_THEME_CONTROLS_INVALID"@
            } else {
                controls.accent matches Some(a) && parse_hex(a@) is None && e.code@
                    == "CUSTOM_THEME_ACCENT_INVALID"@
            },
        },
{
    if !(-40 <= controls.brightness && controls.brightness <= 40) || controls.blur > 24 || !(55
        <= controls.panel_opacity && controls.panel_opacity <= 96) {
        return Err(AppError::new("CUSTOM_THEME_CONTROLS_INVALID", "亮度、模糊和透明度超出允许范围。"));
    }
    match &controls.accent {
        Some(accent) => {
            if parse_hex_color(accent.as_str()).is_none() {
                return Err(AppError::new("CUSTOM_THEME_ACCENT_INVALID", "强调色必须是 #RRGGBB 格式。"));
            }
        },
        None => {},
    }
    Ok(())
}

// ---------------------------------------------------------------- image formats

/// The image format its leading bytes show: JPEG, PNG, or a RIFF/WEBP container longer
/// than its 12-byte header.
pub open spec fn detected_format(b: Seq<u8>) -> Option<&'static str> {
    if b.len() >= 3 && b[0] == 0xFF && b[1] == 0xD8 && b[2] == 0xFF {
        Some("jpg")
    } else if b.len() >= 8 && b[0] == 0x89 && b[1] == 0x50 && b[2] == 0x4E && b[3] == 0x47
        && b[4] == 0x0D && b[5] == 0x0A && b[6] == 0x1A && b[7] == 0x0A {
        Some("png")
    } else if b.len() > 12 && b[0] == 0x52 && b[1] == 0x49 && b[2] == 0x46 && b[3] == 0x46
        && b[8] == 0x57 && b[9] == 0x45 && b[10] == 0x42 && b[11] == 0x50 {
        Some("webp")
    } else {
        None
    }
}

/// The file name of a Windows path (`Path::file_name` read as text): the last component,
/// with trailing separators, empty components and `.` components skipped.
pub open spec fn file_name(path: Seq<char>) -> Seq<char>
    decreases path.len(),
{
    if path.len() == 0 {
        path
    } else if path.last() == '\\' || path.last() == '/' {
        file_name(path.drop_last())
    } else if last_component(path) == seq!['.'] {
        file_name(path.drop_last())
    } else {
        last_component(path)
    }
}

/// The text after the last separator of `path`.
pub open spec fn last_component(path: Seq<char>) -> Seq<char>
    decreases path.len(),
{
    if path.len() == 0 {
        path
    } else if path.last() == '\\' || path.last() == '/' {
        Seq::empty()
    } else {
        last_component(path.drop_last()).push(path.last())
    }
}

/// The index of the last `.` in `s`.
pub open spec fn last_dot(s: Seq<char>) -> Option<int>
    decreases s.len(),
{
    if s.len() == 0 {
        None
    } else if s.last() == '.' {
        Some(s.len() - 1)
    } else {
        last_dot(s.drop_last())
    }
}

/// `Path::extension`: the text after the last `.` of the file name, when that dot is
/// not its first character; `..` has none.
pub open spec fn extension(path: Seq<char>) -> Seq<char> {
    let name = file_name(path);
    if name == ".."@ {
        Seq::empty()
    } else {
        match last_dot(name) {
            Some(i) => if i > 0 {
                name.skip(i + 1)
            } else {
                Seq::empty()
            },
            None => Seq::empty(),
        }
    }
}

/// Whether the lowercase extension `ext` fits the detected format.
pub open spec fn extension_fits(ext: Seq<char>, format: &'static str) -> bool {
    ||| (ext == "jpg"@ || ext == "jpeg"@) && format@ == "jpg"@
    ||| ext == "png"@ && format@ == "png"@
    ||| ext == "webp"@ && format@ == "webp"@
}

fn detect_format(b: &[u8]) -> (r: Option<&'static str>)
    ensures
        r == detected_format(b@),
{
    let n = b.len();
    if n >= 3 && b[0] == 0xFF && b[1] == 0xD8 && b[2] == 0xFF {
        Some("jpg")
    } else if n >= 8 && b[0] == 0x89 && b[1] == 0x50 && b[2] == 0x4E && b[3] == 0x47 && b[4]
        == 0x0D && b[5] == 0x0A && b[6] == 0x1A && b[7] == 0x0A {
        Some("png")
    } else if n > 12 && b[0] == 0x52 && b[1] == 0x49 && b[2] == 0x46 && b[3] == 0x46 && b[8]
        == 0x57 && b[9] == 0x45 && b[10] == 0x42 && b[11] == 0x50 {
        Some("webp")
    } else {
        None
    }
}

fn file_name_bounds(path: &[char]) -> (r: (usize, usize))
    ensures
        r.0 <= r.1 <= path@.len(),
        file_name(path@) == path@.subrange(r.0 as int, r.1 as int),
{
    let mut end = path.len();
    assert(path@.take(end as int) =~= path@);
    loop
        invariant
            end <= path@.len(),
            file_name(path@) == file_name(path@.take(end as int)),
        decreases end,
    {
        let ghost top = end;
        while end > 0 && (path[end - 1] == '\\' || path[end - 1] == '/')
            invariant
                end <= top,
                top <= path@.len(),
                file_name(path@) == file_name(path@.take(end as int)),
            decreases end,
        {
            assert(path@.take(end as int).drop_last() =~= path@.take(end - 1));
            end = end - 1;
        }
        let mut start = end;
        while start > 0 && !(path[start - 1] == '\\' || path[start - 1] == '/')
            invariant
                start <= end <= path@.len(),
                last_component(path@.take(end as int)) == last_component(path@.take(start as int))
                    + path@.subrange(start as int, end as int),
            decreases start,
        {
            assert(path@.take(start as int).drop_last() =~= path@.take(start - 1));
            assert(path@.subrange(start - 1, end as int) =~= seq![path@[start - 1]]
                + path@.subrange(start as int, end as int));
            start = start - 1;
        }
        proof {
            if start > 0 {
                assert(last_component(path@.take(start as int)) =~= Seq::<char>::empty());
            } else {
                assert(path@.take(0) =~= Seq::<char>::empty());
            }
            assert(last_component(path@.take(end as int)) =~= path@.subrange(start as int, end as int));
            if end > 0 {
                assert(path@.take(end as int).last() == path@[end - 1]);
            }
        }
        if end - start == 1 && path[start] == '.' {
            assert(path@.subrange(start as int, end as int) =~= seq!['.']);
            assert(path@.take(end as int).drop_last() =~= path@.take(start as int));
            end = start;
        } else {
            proof {
                if path@.subrange(start as int, end as int) == seq!['.'] {
                    assert(path@.subrange(start as int, end as int)[0] == path@[start as int]);
                }
                if end == 0 {
                    assert(path@.take(0) =~= path@.subrange(0, 0));
                }
            }
            return (start, end);
        }
    }
}

/// The path names the WorkBuddy executable: its file name is `WorkBuddy.exe`, in any
/// ASCII case.
pub fn is_workbuddy_executable(path: &str) -> (r: bool)
    ensures
        r == (lower_text(file_name(path@)) == "workbuddy.exe"@),
{
    let p = chars_of(path);
    let (start, end) = file_name_bounds(p.as_slice());
    let ghost name = p@.subrange(start as int, end as int);
    let target = chars_of("workbuddy.exe");
    if end - start != target.len() {
        assert(lower_text(name).len() != target@.len());
        return false;
    }
    let mut i: usize = 0;
    while i < target.len()
        invariant
            i <= target@.len(),
            target@.len() == end - start,
            start <= end <= p@.len(),
            name == p@.subrange(start as int, end as int),
            file_name(path@) == name,
            target@ == "workbuddy.exe"@,
            forall|k: int| 0 <= k < i ==> lower_text(name)[k] == #[trigger] target@[k],
        decreases target@.len() - i,
    {
        let c = ascii_lower_char(p[start + i]);
        assert(lower_text(name)[i as int] == c);
        if c != target[i] {
            assert(lower_text(name)[i as int] != target@[i as int]);
            return false;
        }
        i = i + 1;
    }
    assert(lower_text(name) =~= target@);
    true
}

fn extension_chars(path: &[char]) -> (r: Vec<char>)
    ensures
        r@ == extension(path@),
{
    let (start, end) = file_name_bounds(path);
    let ghost name = path@.subrange(start as int, end as int);
    assert(file_name(path@) =~= name);
    if end - start == 2 && path[start] == '.' && path[start + 1] == '.' {
        assert(name =~= ".."@) by {
            reveal_strlit("..");
        }
        return Vec::new();
    }
    proof {
        if name == ".."@ {
            reveal_strlit("..");
            assert(name[0] == path@[start as int]);
        }
    }
    let mut dot = end;
    assert(name.take(dot - start) =~= name);
    while dot > start && path[dot - 1] != '.'
        invariant
            start <= dot <= end,
            end <= path@.len(),
            name == path@.subrange(start as int, end as int),
            last_dot(name) == last_dot(name.take(dot - start)),
        decreases dot,
    {
        assert(name.take(dot - start).drop_last() =~= name.take(dot - start - 1));
        dot = dot - 1;
    }
    if dot == start {
        assert(name.take(0) =~= Seq::<char>::empty());
        return Vec::new();
    }
    assert(name.take(dot - start).last() == '.');
    if dot - 1 == start {
        return Vec::new();
    }
    let mut out: Vec<char> = Vec::new();
    let mut k = dot;
    while k < end
        invariant
            dot <= k <= end,
            end <= path@.len(),
            out@ == path@.subrange(dot as int, k as int),
        decreases end - k,
    {
        out.push(path[k]);
        k = k + 1;
        assert(out@ =~= path@.subrange(dot as int, k as int));
    }
    assert(name.skip(dot - start) =~= path@.subrange(dot as int, end as int));
    out
}

/// The largest image accepted for a theme: 10 MiB.
pub const MAX_IMAGE_BYTES: usize = 10485760;

/// An uploaded image must be non-empty and at most 10 MiB.
pub fn check_image_size(len: usize) -> (r: AppResult<()>)
    ensures
        r is Ok <==> 0 < len <= MAX_IMAGE_BYTES,
        r matches Err(e) ==> e.code@ == "IMAGE_SIZE_INVALID"@,
{
    if len == 0 || len > MAX_IMAGE_BYTES {
        return Err(AppError::new("IMAGE_SIZE_INVALID", "图片须非空且不超过 10MB。"));
    }
    Ok(())
}

/// The format of an uploaded image: its bytes decide, and its extension must agree.
pub fn source_image_extension(path: &str, bytes: &[u8]) -> (r: AppResult<&'static str>)
    ensures
        match r {
            Ok(f) => detected_format(bytes@) == Some(f) && extension_fits(
                lower_text(extension(path@)),
                f,
            ),
            Err(e) => e.code@ == "CUSTOM_IMAGE_TYPE_INVALID"@ && match detected_format(bytes@) {
                Some(f) => !extension_fits(lower_text(extension(path@)), f),
                None => true,
            },
        },
{
    let p = chars_of(path);
    let ext = extension_chars(p.as_slice());
    let lower = to_lower_chars(ext.as_slice());
    let detected = match detect_format(bytes) {
        Some(f) => f,
        None => {
            return Err(AppError::new("CUSTOM_IMAGE_TYPE_INVALID", "仅支持 JPG、PNG 或 WebP 图片。"));
        },
    };
    let jpg = chars_of("jpg");
    let jpeg = chars_of("jpeg");
    let png = chars_of("png");
    let webp = chars_of("webp");
    let l = lower.as_slice();
    let fits = ((same_chars(l, jpg.as_slice()) || same_chars(l, jpeg.as_slice())) && same_text(
        detected,
        "jpg",
    )) || (same_chars(l, png.as_slice()) && same_text(detected, "png")) || (same_chars(
        l,
        webp.as_slice(),
    ) && same_text(detected, "webp"));
    if !fits {
        return Err(AppError::new("CUSTOM_IMAGE_TYPE_INVALID", "图片扩展名与实际格式不匹配。"));
    }
    Ok(detected)
}

} // verus!
