//! Standard (RFC 4648, padded) Base64 with a canonical-only decoder.
use vstd::prelude::*;
use crate::text::{chars_of, string_of};

verus! {

/// The Base64 alphabet character for a sextet `v` in `0..64`.
pub open spec fn sextet_char(v: int) -> char {
    if v < 26 {
        (65 + v) as char
    } else if v < 52 {
        (97 + (v - 26)) as char
    } else if v < 62 {
        (48 + (v - 52)) as char
    } else if v == 62 {
        '+'
    } else {
        '/'
    }
}

/// The sextet a Base64 alphabet character stands for; `None` outside the alphabet.
pub open spec fn sextet_value(c: char) -> Option<int> {
    if 'A' <= c && c <= 'Z' {
        Some(c as int - 65)
    } else if 'a' <= c && c <= 'z' {
        Some(c as int - 97 + 26)
    } else if '0' <= c && c <= '9' {
        Some(c as int - 48 + 52)
    } else if c == '+' {
        Some(62)
    } else if c == '/' {
        Some(63)
    } else {
        None
    }
}

/// Four output characters for one group of one to three bytes; short groups are padded with `=`.
pub open spec fn encode_group(b: Seq<u8>) -> Seq<char> {
    let first = b[0] as int;
    let second: int = if b.len() > 1 { b[1] as int } else { 0 };
    let third: int = if b.len() > 2 { b[2] as int } else { 0 };
    seq![
        sextet_char(first / 4),
        sextet_char((first % 4) * 16 + second / 16),
        if b.len() > 1 { sextet_char((second % 16) * 4 + third / 64) } else { '=' },
        if b.len() > 2 { sextet_char(third % 64) } else { '=' },
    ]
}

/// Padded Base64 of `b`.
pub open spec fn base64_spec(b: Seq<u8>) -> Seq<char>
    decreases b.len(),
{
    if b.len() == 0 {
        seq![]
    } else if b.len() <= 3 {
        encode_group(b)
    } else {
        encode_group(b.take(3)) + base64_spec(b.skip(3))
    }
}

/// Bytes of one four-character group; padding may only stand in the last group, and the
/// bits that padding drops must be zero (only canonical encodings are accepted).
pub open spec fn decode_group(c: Seq<char>, last: bool) -> Option<Seq<u8>> {
    let p3 = c[2] == '=';
    let p4 = c[3] == '=';
    if sextet_value(c[0]) is None || sextet_value(c[1]) is None {
        None
    } else if p3 && !p4 {
        None
    } else if (p3 || p4) && !last {
        None
    } else if !p3 && sextet_value(c[2]) is None {
        None
    } else if !p4 && sextet_value(c[3]) is None {
        None
    } else {
        let f = sextet_value(c[0])->0;
        let s = sextet_value(c[1])->0;
        let t: int = if p3 { 0 } else { sextet_value(c[2])->0 };
        let u: int = if p4 { 0 } else { sextet_value(c[3])->0 };
        if (p3 && s % 16 != 0) || (p4 && !p3 && t % 4 != 0) {
            None
        } else {
            Some(
                seq![(f * 4 + s / 16) as u8] + (if !p3 {
                    seq![((s % 16) * 16 + t / 4) as u8]
                } else {
                    Seq::<u8>::empty()
                }) + (if !p4 {
                    seq![((t % 4) * 64 + u) as u8]
                } else {
                    Seq::<u8>::empty()
                }),
            )
        }
    }
}

/// The bytes that a canonical padded Base64 text stands for, or `None`.
pub open spec fn base64_decode_spec(s: Seq<char>) -> Option<Seq<u8>>
    decreases s.len(),
{
    if s.len() % 4 != 0 {
        None
    } else if s.len() == 0 {
        Some(seq![])
    } else {
        match decode_group(s.take(4), s.len() == 4) {
            None => None,
            Some(head) => match base64_decode_spec(s.skip(4)) {
                None => None,
                Some(tail) => Some(head + tail),
            },
        }
    }
}

fn sextet_to_char(v: u8) -> (c: char)
    requires
        v < 64,
    ensures
        c == sextet_char(v as int),
{
    if v < 26 {
        (65u8 + v) as char
    } else if v < 52 {
        (97u8 + (v - 26)) as char
    } else if v < 62 {
        (48u8 + (v - 52)) as char
    } else if v == 62 {
        '+'
    } else {
        '/'
    }
}

/// The sextet for one alphabet character.
pub fn base64_value(c: char) -> (r: Option<u8>)
    ensures
        r matches Some(v) ==> sextet_value(c) == Some(v as int),
        r is None <==> sextet_value(c) is None,
{
    if 'A' <= c && c <= 'Z' {
        Some((c as u32 - 65) as u8)
    } else if 'a' <= c && c <= 'z' {
        Some((c as u32 - 97 + 26) as u8)
    } else if '0' <= c && c <= '9' {
        Some((c as u32 - 48 + 52) as u8)
    } else if c == '+' {
        Some(62)
    } else if c == '/' {
        Some(63)
    } else {
        None
    }
}

proof fn lemma_spec_unfold(b: Seq<u8>, i: int)
    requires
        0 <= i,
        i + 3 < b.len(),
    ensures
        base64_spec(b.skip(i)) == encode_group(b.subrange(i, i + 3)) + base64_spec(b.skip(i + 3)),
{
    assert(b.skip(i).take(3) =~= b.subrange(i, i + 3));
    assert(b.skip(i).skip(3) =~= b.skip(i + 3));
}

/// Padded Base64 of `bytes`.
pub fn base64_encode(bytes: &[u8]) -> (r: String)
    ensures
        r@ == base64_spec(bytes@),
{
    let mut out: Vec<char> = Vec::new();
    let mut i: usize = 0;
    let n = bytes.len();
    assert(bytes@.skip(0) =~= bytes@);
    while i < n
        invariant
            n == bytes@.len(),
            i <= n,
            out@ + base64_spec(bytes@.skip(i as int)) == base64_spec(bytes@),
        decreases n - i,
    {
        let first = bytes[i];
        let second = if n - i > 1 { bytes[i + 1] } else { 0 };
        let third = if n - i > 2 { bytes[i + 2] } else { 0 };
        let ghost before = out@;
        out.push(sextet_to_char(first / 4));
        out.push(sextet_to_char((first % 4) * 16 + second / 16));
        if n - i > 1 {
            out.push(sextet_to_char((second % 16) * 4 + third / 64));
        } else {
            out.push('=');
        }
        if n - i > 2 {
            out.push(sextet_to_char(third % 64));
        } else {
            out.push('=');
        }
        if n - i > 3 {
            proof {
                lemma_spec_unfold(bytes@, i as int);
                assert(out@ =~= before + encode_group(bytes@.subrange(i as int, i + 3)));
            }
            i = i + 3;
        } else {
            proof {
                let rest = bytes@.skip(i as int);
                assert(rest.len() <= 3);
                assert(out@ =~= before + encode_group(rest));
                assert(bytes@.skip(n as int) =~= Seq::<u8>::empty());
            }
            i = n;
        }
    }
    assert(bytes@.skip(n as int) =~= Seq::<u8>::empty());
    assert(out@ + Seq::<char>::empty() =~= out@);
    string_of(out.as_slice())
}

fn decode_one_group(c0: char, c1: char, c2: char, c3: char, last: bool) -> (r: Option<Vec<u8>>)
    ensures
        r matches Some(v) ==> decode_group(seq![c0, c1, c2, c3], last) == Some(v@),
        r is None <==> decode_group(seq![c0, c1, c2, c3], last) is None,
{
    let ghost c = seq![c0, c1, c2, c3];
    assert(c[0] == c0 && c[1] == c1 && c[2] == c2 && c[3] == c3);
    let first = match base64_value(c0) {
        Some(v) => v,
        None => return None,
    };
    let second = match base64_value(c1) {
        Some(v) => v,
        None => return None,
    };
    let p3 = c2 == '=';
    let p4 = c3 == '=';
    if p3 && !p4 {
        return None;
    }
    if (p3 || p4) && !last {
        return None;
    }
    let third = if p3 {
        0u8
    } else {
        match base64_value(c2) {
            Some(v) => v,
            None => return None,
        }
    };
    let fourth = if p4 {
        0u8
    } else {
        match base64_value(c3) {
            Some(v) => v,
            None => return None,
        }
    };
    if (p3 && second % 16 != 0) || (p4 && !p3 && third % 4 != 0) {
        return None;
    }
    let mut out: Vec<u8> = Vec::new();
    out.push(first * 4 + second / 16);
    if !p3 {
        out.push((second % 16) * 16 + third / 4);
    }
    if !p4 {
        out.push((third % 4) * 64 + fourth);
    }
    proof {
        let f = first as int;
        let s = second as int;
        let t = third as int;
        let u = fourth as int;
        let expected = seq![(f * 4 + s / 16) as u8] + (if !p3 {
            seq![((s % 16) * 16 + t / 4) as u8]
        } else {
            Seq::<u8>::empty()
        }) + (if !p4 {
            seq![((t % 4) * 64 + u) as u8]
        } else {
            Seq::<u8>::empty()
        });
        assert(out@ =~= expected);
    }
    Some(out)
}

proof fn lemma_decode_unfold(s: Seq<char>, i: int)
    requires
        0 <= i,
        i + 4 <= s.len(),
        s.len() % 4 == 0,
        i % 4 == 0,
    ensures
        base64_decode_spec(s.skip(i)) == (match decode_group(s.subrange(i, i + 4), s.len() - i == 4) {
            None => None,
            Some(head) => match base64_decode_spec(s.skip(i + 4)) {
                None => None,
                Some(tail) => Some(head + tail),
            },
        }),
{
    assert(s.skip(i).take(4) =~= s.subrange(i, i + 4));
    assert(s.skip(i).skip(4) =~= s.skip(i + 4));
    assert(s.skip(i).len() == s.len() - i);
}

/// The bytes of a canonical padded Base64 text; `None` for any other text.
#[verifier::spinoff_prover]
#[verifier::rlimit(40)]
pub fn base64_decode(value: &str) -> (r: Option<Vec<u8>>)
    ensures
        r matches Some(v) ==> base64_decode_spec(value@) == Some(v@),
        r is None <==> base64_decode_spec(value@) is None,
{
    let s = chars_of(value);
    let n = s.len();
    if n % 4 != 0 {
        return None;
    }
    let mut bytes: Vec<u8> = Vec::new();
    let mut i: usize = 0;
    assert(s@.skip(0) =~= s@);
    while i < n
        invariant
            s@ == value@,
            n == s@.len(),
            n % 4 == 0,
            i <= n,
            i % 4 == 0,
            base64_decode_spec(value@) == (match base64_decode_spec(s@.skip(i as int)) {
                None => None,
                Some(t) => Some(bytes@ + t),
            }),
        decreases n - i,
    {
        proof {
            lemma_decode_unfold(s@, i as int);
            assert(s@.subrange(i as int, i + 4) =~= seq![s@[i as int], s@[i + 1], s@[i + 2], s@[i + 3]]);
        }
        let group = decode_one_group(s[i], s[i + 1], s[i + 2], s[i + 3], n - i == 4);
        match group {
            None => return None,
            Some(head) => {
                let ghost before = bytes@;
                let ghost h = head@;
                let mut head = head;
                bytes.append(&mut head);
                proof {
                    match base64_decode_spec(s@.skip(i + 4)) {
                        None => {},
                        Some(t) => {
                            assert(before + (h + t) =~= bytes@ + t);
                        },
                    }
                }
                i = i + 4;
            },
        }
    }
    assert(s@.skip(n as int) =~= Seq::<char>::empty());
    assert(bytes@ + Seq::<u8>::empty() =~= bytes@);
    Some(bytes)
}

proof fn lemma_sextet(v: int)
    requires
        0 <= v < 64,
    ensures
        sextet_value(sextet_char(v)) == Some(v),
        sextet_char(v) != '=',
{
    if v < 26 {
        assert((65 + v) as char as int == 65 + v);
    } else if v < 52 {
        assert((97 + (v - 26)) as char as int == 97 + (v - 26));
    } else if v < 62 {
        assert((48 + (v - 52)) as char as int == 48 + (v - 52));
    }
}

proof fn lemma_value_char(c: char)
    requires
        sextet_value(c) is Some,
    ensures
        0 <= sextet_value(c)->0 < 64,
        sextet_char(sextet_value(c)->0) == c,
{
    let v = sextet_value(c)->0;
    if 'A' <= c && c <= 'Z' {
        assert((65 + v) as char == c);
    } else if 'a' <= c && c <= 'z' {
        assert((97 + (v - 26)) as char == c);
    } else if '0' <= c && c <= '9' {
        assert((48 + (v - 52)) as char == c);
    }
}

proof fn lemma_byte_split(x: int)
    requires
        0 <= x < 256,
    ensures
        (x / 4) * 4 + x % 4 == x,
        (x / 16) * 16 + x % 16 == x,
        (x / 64) * 64 + x % 64 == x,
        0 <= x / 4 < 64,
        0 <= x / 16 < 16,
        0 <= x / 64 < 4,
{
}

proof fn lemma_group_roundtrip(x: Seq<u8>, last: bool)
    requires
        1 <= x.len() <= 3,
        x.len() < 3 ==> last,
    ensures
        decode_group(encode_group(x), last) == Some(x),
{
    let first = x[0] as int;
    let second: int = if x.len() > 1 { x[1] as int } else { 0 };
    let third: int = if x.len() > 2 { x[2] as int } else { 0 };
    lemma_byte_split(first);
    lemma_byte_split(second);
    lemma_byte_split(third);
    let f = first / 4;
    let s = (first % 4) * 16 + second / 16;
    let t = (second % 16) * 4 + third / 64;
    let u = third % 64;
    lemma_sextet(f);
    lemma_sextet(s);
    lemma_sextet(t);
    lemma_sextet(u);
    let c = encode_group(x);
    assert(s / 16 == first % 4 && s % 16 == second / 16);
    assert(t / 4 == second % 16 && t % 4 == third / 64);
    assert(f * 4 + s / 16 == first);
    assert((s % 16) * 16 + t / 4 == second);
    assert((t % 4) * 64 + u == third);
    let expected = seq![(f * 4 + s / 16) as u8] + (if x.len() > 1 {
        seq![((s % 16) * 16 + t / 4) as u8]
    } else {
        Seq::<u8>::empty()
    }) + (if x.len() > 2 {
        seq![((t % 4) * 64 + u) as u8]
    } else {
        Seq::<u8>::empty()
    });
    assert(expected =~= x);
}

proof fn lemma_group_canonical(c: Seq<char>, last: bool)
    requires
        c.len() == 4,
        decode_group(c, last) is Some,
    ensures
        1 <= decode_group(c, last)->0.len() <= 3,
        decode_group(c, last)->0.len() < 3 ==> last,
        encode_group(decode_group(c, last)->0) =~= c,
{
    let h = decode_group(c, last)->0;
    let p3 = c[2] == '=';
    let p4 = c[3] == '=';
    lemma_value_char(c[0]);
    lemma_value_char(c[1]);
    let f = sextet_value(c[0])->0;
    let s = sextet_value(c[1])->0;
    let t: int = if p3 { 0 } else { sextet_value(c[2])->0 };
    let u: int = if p4 { 0 } else { sextet_value(c[3])->0 };
    if !p3 {
        lemma_value_char(c[2]);
    }
    if !p4 {
        lemma_value_char(c[3]);
    }
    let first = f * 4 + s / 16;
    let second: int = if !p3 { (s % 16) * 16 + t / 4 } else { 0 };
    let third: int = if !p4 { (t % 4) * 64 + u } else { 0 };
    assert(0 <= first < 256);
    assert(0 <= (s % 16) * 16 + t / 4 < 256);
    assert(0 <= (t % 4) * 64 + u < 256);
    assert(h[0] as int == first);
    if !p3 {
        assert(h[1] as int == second);
    }
    if !p4 {
        assert(h[2] as int == third);
    }
    assert(first / 4 == f);
    assert(first % 4 == s / 16);
    assert((first % 4) * 16 + second / 16 == s);
    if !p3 {
        assert((second % 16) * 4 + third / 64 == t);
    }
    if !p4 {
        assert(third % 64 == u);
    }
}

proof fn lemma_spec_len(b: Seq<u8>)
    ensures
        base64_spec(b).len() % 4 == 0,
        (base64_spec(b).len() == 0) == (b.len() == 0),
        b.len() > 3 ==> base64_spec(b).len() > 4,
        0 < b.len() <= 3 ==> base64_spec(b).len() == 4,
    decreases b.len(),
{
    if b.len() > 3 {
        lemma_spec_len(b.skip(3));
    }
}

/// Decoding the encoding of any bytes gives those bytes back.
#[verifier::spinoff_prover]
#[verifier::rlimit(40)]
pub proof fn lemma_base64_roundtrip(b: Seq<u8>)
    ensures
        base64_decode_spec(base64_spec(b)) == Some(b),
    decreases b.len(),
{
    let e = base64_spec(b);
    lemma_spec_len(b);
    if b.len() == 0 {
    } else if b.len() <= 3 {
        lemma_group_roundtrip(b, true);
        assert(e.take(4) =~= e);
        assert(e.skip(4) =~= Seq::<char>::empty());
        assert(b + Seq::<u8>::empty() =~= b);
    } else {
        let head = b.take(3);
        let rest = b.skip(3);
        lemma_group_roundtrip(head, false);
        lemma_base64_roundtrip(rest);
        lemma_spec_len(rest);
        assert(e.take(4) =~= encode_group(head));
        assert(e.skip(4) =~= base64_spec(rest));
        assert(head + rest =~= b);
    }
}

/// A text that decodes is exactly the encoding of the bytes it decodes to: the
/// decoder accepts one canonical spelling per byte string.
pub proof fn lemma_base64_canonical(s: Seq<char>)
    requires
        base64_decode_spec(s) is Some,
    ensures
        base64_spec(base64_decode_spec(s)->0) == s,
        (base64_decode_spec(s)->0.len() == 0) == (s.len() == 0),
    decreases s.len(),
{
    if s.len() == 0 {
        assert(s =~= Seq::<char>::empty());
    } else {
        let last = s.len() == 4;
        let g = s.take(4);
        lemma_group_canonical(g, last);
        let h = decode_group(g, last)->0;
        let rest = s.skip(4);
        lemma_base64_canonical(rest);
        let t = base64_decode_spec(rest)->0;
        let b = h + t;
        if last {
            assert(rest.len() == 0);
            assert(t.len() == 0);
            assert(b =~= h);
            assert(g =~= s);
        } else {
            assert(t.len() > 0);
            assert(h.len() == 3);
            assert(b.take(3) =~= h);
            assert(b.skip(3) =~= t);
            assert(g + rest =~= s);
        }
    }
}

/// The alphabet is RFC 4648's standard table: sextet `v` is written as the `v`-th
/// character of `A..Z a..z 0..9 + /`, and exactly those 64 characters are read back,
/// each as its position in the table.
pub proof fn lemma_base64_alphabet()
    ensures
        "ABCDEFGHIJKLMNOPQRSTUVWXYZabcdefghijklmnopqrstuvwxyz0123456789+/"@.len() == 64,
        forall|v: int| 0 <= v < 64 ==> #[trigger] sextet_char(v) == "ABCDEFGHIJKLMNOPQRSTUVWXYZabcdefghijklmnopqrstuvwxyz0123456789+/"@[v],
        forall|v: int| 0 <= v < 64 ==> sextet_value(#[trigger] "ABCDEFGHIJKLMNOPQRSTUVWXYZabcdefghijklmnopqrstuvwxyz0123456789+/"@[v]) == Some(v),
        forall|c: char| #[trigger] sextet_value(c) is Some ==> 0 <= sextet_value(c)->0 < 64
            && "ABCDEFGHIJKLMNOPQRSTUVWXYZabcdefghijklmnopqrstuvwxyz0123456789+/"@[sextet_value(c)->0] == c,
{
    reveal_strlit("ABCDEFGHIJKLMNOPQRSTUVWXYZabcdefghijklmnopqrstuvwxyz0123456789+/");
}

/// Each three bytes `x y z` become four table characters, holding the top six bits of
/// `x`, its low two bits with the top four of `y`, the low four bits of `y` with the top
/// two of `z`, and the low six bits of `z`; a final group of two bytes or one byte is
/// completed with zero bits and padded with one or two `=`. Groups are encoded in order.
pub proof fn lemma_base64_groups(x: u8, y: u8, z: u8, rest: Seq<u8>)
    ensures
        base64_spec(Seq::<u8>::empty()) == Seq::<char>::empty(),
        base64_spec(seq![x, y, z] + rest) == seq![
            "ABCDEFGHIJKLMNOPQRSTUVWXYZabcdefghijklmnopqrstuvwxyz0123456789+/"@[x as int / 4],
            "ABCDEFGHIJKLMNOPQRSTUVWXYZabcdefghijklmnopqrstuvwxyz0123456789+/"@[(x as int % 4) * 16 + y as int / 16],
            "ABCDEFGHIJKLMNOPQRSTUVWXYZabcdefghijklmnopqrstuvwxyz0123456789+/"@[(y as int % 16) * 4 + z as int / 64],
            "ABCDEFGHIJKLMNOPQRSTUVWXYZabcdefghijklmnopqrstuvwxyz0123456789+/"@[z as int % 64],
        ] + base64_spec(rest),
        base64_spec(seq![x, y]) == seq![
            "ABCDEFGHIJKLMNOPQRSTUVWXYZabcdefghijklmnopqrstuvwxyz0123456789+/"@[x as int / 4],
            "ABCDEFGHIJKLMNOPQRSTUVWXYZabcdefghijklmnopqrstuvwxyz0123456789+/"@[(x as int % 4) * 16 + y as int / 16],
            "ABCDEFGHIJKLMNOPQRSTUVWXYZabcdefghijklmnopqrstuvwxyz0123456789+/"@[(y as int % 16) * 4],
            '=',
        ],
        base64_spec(seq![x]) == seq![
            "ABCDEFGHIJKLMNOPQRSTUVWXYZabcdefghijklmnopqrstuvwxyz0123456789+/"@[x as int / 4],
            "ABCDEFGHIJKLMNOPQRSTUVWXYZabcdefghijklmnopqrstuvwxyz0123456789+/"@[(x as int % 4) * 16],
            '=',
            '=',
        ],
{
    lemma_base64_alphabet();
    let g = seq![x, y, z];
    let b = g + rest;
    if rest.len() == 0 {
        assert(b =~= g);
        assert(encode_group(g) + Seq::<char>::empty() =~= encode_group(g));
    } else {
        assert(b.take(3) =~= g);
        assert(b.skip(3) =~= rest);
    }
    assert(encode_group(g) =~= seq![
        sextet_char(x as int / 4),
        sextet_char((x as int % 4) * 16 + y as int / 16),
        sextet_char((y as int % 16) * 4 + z as int / 64),
        sextet_char(z as int % 64),
    ]);
}

/// A text decodes to `b` exactly when it is the encoding of `b`.
pub proof fn lemma_base64_decode_exact(s: Seq<char>, b: Seq<u8>)
    ensures
        base64_decode_spec(s) == Some(b) <==> s == base64_spec(b),
{
    lemma_base64_roundtrip(b);
    if base64_decode_spec(s) == Some(b) {
        lemma_base64_canonical(s);
    }
}

} // verus!
