//! Standard base64 (`A-Z a-z 0-9 + /`, `=` padding), as used for buffers
//! embedded in glTF data URIs.
use vstd::prelude::*;
use crate::formats::IoError;
use crate::text::push_char;
use vstd::string::StringSliceAdditionalSpecFns;
use vstd::utf8::{encode_utf8, is_ascii_chars, is_ascii_chars_encode_utf8};

verus! {

/// The alphabet character (as a byte) for a 6-bit value.
pub open spec fn sextet_byte(v: int) -> u8 {
    if v < 26 {
        (65 + v) as u8
    } else if v < 52 {
        (71 + v) as u8
    } else if v < 62 {
        (v - 4) as u8
    } else if v == 62 {
        43u8
    } else {
        47u8
    }
}

/// The 6-bit value of an alphabet byte, if it is one.
pub open spec fn sextet_of(b: u8) -> Option<int> {
    if 65 <= b <= 90 {
        Some(b - 65)
    } else if 97 <= b <= 122 {
        Some(b - 71)
    } else if 48 <= b <= 57 {
        Some(b + 4)
    } else if b == 43 {
        Some(62)
    } else if b == 47 {
        Some(63)
    } else {
        None
    }
}

/// Number of bytes that `n` base64 digits carry: three per full group of four,
/// and one or two for a trailing group of two or three.
pub open spec fn decoded_len(n: int) -> int {
    3 * (n / 4) + if n % 4 == 2 {
        1int
    } else if n % 4 == 3 {
        2int
    } else {
        0int
    }
}

/// Byte `k` of the data carried by the digit values `v`.
pub open spec fn decoded_byte(v: Seq<int>, k: int) -> u8 {
    let g = k / 3;
    let r = k % 3;
    if r == 0 {
        (v[4 * g] * 4 + v[4 * g + 1] / 16) as u8
    } else if r == 1 {
        ((v[4 * g + 1] % 16) * 16 + v[4 * g + 2] / 4) as u8
    } else {
        ((v[4 * g + 2] % 4) * 64 + v[4 * g + 3]) as u8
    }
}

/// The data carried by the digit values `v`.
pub open spec fn decode_values(v: Seq<int>) -> Seq<u8> {
    Seq::new(decoded_len(v.len() as int) as nat, |k: int| decoded_byte(v, k))
}

/// Position of the first `=` in `s`, or its length when there is none.
pub open spec fn pad_index(s: Seq<u8>) -> int
    decreases s.len(),
{
    if s.len() == 0 || s[0] == 61 {
        0
    } else {
        1 + pad_index(s.drop_first())
    }
}

/// The result of decoding `s`: the digits before the first `=` must all be
/// alphabet characters, and then give their data; otherwise decoding fails.
pub open spec fn base64_decoded(s: Seq<u8>) -> Option<Seq<u8>> {
    let body = s.take(pad_index(s));
    if forall|i: int| 0 <= i < body.len() ==> #[trigger] sextet_of(body[i]) is Some {
        Some(decode_values(body.map_values(|b: u8| sextet_of(b)->0)))
    } else {
        None
    }
}

/// Character `p` of the base64 text of `s`.
pub open spec fn encoded_char(s: Seq<u8>, p: int) -> char {
    let g = p / 4;
    let r = p % 4;
    let n = s.len();
    let b0 = s[3 * g] as int;
    let b1 = if 3 * g + 1 < n { s[3 * g + 1] as int } else { 0 };
    let b2 = if 3 * g + 2 < n { s[3 * g + 2] as int } else { 0 };
    if r == 0 {
        sextet_byte(b0 / 4) as char
    } else if r == 1 {
        sextet_byte((b0 % 4) * 16 + b1 / 16) as char
    } else if r == 2 {
        if 3 * g + 1 < n {
            sextet_byte((b1 % 16) * 4 + b2 / 64) as char
        } else {
            '='
        }
    } else {
        if 3 * g + 2 < n {
            sextet_byte(b2 % 64) as char
        } else {
            '='
        }
    }
}

/// The base64 text of `s`: four characters for each group of three bytes, the
/// last group padded with `=`.
pub open spec fn base64_text(s: Seq<u8>) -> Seq<char> {
    Seq::new((4 * ((s.len() + 2) / 3)) as nat, |p: int| encoded_char(s, p))
}

fn sextet_value(b: u8) -> (r: Option<u32>)
    ensures
        match sextet_of(b) {
            Some(v) => r == Some(v as u32),
            None => r is None,
        },
{
    if 65 <= b && b <= 90 {
        Some((b - 65) as u32)
    } else if 97 <= b && b <= 122 {
        Some((b - 71) as u32)
    } else if 48 <= b && b <= 57 {
        Some((b + 4) as u32)
    } else if b == 43 {
        Some(62)
    } else if b == 47 {
        Some(63)
    } else {
        None
    }
}

fn sextet_char(v: u32) -> (c: char)
    requires
        v < 64,
    ensures
        c == sextet_byte(v as int) as char,
{
    let b: u8 = if v < 26 {
        (65 + v) as u8
    } else if v < 52 {
        (71 + v) as u8
    } else if v < 62 {
        (v - 4) as u8
    } else if v == 62 {
        43
    } else {
        47
    };
    b as char
}

/// Bytes before index `i` are no padding, and byte `i` is padding or the end.
proof fn lemma_pad_index(s: Seq<u8>, i: int)
    requires
        0 <= i <= s.len(),
        forall|j: int| 0 <= j < i ==> s[j] != 61,
        i == s.len() || s[i] == 61,
    ensures
        pad_index(s) == i,
    decreases i,
{
    if i > 0 {
        lemma_pad_index(s.drop_first(), i - 1);
    }
}

/// Extending the digit values by one keeps the bytes decoded so far and may add one.
proof fn lemma_decode_push(v: Seq<int>, x: int)
    ensures
        decode_values(v.push(x)).len() == decoded_len(v.len() + 1int),
        forall|k: int| 0 <= k < decoded_len(v.len() as int) ==> #[trigger] decode_values(v.push(x))[k]
            == decode_values(v)[k],
{
    let n = v.len() as int;
    assert forall|k: int| 0 <= k < decoded_len(n) implies #[trigger] decode_values(v.push(x))[k]
        == decode_values(v)[k] by {
        let g = k / 3;
        let r = k % 3;
        assert(k == 3 * g + r && 0 <= r < 3);
        assert(4 * g + r + 1 < n);
        if r < 2 {
            assert(4 * g + r + 1 < n);
        }
        assert(v.push(x)[4 * g] == v[4 * g]);
        assert(v.push(x)[4 * g + 1] == v[4 * g + 1]);
        if r >= 1 {
            assert(v.push(x)[4 * g + 2] == v[4 * g + 2]);
        }
        if r == 2 {
            assert(v.push(x)[4 * g + 3] == v[4 * g + 3]);
        }
    }
}

/// Decodes base64 text up to the first `=`; fails on a character outside the
/// alphabet before that.
pub fn base64_decode(input: &str) -> (r: Result<Vec<u8>, IoError>)
    ensures
        match base64_decoded(input.spec_bytes()) {
            Some(d) => r is Ok && r->Ok_0@ == d,
            None => r is Err && r->Err_0 is ParseError,
        },
{
    let bytes = input.as_bytes();
    let ghost s = bytes@;
    let mut output: Vec<u8> = Vec::new();
    let mut buf: u32 = 0;
    let mut bits: u32 = 0;
    let mut i: usize = 0;
    let ghost mut vals: Seq<int> = Seq::empty();
    while i < bytes.len()
        invariant
            s == bytes@,
            s == input.spec_bytes(),
            i <= s.len(),
            vals.len() == i,
            forall|j: int| 0 <= j < i ==> s[j] != 61,
            forall|j: int| 0 <= j < i ==> #[trigger] sextet_of(s[j]) == Some(vals[j]),
            forall|j: int| 0 <= j < i ==> 0 <= #[trigger] vals[j] < 64,
            output@ == decode_values(vals),
            i % 4 == 0 ==> bits == 0 && buf == 0,
            i % 4 == 1 ==> bits == 6 && buf == vals[i - 1],
            i % 4 == 2 ==> bits == 4 && buf == vals[i - 1] % 16,
            i % 4 == 3 ==> bits == 2 && buf == vals[i - 1] % 4,
        ensures
            i <= s.len(),
            vals.len() == i,
            forall|j: int| 0 <= j < i ==> s[j] != 61,
            forall|j: int| 0 <= j < i ==> #[trigger] sextet_of(s[j]) == Some(vals[j]),
            output@ == decode_values(vals),
            i == s.len() || s[i as int] == 61,
        decreases s.len() - i,
    {
        let byte = bytes[i];
        if byte == 61 {
            break;
        }
        let value = match sextet_value(byte) {
            Some(v) => v,
            None => {
                proof {
                    lemma_pad_index_after(s, i as int);
                    let body = s.take(pad_index(s));
                    assert(body[i as int] == byte);
                    assert(!(sextet_of(body[i as int]) is Some));
                }
                let mut msg = String::new();
                push_str_literal(&mut msg, "Invalid base64");
                return Err(IoError::ParseError(msg));
            },
        };
        let ghost old_vals = vals;
        let ghost old_out = output@;
        proof {
            vals = vals.push(value as int);
            lemma_decode_push(old_vals, value as int);
        }
        let phase = i % 4;
        if phase == 0 {
            buf = value;
            bits = 6;
            assert(output@ =~= decode_values(vals));
        } else if phase == 1 {
            let a = buf;
            assert(((a << 6u32) | value) >> 4u32 == a * 4 + value / 16 && ((a << 6u32) | value) & 15u32 == value % 16) by (bit_vector)
                requires
                    a < 64,
                    value < 64,
            ;
            buf = (buf << 6) | value;
            bits = 4;
            output.push((buf >> bits) as u8);
            buf = buf & 15;
            assert(output@ =~= decode_values(vals)) by {
                let k = decoded_len(old_vals.len() as int);
                assert(k % 3 == 0);
                assert(4 * (k / 3) == i - 1);
            }
        } else if phase == 2 {
            let b = buf;
            assert(((b << 6u32) | value) >> 2u32 == b * 16 + value / 4 && ((b << 6u32) | value) & 3u32 == value % 4) by (bit_vector)
                requires
                    b < 16,
                    value < 64,
            ;
            buf = (buf << 6) | value;
            bits = 2;
            output.push((buf >> bits) as u8);
            buf = buf & 3;
            assert(output@ =~= decode_values(vals)) by {
                let k = decoded_len(old_vals.len() as int);
                assert(k % 3 == 1);
                assert(4 * (k / 3) + 2 == i);
                assert(vals[i - 1] % 16 == b);
            }
        } else {
            let c = buf;
            assert(((c << 6u32) | value) == c * 64 + value) by (bit_vector)
                requires
                    c < 4,
                    value < 64,
            ;
            buf = (buf << 6) | value;
            bits = 0;
            output.push(buf as u8);
            buf = 0;
            assert(output@ =~= decode_values(vals)) by {
                let k = decoded_len(old_vals.len() as int);
                assert(k % 3 == 2);
                assert(4 * (k / 3) + 3 == i);
                assert(vals[i - 1] % 4 == c);
            }
        }
        i = i + 1;
    }
    proof {
        lemma_pad_index(s, i as int);
        let body = s.take(pad_index(s));
        assert(body.map_values(|b: u8| sextet_of(b)->0) =~= vals);
    }
    Ok(output)
}

/// The first `i` bytes hold no padding, so padding starts at `i` or later.
proof fn lemma_pad_index_after(s: Seq<u8>, i: int)
    requires
        0 <= i < s.len(),
        forall|j: int| 0 <= j < i ==> s[j] != 61,
        s[i] != 61,
    ensures
        i < pad_index(s) <= s.len(),
    decreases i,
{
    if i > 0 {
        lemma_pad_index_after(s.drop_first(), i - 1);
    } else {
        lemma_pad_index_bound(s.drop_first());
    }
}

proof fn lemma_pad_index_bound(s: Seq<u8>)
    ensures
        0 <= pad_index(s) <= s.len(),
    decreases s.len(),
{
    if s.len() > 0 {
        lemma_pad_index_bound(s.drop_first());
    }
}

/// Appends the characters of a literal.
fn push_str_literal(s: &mut String, lit: &str)
    ensures
        final(s)@ == old(s)@ + lit@,
{
    s.append(lit);
}

/// Encodes bytes as base64 text with `=` padding.
pub fn base64_encode(input: &[u8]) -> (r: String)
    ensures
        r@ == base64_text(input@),
{
    let n = input.len();
    let chunks = n / 3 + if n % 3 > 0 { 1 } else { 0 };
    assert(chunks == (n + 2) / 3);
    let mut out = String::new();
    let mut g: usize = 0;
    while g < chunks
        invariant
            n == input@.len(),
            chunks == (n + 2) / 3,
            g <= chunks,
            out@ == base64_text(input@).take(4 * g),
        decreases chunks - g,
    {
        let i = 3 * g;
        let b0 = input[i] as u32;
        let b1: u32 = if i + 1 < n { input[i + 1] as u32 } else { 0 };
        let b2: u32 = if i + 2 < n { input[i + 2] as u32 } else { 0 };
        let triple = (b0 << 16) | (b1 << 8) | b2;
        assert(((triple >> 18u32) & 63u32) == b0 / 4 && ((triple >> 12u32) & 63u32) == (b0 % 4) * 16 + b1 / 16
            && ((triple >> 6u32) & 63u32) == (b1 % 16) * 4 + b2 / 64 && (triple & 63u32) == b2 % 64) by (bit_vector)
            requires
                b0 < 256,
                b1 < 256,
                b2 < 256,
                triple == (b0 << 16u32) | (b1 << 8u32) | b2,
        ;
        let ghost before = out@;
        push_char(&mut out, sextet_char((triple >> 18) & 0x3F));
        push_char(&mut out, sextet_char((triple >> 12) & 0x3F));
        if i + 1 < n {
            push_char(&mut out, sextet_char((triple >> 6) & 0x3F));
        } else {
            push_char(&mut out, '=');
        }
        if i + 2 < n {
            push_char(&mut out, sextet_char(triple & 0x3F));
        } else {
            push_char(&mut out, '=');
        }
        proof {
            let t = base64_text(input@);
            assert(t.len() == 4 * ((n + 2) / 3));
            assert(4 * g + 4 <= t.len());
            assert forall|p: int| 0 <= p < 4 * g + 4 implies out@[p] == t[p] by {
                if p < 4 * g {
                    assert(out@[p] == before[p]);
                } else {
                    assert(p / 4 == g);
                }
            }
            assert(out@ =~= t.take(4 * g + 4));
        }
        g = g + 1;
    }
    assert(base64_text(input@).take(4 * chunks as int) =~= base64_text(input@));
    out
}

/// Each 6-bit value maps to an alphabet byte that reads back as the same value.
proof fn lemma_sextet_roundtrip(x: int)
    requires
        0 <= x < 64,
    ensures
        sextet_byte(x) != 61,
        sextet_byte(x) < 128,
        sextet_of(sextet_byte(x)) == Some(x),
        (sextet_byte(x) as char) as u8 == sextet_byte(x),
{
}

/// The three bytes of a group come back from its four digit values.
proof fn lemma_group_arith(b0: int, b1: int, b2: int)
    requires
        0 <= b0 < 256,
        0 <= b1 < 256,
        0 <= b2 < 256,
    ensures
        (b0 / 4) * 4 + ((b0 % 4) * 16 + b1 / 16) / 16 == b0,
        (((b0 % 4) * 16 + b1 / 16) % 16) * 16 + ((b1 % 16) * 4 + b2 / 64) / 4 == b1,
        (((b1 % 16) * 4 + b2 / 64) % 4) * 64 + b2 % 64 == b2,
        0 <= b0 / 4 < 64,
        0 <= (b0 % 4) * 16 + b1 / 16 < 64,
        0 <= (b1 % 16) * 4 + b2 / 64 < 64,
        0 <= b2 % 64 < 64,
{
    assert((b0 / 4) * 4 + ((b0 % 4) * 16 + b1 / 16) / 16 == b0) by (nonlinear_arith)
        requires
            0 <= b0 < 256,
            0 <= b1 < 256,
    ;
    assert((((b0 % 4) * 16 + b1 / 16) % 16) * 16 + ((b1 % 16) * 4 + b2 / 64) / 4 == b1) by (nonlinear_arith)
        requires
            0 <= b0 < 256,
            0 <= b1 < 256,
            0 <= b2 < 256,
    ;
    assert((((b1 % 16) * 4 + b2 / 64) % 4) * 64 + b2 % 64 == b2) by (nonlinear_arith)
        requires
            0 <= b1 < 256,
            0 <= b2 < 256,
    ;
}

/// The digit value written at position `p` of the text of `s` (before padding).
pub open spec fn encoded_value(s: Seq<u8>, p: int) -> int {
    let g = p / 4;
    let r = p % 4;
    let n = s.len();
    let b0 = s[3 * g] as int;
    let b1 = if 3 * g + 1 < n { s[3 * g + 1] as int } else { 0 };
    let b2 = if 3 * g + 2 < n { s[3 * g + 2] as int } else { 0 };
    if r == 0 {
        b0 / 4
    } else if r == 1 {
        (b0 % 4) * 16 + b1 / 16
    } else if r == 2 {
        (b1 % 16) * 4 + b2 / 64
    } else {
        b2 % 64
    }
}

/// Length of the text of `n` bytes before any padding.
pub open spec fn unpadded_len(n: int) -> int {
    4 * (n / 3) + if n % 3 == 0 {
        0int
    } else {
        n % 3 + 1
    }
}

/// Decoding the base64 text of any bytes gives those bytes back.
pub proof fn law_base64_roundtrip(s: Seq<u8>)
    ensures
        base64_decoded(encode_utf8(base64_text(s))) == Some(s),
{
    let t = base64_text(s);
    let n = s.len() as int;
    let ul = unpadded_len(n);
    assert(ul <= t.len());
    // characters before the padding are alphabet characters of the digit values
    assert forall|p: int| 0 <= p < ul implies #[trigger] t[p] == sextet_byte(encoded_value(s, p)) as char
        && 0 <= encoded_value(s, p) < 64 by {
        let g = p / 4;
        let b0 = s[3 * g] as int;
        let b1 = if 3 * g + 1 < n { s[3 * g + 1] as int } else { 0 };
        let b2 = if 3 * g + 2 < n { s[3 * g + 2] as int } else { 0 };
        lemma_group_arith(b0, b1, b2);
    }
    assert forall|p: int| ul <= p < t.len() implies #[trigger] t[p] == '=' by {}
    assert(is_ascii_chars(t)) by {
        assert forall|p: int| 0 <= p < t.len() implies '\0' <= #[trigger] t[p] <= '\u{7f}' by {
            if p < ul {
                lemma_sextet_roundtrip(encoded_value(s, p));
            }
        }
    }
    is_ascii_chars_encode_utf8(t);
    let e = encode_utf8(t);
    assert forall|p: int| 0 <= p < ul implies e[p] == sextet_byte(encoded_value(s, p)) && e[p] != 61
        && sextet_of(#[trigger] e[p]) == Some(encoded_value(s, p)) by {
        assert(t[p] as u8 == e[p]);
        lemma_sextet_roundtrip(encoded_value(s, p));
    }
    if ul < e.len() {
        assert(t[ul] as u8 == e[ul]);
    }
    lemma_pad_index(e, ul);
    let body = e.take(ul);
    assert forall|i: int| 0 <= i < body.len() implies #[trigger] sextet_of(body[i]) is Some by {
        assert(body[i] == e[i]);
    }
    let v = body.map_values(|b: u8| sextet_of(b)->0);
    assert forall|p: int| 0 <= p < ul implies #[trigger] v[p] == encoded_value(s, p) by {
        assert(body[p] == e[p]);
    }
    assert(decoded_len(ul) == n);
    assert forall|k: int| 0 <= k < n implies #[trigger] decoded_byte(v, k) == s[k] by {
        let g = k / 3;
        let r = k % 3;
        let b0 = s[3 * g] as int;
        let b1 = if 3 * g + 1 < n { s[3 * g + 1] as int } else { 0 };
        let b2 = if 3 * g + 2 < n { s[3 * g + 2] as int } else { 0 };
        lemma_group_arith(b0, b1, b2);
        assert((4 * g) / 4 == g && (4 * g + 1) / 4 == g && (4 * g + 2) / 4 == g && (4 * g + 3) / 4 == g);
        assert((4 * g) % 4 == 0 && (4 * g + 1) % 4 == 1 && (4 * g + 2) % 4 == 2 && (4 * g + 3) % 4 == 3);
        assert(4 * g + 1 < ul);
        if r >= 1 {
            assert(4 * g + 2 < ul);
        }
        if r == 2 {
            assert(4 * g + 3 < ul);
        }
    }
    assert(decode_values(v) =~= s);
}

} // verus!
