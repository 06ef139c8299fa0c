//! USD text pieces: prim names, the scene's up axis, and integer arrays.
use vstd::prelude::*;
use crate::text::{chars_of, push_char, string_from_chars};

verus! {

/// Whether `c` is an ASCII letter.
pub open spec fn is_ascii_letter(c: char) -> bool {
    ('a' <= c && c <= 'z') || ('A' <= c && c <= 'Z')
}

/// Whether `c` is an ASCII letter or digit.
pub open spec fn is_ascii_letter_or_digit(c: char) -> bool {
    is_ascii_letter(c) || ('0' <= c && c <= '9')
}

/// What the first character of a name becomes: kept when it is a letter or
/// `_`; otherwise `_`, followed by the character itself when it is a digit.
pub open spec fn sanitized_first(c: char) -> Seq<char> {
    if is_ascii_letter(c) || c == '_' {
        seq![c]
    } else if is_ascii_letter_or_digit(c) {
        seq!['_', c]
    } else {
        seq!['_']
    }
}

/// What a later character of a name becomes: kept when it is a letter, a digit
/// or `_`, replaced by `_` otherwise.
pub open spec fn sanitized_rest(c: char) -> char {
    if is_ascii_letter_or_digit(c) || c == '_' {
        c
    } else {
        '_'
    }
}

/// A valid USD prim name for `s`: it starts with a letter or `_` and holds only
/// letters, digits and `_`; an empty name becomes `Mesh`.
pub open spec fn sanitized(s: Seq<char>) -> Seq<char> {
    if s.len() == 0 {
        seq!['M', 'e', 's', 'h']
    } else {
        sanitized_first(s[0]) + s.drop_first().map_values(|c: char| sanitized_rest(c))
    }
}

fn is_letter(c: char) -> (b: bool)
    ensures
        b == is_ascii_letter(c),
{
    ('a' <= c && c <= 'z') || ('A' <= c && c <= 'Z')
}

fn is_letter_or_digit(c: char) -> (b: bool)
    ensures
        b == is_ascii_letter_or_digit(c),
{
    is_letter(c) || ('0' <= c && c <= '9')
}

/// Turns `name` into a valid USD prim name.
pub fn sanitize_name(name: &str) -> (r: String)
    ensures
        r@ == sanitized(name@),
{
    let chars = chars_of(name);
    if chars.len() == 0 {
        let mut r = String::new();
        push_char(&mut r, 'M');
        push_char(&mut r, 'e');
        push_char(&mut r, 's');
        push_char(&mut r, 'h');
        assert(r@ =~= seq!['M', 'e', 's', 'h']);
        return r;
    }
    let mut out: Vec<char> = Vec::new();
    let c0 = chars[0];
    if is_letter(c0) || c0 == '_' {
        out.push(c0);
    } else {
        out.push('_');
        if is_letter_or_digit(c0) {
            out.push(c0);
        }
    }
    assert(out@ =~= sanitized_first(c0));
    let mut i: usize = 1;
    while i < chars.len()
        invariant
            1 <= i <= chars@.len(),
            chars@ == name@,
            out@ == sanitized_first(chars@[0]) + chars@.subrange(1, i as int).map_values(|c: char| sanitized_rest(c)),
        decreases chars@.len() - i,
    {
        let c = chars[i];
        if is_letter_or_digit(c) || c == '_' {
            out.push(c);
        } else {
            out.push('_');
        }
        assert(chars@.subrange(1, i + 1).map_values(|c: char| sanitized_rest(c)) =~= chars@.subrange(
            1,
            i as int,
        ).map_values(|c: char| sanitized_rest(c)).push(sanitized_rest(c)));
        i = i + 1;
    }
    assert(chars@.subrange(1, i as int) =~= chars@.drop_first());
    string_from_chars(&out)
}

/// The name of the prim written for the mesh at position `index`: the name
/// itself for the first, then the name followed by `_` and the index.
pub open spec fn prim_name_text(name: Seq<char>, index: usize) -> Seq<char> {
    if index == 0 {
        name
    } else {
        name + seq!['_'] + decimal(index as nat)
    }
}

/// The decimal digits of `n`, without leading zeros (`0` for zero).
pub open spec fn decimal(n: nat) -> Seq<char>
    decreases n,
{
    if n < 10 {
        seq![((n + 48) as u32) as char]
    } else {
        decimal(n / 10).push((((n % 10) + 48) as u32) as char)
    }
}

/// Appends the decimal digits of `n` to `out`.
pub fn push_decimal(out: &mut Vec<char>, n: u64)
    ensures
        final(out)@ == old(out)@ + decimal(n as nat),
    decreases n,
{
    if n >= 10 {
        push_decimal(out, n / 10);
    }
    let d = (n % 10) as u32;
    let c = char_of_digit(d);
    out.push(c);
    assert(final(out)@ =~= old(out)@ + decimal(n as nat));
}

fn char_of_digit(d: u32) -> (c: char)
    requires
        d < 10,
    ensures
        c == ((d + 48) as u32) as char,
{
    match d {
        0 => '0',
        1 => '1',
        2 => '2',
        3 => '3',
        4 => '4',
        5 => '5',
        6 => '6',
        7 => '7',
        8 => '8',
        _ => '9',
    }
}

/// The name of the prim written for the mesh at position `index`.
pub fn prim_name(name: &str, index: usize) -> (r: String)
    ensures
        r@ == prim_name_text(name@, index),
{
    let mut out = chars_of(name);
    if index > 0 {
        out.push('_');
        push_decimal(&mut out, index as u64);
    }
    string_from_chars(&out)
}

/// The axis that points up in a scene.
#[derive(Debug, Clone, Copy, PartialEq, Eq, Structural)]
pub enum UpAxis {
    Y,
    Z,
}


impl Default for UpAxis {
    /// The axis used when none is given.
    fn default() -> (a: UpAxis)
        ensures
            a == UpAxis::Y,
    {
        UpAxis::Y
    }
}

impl UpAxis {

    /// The token written for the axis.
    pub fn token(&self) -> (r: &'static str)
        ensures
            r@ == (match *self {
                UpAxis::Y => "Y"@,
                UpAxis::Z => "Z"@,
            }),
    {
        match self {
            UpAxis::Y => "Y",
            UpAxis::Z => "Z",
        }
    }
}

/// A sanitized name is never empty, starts with a letter or `_`, and holds
/// only letters, digits and `_`.
pub proof fn law_sanitized_is_valid(s: Seq<char>)
    ensures
        sanitized(s).len() > 0,
        is_ascii_letter(sanitized(s)[0]) || sanitized(s)[0] == '_',
        forall|i: int| 0 <= i < sanitized(s).len() ==> is_ascii_letter_or_digit(#[trigger] sanitized(s)[i])
            || sanitized(s)[i] == '_',
{
    if s.len() > 0 {
        let f = sanitized_first(s[0]);
        let r = s.drop_first().map_values(|c: char| sanitized_rest(c));
        assert forall|i: int| 0 <= i < sanitized(s).len() implies is_ascii_letter_or_digit(#[trigger] sanitized(s)[i])
            || sanitized(s)[i] == '_' by {
            if i >= f.len() {
                assert(sanitized(s)[i] == r[i - f.len()]);
            }
        }
    }
}

/// Sanitizing a valid name gives it back unchanged.
pub proof fn law_sanitize_keeps_valid_names(s: Seq<char>)
    requires
        s.len() > 0,
        is_ascii_letter(s[0]) || s[0] == '_',
        forall|i: int| 0 <= i < s.len() ==> is_ascii_letter_or_digit(#[trigger] s[i]) || s[i] == '_',
    ensures
        sanitized(s) == s,
{
    let r = s.drop_first().map_values(|c: char| sanitized_rest(c));
    assert forall|i: int| 0 <= i < r.len() implies r[i] == s.drop_first()[i] by {
        assert(s.drop_first()[i] == s[i + 1]);
    }
    assert(r =~= s.drop_first());
    assert(sanitized(s) =~= s);
}

/// The indent of the values of a USD array.
pub open spec fn array_indent() -> Seq<char> {
    "            "@
}

/// The values `vs` as USD writes them in an integer array: separated by
/// commas, with a line break and the indent before every twentieth value.
pub open spec fn int_items(vs: Seq<u32>) -> Seq<char>
    decreases vs.len(),
{
    if vs.len() == 0 {
        Seq::empty()
    } else {
        let i = vs.len() - 1;
        let sep = if i > 0 {
            ", "@ + if i % 20 == 0 {
                "\n"@ + array_indent()
            } else {
                Seq::empty()
            }
        } else {
            Seq::empty()
        };
        int_items(vs.drop_last()) + sep + decimal(vs.last() as nat)
    }
}

/// The lines between the opening and closing lines of a USD integer array.
pub open spec fn int_array_text(vs: Seq<u32>) -> Seq<char> {
    array_indent() + int_items(vs) + "\n"@
}

pub(crate) fn append_str(out: &mut Vec<char>, s: &str)
    ensures
        final(out)@ == old(out)@ + s@,
{
    let mut tail = chars_of(s);
    out.append(&mut tail);
}

/// The values of a USD integer array, as the array's body lines.
pub fn int_array_body(vs: &Vec<u32>) -> (r: String)
    ensures
        r@ == int_array_text(vs@),
{
    let mut out: Vec<char> = Vec::new();
    append_str(&mut out, "            ");
    let mut i: usize = 0;
    while i < vs.len()
        invariant
            i <= vs@.len(),
            out@ == array_indent() + int_items(vs@.take(i as int)),
        decreases vs@.len() - i,
    {
        if i > 0 {
            append_str(&mut out, ", ");
            if i % 20 == 0 {
                append_str(&mut out, "\n");
                append_str(&mut out, "            ");
            }
        }
        push_decimal(&mut out, vs[i] as u64);
        proof {
            let t = vs@.take(i + 1);
            assert(t.drop_last() =~= vs@.take(i as int));
            assert(t.last() == vs@[i as int]);
            assert(out@ =~= array_indent() + int_items(t));
        }
        i = i + 1;
    }
    append_str(&mut out, "\n");
    proof {
        assert(vs@.take(i as int) =~= vs@);
    }
    string_from_chars(&out)
}

/// The vertex count of each face of a triangle mesh: three, once per triangle.
pub fn face_vertex_counts(triangles: usize) -> (r: Vec<u32>)
    ensures
        r@ == Seq::new(triangles as nat, |i: int| 3u32),
{
    let mut r: Vec<u32> = Vec::new();
    let mut i: usize = 0;
    while i < triangles
        invariant
            i <= triangles,
            r@ == Seq::new(i as nat, |k: int| 3u32),
        decreases triangles - i,
    {
        r.push(3);
        i = i + 1;
        assert(r@ =~= Seq::new(i as nat, |k: int| 3u32));
    }
    r
}

} // verus!
