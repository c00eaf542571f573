//! UTF-16, the text encoding of the Windows clipboard.

use vstd::prelude::*;
use crate::text::{chars_of, push_char};

verus! {

/// The UTF-16 code units of one character.
pub open spec fn char_units(c: char) -> Seq<u16> {
    let v = c as int;
    if v < 0x10000 {
        seq![v as u16]
    } else {
        let w = v - 0x10000;
        seq![(0xD800 + w / 0x400) as u16, (0xDC00 + w % 0x400) as u16]
    }
}

/// The UTF-16 encoding of `s`.
pub open spec fn utf16_encode(s: Seq<char>) -> Seq<u16>
    decreases s.len(),
{
    if s.len() == 0 {
        seq![]
    } else {
        char_units(s[0]) + utf16_encode(s.skip(1))
    }
}

pub open spec fn is_high_surrogate(u: u16) -> bool {
    0xD800 <= u <= 0xDBFF
}

pub open spec fn is_low_surrogate(u: u16) -> bool {
    0xDC00 <= u <= 0xDFFF
}

pub open spec fn is_surrogate(u: u16) -> bool {
    0xD800 <= u <= 0xDFFF
}

/// The character that a surrogate pair stands for.
pub open spec fn pair_scalar(high: u16, low: u16) -> int {
    0x10000 + (high - 0xD800) * 0x400 + (low - 0xDC00)
}

/// The replacement character, U+FFFD.
pub open spec fn replacement_char() -> char {
    '\u{FFFD}'
}

/// The characters of the UTF-16 units `u`: a surrogate pair gives the
/// character it stands for, a surrogate outside a pair gives U+FFFD, any
/// other unit the character of that value.
pub open spec fn utf16_decode_lossy(u: Seq<u16>) -> Seq<char>
    decreases u.len(),
{
    if u.len() == 0 {
        seq![]
    } else if u.len() >= 2 && is_high_surrogate(u[0]) && is_low_surrogate(u[1]) {
        seq![pair_scalar(u[0], u[1]) as char] + utf16_decode_lossy(u.skip(2))
    } else if is_surrogate(u[0]) {
        seq![replacement_char()] + utf16_decode_lossy(u.skip(1))
    } else {
        seq![u[0] as char] + utf16_decode_lossy(u.skip(1))
    }
}

pub proof fn lemma_encode_concat(a: Seq<char>, b: Seq<char>)
    ensures
        utf16_encode(a + b) == utf16_encode(a) + utf16_encode(b),
    decreases a.len(),
{
    if a.len() == 0 {
        assert(a + b =~= b);
    } else {
        lemma_encode_concat(a.skip(1), b);
        assert((a + b).skip(1) =~= a.skip(1) + b);
        assert((a + b)[0] == a[0]);
        assert(utf16_encode(a + b) =~= char_units(a[0]) + utf16_encode(a.skip(1) + b));
        assert(char_units(a[0]) + (utf16_encode(a.skip(1)) + utf16_encode(b))
            =~= (char_units(a[0]) + utf16_encode(a.skip(1))) + utf16_encode(b));
    }
}

proof fn lemma_encode_push(a: Seq<char>, c: char)
    ensures
        utf16_encode(a.push(c)) == utf16_encode(a) + char_units(c),
{
    lemma_encode_concat(a, seq![c]);
    assert(a + seq![c] =~= a.push(c));
    assert(seq![c].skip(1) =~= Seq::<char>::empty());
    assert(utf16_encode(seq![c]) =~= char_units(c) + utf16_encode(Seq::<char>::empty()));
    assert(char_units(c) + Seq::<u16>::empty() =~= char_units(c));
}

fn char_to_units(c: char, out: &mut Vec<u16>)
    ensures
        final(out)@ == old(out)@ + char_units(c),
{
    let v: u32 = c as u32;
    if v < 0x10000 {
        out.push(v as u16);
        assert(final(out)@ =~= old(out)@ + char_units(c));
    } else {
        let w: u32 = v - 0x10000;
        assert(w <= 0xFFFFF);
        assert(w / 0x400 <= 0x3FF) by (nonlinear_arith)
            requires
                w <= 0xFFFFF,
        ;
        let hi: u16 = (0xD800 + w / 0x400) as u16;
        let lo: u16 = (0xDC00 + w % 0x400) as u16;
        out.push(hi);
        out.push(lo);
        assert(final(out)@ =~= old(out)@ + char_units(c));
    }
}

/// Appends the UTF-16 encoding of `s` to `out`.
pub fn append_utf16(s: &str, out: &mut Vec<u16>)
    ensures
        final(out)@ == old(out)@ + utf16_encode(s@),
{
    let cs = chars_of(s);
    let ghost start = out@;
    let mut i: usize = 0;
    while i < cs.len()
        invariant
            i <= cs@.len(),
            cs@ == s@,
            out@ == start + utf16_encode(cs@.take(i as int)),
        decreases cs@.len() - i,
    {
        proof {
            assert(cs@.take(i + 1) =~= cs@.take(i as int).push(cs@[i as int]));
            lemma_encode_push(cs@.take(i as int), cs@[i as int]);
        }
        char_to_units(cs[i], out);
        proof {
            assert(out@ =~= start + utf16_encode(cs@.take(i + 1)));
        }
        i = i + 1;
    }
    assert(cs@.take(cs@.len() as int) =~= s@);
}

/// The UTF-16 encoding of `s` followed by a zero unit.
pub fn utf16_with_nul(s: &str) -> (r: Vec<u16>)
    ensures
        r@ == utf16_encode(s@).push(0),
{
    let mut r: Vec<u16> = Vec::new();
    append_utf16(s, &mut r);
    r.push(0);
    assert(r@ =~= utf16_encode(s@).push(0));
    r
}

/// `char::from_u32` of std: the character of value `v`, where `v` is one.
#[verifier::external_body]
fn char_from_u32(v: u32) -> (r: Option<char>)
    ensures
        r == (if v <= 0x10FFFF && !(0xD800 <= v <= 0xDFFF) { Some(v as char) } else { None }),
{
    char::from_u32(v)
}

/// The characters of the UTF-16 units `units`, each unpaired surrogate
/// replaced by U+FFFD.
pub fn utf16_to_string_lossy(units: &[u16]) -> (r: String)
    ensures
        r@ == utf16_decode_lossy(units@),
{
    let n = units.len();
    let mut r = String::new();
    let mut i: usize = 0;
    assert(units@.skip(0) =~= units@);
    assert(r@ + utf16_decode_lossy(units@) =~= utf16_decode_lossy(units@));
    while i < n
        invariant
            i <= n == units@.len(),
            utf16_decode_lossy(units@) == r@ + utf16_decode_lossy(units@.skip(i as int)),
        decreases n - i,
    {
        let ghost rest = units@.skip(i as int);
        let u = units[i];
        if i + 1 < n && 0xD800 <= u && u <= 0xDBFF && 0xDC00 <= units[i + 1] && units[i + 1] <= 0xDFFF {
            let l = units[i + 1];
            let v: u32 = 0x10000 + (u as u32 - 0xD800) * 0x400 + (l as u32 - 0xDC00);
            assert(v == pair_scalar(u, l));
            assert(v <= 0x10FFFF);
            match char_from_u32(v) {
                Some(c) => {
                    assert(c == pair_scalar(u, l) as char);
                    push_char(&mut r, c);
                },
                None => {
                    assert(false);
                },
            }
            assert(rest.skip(2) =~= units@.skip(i + 2));
            assert(rest[0] == u && rest[1] == l);
            i = i + 2;
        } else {
            if 0xD800 <= u && u <= 0xDFFF {
                push_char(&mut r, '\u{FFFD}');
            } else {
                match char_from_u32(u as u32) {
                    Some(c) => {
                        assert(c == u as char);
                        push_char(&mut r, c);
                    },
                    None => {
                        assert(false);
                    },
                }
            }
            assert(rest.skip(1) =~= units@.skip(i + 1));
            assert(rest[0] == u);
            assert(rest.len() >= 2 ==> rest[1] == units@[i + 1]);
            i = i + 1;
        }
    }
    assert(units@.skip(n as int) =~= Seq::<u16>::empty());
    r
}

proof fn lemma_decode_char_units(c: char, rest: Seq<u16>)
    ensures
        utf16_decode_lossy(char_units(c) + rest) == seq![c] + utf16_decode_lossy(rest),
{
    let v = c as int;
    let u = char_units(c) + rest;
    if v < 0x10000 {
        let x = v as u16;
        assert(x as int == v);
        assert(u[0] == x);
        assert(!is_surrogate(x));
        assert(u.skip(1) =~= rest);
        assert(x as char == c);
    } else {
        let w = v - 0x10000;
        assert(0 <= w <= 0xFFFFF);
        assert(w / 0x400 <= 0x3FF && w % 0x400 <= 0x3FF && w == (w / 0x400) * 0x400 + w % 0x400) by (nonlinear_arith)
            requires
                0 <= w <= 0xFFFFF,
        ;
        let hi = (0xD800 + w / 0x400) as u16;
        let lo = (0xDC00 + w % 0x400) as u16;
        assert(hi as int == 0xD800 + w / 0x400);
        assert(lo as int == 0xDC00 + w % 0x400);
        assert(u[0] == hi && u[1] == lo);
        assert(is_high_surrogate(hi) && is_low_surrogate(lo));
        assert(pair_scalar(hi, lo) == v);
        assert(u.skip(2) =~= rest);
        assert(pair_scalar(hi, lo) as char == c);
    }
}

/// Decoding the UTF-16 encoding of any text gives the text back.
pub proof fn lemma_utf16_roundtrip(s: Seq<char>)
    ensures
        utf16_decode_lossy(utf16_encode(s)) == s,
    decreases s.len(),
{
    if s.len() > 0 {
        lemma_utf16_roundtrip(s.skip(1));
        lemma_decode_char_units(s[0], utf16_encode(s.skip(1)));
        assert(seq![s[0]] + s.skip(1) =~= s);
    }
}

} // verus!
