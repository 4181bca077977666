//! UTF-16 as the Windows APIs use it: encoding a password into the
//! little-endian credential blob, and decoding wide strings returned by the
//! system (unpaired surrogates become U+FFFD).

use vstd::prelude::*;
use crate::text::push_char;

verus! {

/// Calls `char::from_u32`: `Some` exactly for the Unicode scalar values,
/// holding the character with that code.
#[verifier::external_body]
pub(crate) fn char_from_u32(v: u32) -> (r: Option<char>)
    ensures
        (v <= 0xD7FF || (0xE000 <= v && v <= 0x10FFFF)) <==> r is Some,
        r matches Some(c) ==> c as u32 == v,
{
    char::from_u32(v)
}

/// A character is recovered from its code, which is a scalar value.
pub proof fn lemma_char_code(c: char)
    ensures
        (c as u32) as char == c,
        c as u32 <= 0x10FFFF,
        !(0xD800 <= c as u32 && c as u32 <= 0xDFFF),
{
}

/// A leading surrogate.
pub open spec fn is_high_surrogate(u: u16) -> bool {
    0xD800 <= u && u <= 0xDBFF
}

/// A trailing surrogate.
pub open spec fn is_low_surrogate(u: u16) -> bool {
    0xDC00 <= u && u <= 0xDFFF
}

/// The UTF-16 code units of one character.
pub open spec fn code_units_of(c: char) -> Seq<u16> {
    let v = c as u32;
    if v < 0x10000 {
        seq![v as u16]
    } else {
        let w = v - 0x10000;
        seq![(0xD800 + w / 0x400) as u16, (0xDC00 + w % 0x400) as u16]
    }
}

/// The UTF-16 encoding of a string, as `str::encode_utf16` yields it.
pub open spec fn utf16_units(s: Seq<char>) -> Seq<u16>
    decreases s.len(),
{
    if s.len() == 0 {
        Seq::empty()
    } else {
        code_units_of(s[0]) + utf16_units(s.drop_first())
    }
}

/// Each code unit as two bytes, low byte first.
pub open spec fn le_bytes(u: Seq<u16>) -> Seq<u8>
    decreases u.len(),
{
    if u.len() == 0 {
        Seq::empty()
    } else {
        seq![(u[0] % 256) as u8, (u[0] / 256) as u8] + le_bytes(u.drop_first())
    }
}

/// The character that a surrogate pair stands for.
pub open spec fn pair_code(high: u16, low: u16) -> u32 {
    (0x10000 + (high - 0xD800) * 0x400 + (low - 0xDC00)) as u32
}

/// Lossy UTF-16 decoding, as `String::from_utf16_lossy` performs it: a
/// well-formed surrogate pair gives one character, any other surrogate U+FFFD.
pub open spec fn decode_utf16_lossy(u: Seq<u16>) -> Seq<char>
    decreases u.len(),
{
    if u.len() == 0 {
        Seq::empty()
    } else if !is_high_surrogate(u[0]) && !is_low_surrogate(u[0]) {
        seq![(u[0] as u32) as char] + decode_utf16_lossy(u.drop_first())
    } else if is_high_surrogate(u[0]) && u.len() >= 2 && is_low_surrogate(u[1]) {
        seq![pair_code(u[0], u[1]) as char] + decode_utf16_lossy(u.skip(2))
    } else {
        seq!['\u{FFFD}'] + decode_utf16_lossy(u.drop_first())
    }
}

/// The units before the first NUL; all of them when there is none.
pub open spec fn until_nul(u: Seq<u16>) -> Seq<u16>
    decreases u.len(),
{
    if u.len() == 0 {
        u
    } else if u[0] == 0 {
        Seq::empty()
    } else {
        seq![u[0]] + until_nul(u.drop_first())
    }
}

/// Encoding distributes over concatenation.
pub proof fn lemma_utf16_units_concat(a: Seq<char>, b: Seq<char>)
    ensures
        utf16_units(a + b) == utf16_units(a) + utf16_units(b),
    decreases a.len(),
{
    if a.len() == 0 {
        assert(a + b =~= b);
        assert(utf16_units(a) + utf16_units(b) =~= utf16_units(b));
    } else {
        assert((a + b).drop_first() =~= a.drop_first() + b);
        lemma_utf16_units_concat(a.drop_first(), b);
        assert(utf16_units(a + b) =~= utf16_units(a) + utf16_units(b));
    }
}

/// Byte serialisation distributes over concatenation.
pub proof fn lemma_le_bytes_concat(a: Seq<u16>, b: Seq<u16>)
    ensures
        le_bytes(a + b) == le_bytes(a) + le_bytes(b),
    decreases a.len(),
{
    if a.len() == 0 {
        assert(a + b =~= b);
        assert(le_bytes(a) + le_bytes(b) =~= le_bytes(b));
    } else {
        assert((a + b).drop_first() =~= a.drop_first() + b);
        lemma_le_bytes_concat(a.drop_first(), b);
        assert(le_bytes(a + b) =~= le_bytes(a) + le_bytes(b));
    }
}

/// The encoding of a one-character string.
proof fn lemma_utf16_units_single(c: char)
    ensures
        utf16_units(seq![c]) == code_units_of(c),
{
    let s = seq![c];
    assert(s.drop_first() =~= Seq::<char>::empty());
    assert(utf16_units(s.drop_first()) == Seq::<u16>::empty());
    assert(s[0] == c);
    assert(utf16_units(s) == code_units_of(c) + utf16_units(s.drop_first()));
    assert(code_units_of(c) + Seq::<u16>::empty() =~= code_units_of(c));
}

/// The bytes of a one-unit sequence.
proof fn lemma_le_bytes_single(u: u16)
    ensures
        le_bytes(seq![u]) == seq![(u % 256) as u8, (u / 256) as u8],
{
    let s = seq![u];
    assert(s.drop_first() =~= Seq::<u16>::empty());
    assert(le_bytes(s.drop_first()) == Seq::<u8>::empty());
    assert(s[0] == u);
    assert(le_bytes(s) == seq![(u % 256) as u8, (u / 256) as u8] + le_bytes(s.drop_first()));
    assert(seq![(u % 256) as u8, (u / 256) as u8] + Seq::<u8>::empty() =~= seq![
        (u % 256) as u8,
        (u / 256) as u8,
    ]);
}

/// The units of a supplementary character form a surrogate pair that stands for it.
proof fn lemma_pair_roundtrip(c: char)
    requires
        c as u32 >= 0x10000,
    ensures
        is_high_surrogate(code_units_of(c)[0]),
        is_low_surrogate(code_units_of(c)[1]),
        pair_code(code_units_of(c)[0], code_units_of(c)[1]) == c as u32,
{
    let v = c as u32;
    let w = v - 0x10000;
    assert(v <= 0x10FFFF);
    assert(0 <= w < 0x100000);
    assert(w / 0x400 < 0x400) by (nonlinear_arith)
        requires
            0 <= w < 0x100000,
    ;
    assert(w % 0x400 < 0x400) by (nonlinear_arith)
        requires
            0 <= w,
    ;
    assert((w / 0x400) * 0x400 + w % 0x400 == w) by (nonlinear_arith)
        requires
            0 <= w,
    ;
}

/// Law: decoding undoes encoding: a string written as UTF-16 reads back unchanged.
pub proof fn law_utf16_roundtrip(s: Seq<char>)
    ensures
        decode_utf16_lossy(utf16_units(s)) == s,
    decreases s.len(),
{
    if s.len() > 0 {
        let c = s[0];
        let rest = utf16_units(s.drop_first());
        let u = utf16_units(s);
        law_utf16_roundtrip(s.drop_first());
        let v = c as u32;
        assert(u == code_units_of(c) + rest);
        if v < 0x10000 {
            assert(v < 0x10000 ==> (v as u16) as u32 == v) by (bit_vector);
            assert(u[0] == v as u16);
            assert(u.drop_first() =~= rest);
            lemma_char_code(c);
            assert(u[0] as u32 == c as u32);
            assert((u[0] as u32) as char == c);
        } else {
            lemma_pair_roundtrip(c);
            assert(u.skip(2) =~= rest);
            assert(u[0] == code_units_of(c)[0]);
            assert(u[1] == code_units_of(c)[1]);
            lemma_char_code(c);
            assert((pair_code(u[0], u[1])) as char == c);
        }
        assert(decode_utf16_lossy(u) =~= s);
    }
}

/// Appends the two little-endian bytes of a code unit.
fn push_unit(out: &mut Vec<u8>, u: u16)
    ensures
        final(out)@ == old(out)@ + le_bytes(seq![u]),
{
    proof {
        lemma_le_bytes_single(u);
    }
    out.push((u % 256) as u8);
    out.push((u / 256) as u8);
    assert(final(out)@ =~= old(out)@ + seq![(u % 256) as u8, (u / 256) as u8]);
}

/// The credential blob for a password: its UTF-16 code units, each as two
/// bytes in little-endian order.
pub fn credential_blob(password: &str) -> (r: Vec<u8>)
    ensures
        r@ == le_bytes(utf16_units(password@)),
{
    let n = password.unicode_len();
    let mut out: Vec<u8> = Vec::new();
    let mut i: usize = 0;
    assert(password@.take(0) =~= Seq::<char>::empty());
    while i < n
        invariant
            n == password@.len(),
            i <= n,
            out@ == le_bytes(utf16_units(password@.take(i as int))),
        decreases n - i,
    {
        let c = password.get_char(i);
        let v = c as u32;
        let ghost before = out@;
        let ghost units = code_units_of(c);
        if v < 0x10000 {
            push_unit(&mut out, v as u16);
            assert(units =~= seq![v as u16]);
        } else {
            let w = v - 0x10000;
            assert(w / 0x400 < 0x400) by (nonlinear_arith)
                requires
                    w < 0x100000,
            ;
            let hi = (0xD800 + w / 0x400) as u16;
            let lo = (0xDC00 + w % 0x400) as u16;
            push_unit(&mut out, hi);
            push_unit(&mut out, lo);
            assert(units =~= seq![hi] + seq![lo]);
            proof {
                lemma_le_bytes_concat(seq![hi], seq![lo]);
            }
        }
        proof {
            assert(password@.take(i + 1) =~= password@.take(i as int) + seq![c]);
            lemma_utf16_units_concat(password@.take(i as int), seq![c]);
            lemma_utf16_units_single(c);
            lemma_le_bytes_concat(utf16_units(password@.take(i as int)), units);
        }
        i += 1;
    }
    assert(password@.take(n as int) =~= password@);
    out
}

/// Decodes UTF-16 code units into a string, replacing unpaired surrogates by U+FFFD,
/// as `String::from_utf16_lossy` does.
pub fn utf16_to_string_lossy(units: &[u16]) -> (r: String)
    ensures
        r@ == decode_utf16_lossy(units@),
{
    let n = units.len();
    let mut out = String::new();
    let mut i: usize = 0;
    assert(units@.skip(0) =~= units@);
    while i < n
        invariant
            n == units@.len(),
            i <= n,
            out@ + decode_utf16_lossy(units@.skip(i as int)) == decode_utf16_lossy(units@),
        decreases n - i,
    {
        let ghost rest = units@.skip(i as int);
        let u = units[i];
        let v = u as u32;
        assert(rest.len() > 0 && rest[0] == u);
        if !(0xD800 <= v && v <= 0xDFFF) {
            assert(rest.drop_first() =~= units@.skip(i + 1));
            let c = char_from_u32(v).unwrap();
            proof { lemma_char_code(c); }
            assert(c == (u as u32) as char);
            assert(decode_utf16_lossy(rest) == seq![c] + decode_utf16_lossy(rest.drop_first()));
            push_char(&mut out, c);
            assert(out@ + decode_utf16_lossy(units@.skip(i + 1)) =~= decode_utf16_lossy(units@));
            i += 1;
        } else if v <= 0xDBFF && i + 1 < n && 0xDC00 <= units[i + 1] as u32 && units[i + 1] as u32
            <= 0xDFFF {
            let low = units[i + 1] as u32;
            let code = 0x10000 + (v - 0xD800) * 0x400 + (low - 0xDC00);
            assert(rest.skip(2) =~= units@.skip(i + 2));
            assert(rest[1] == units@[i + 1]);
            assert(code == pair_code(u, units@[i + 1]));
            assert(0x10000 <= code <= 0x10FFFF);
            let c = char_from_u32(code).unwrap();
            proof { lemma_char_code(c); }
            assert(c == pair_code(u, units@[i + 1]) as char);
            assert(decode_utf16_lossy(rest) == seq![c] + decode_utf16_lossy(rest.skip(2)));
            push_char(&mut out, c);
            assert(out@ + decode_utf16_lossy(units@.skip(i + 2)) =~= decode_utf16_lossy(units@));
            i += 2;
        } else {
            assert(rest.drop_first() =~= units@.skip(i + 1));
            assert(decode_utf16_lossy(rest) == seq!['\u{FFFD}'] + decode_utf16_lossy(
                rest.drop_first(),
            ));
            push_char(&mut out, '\u{FFFD}');
            assert(out@ + decode_utf16_lossy(units@.skip(i + 1)) =~= decode_utf16_lossy(units@));
            i += 1;
        }
    }
    assert(decode_utf16_lossy(units@.skip(n as int)) =~= Seq::<char>::empty());
    assert(out@ + Seq::<char>::empty() =~= out@);
    out
}

/// The string held in a NUL-terminated wide-character buffer: the units
/// before the first NUL (all of them when there is none), decoded lossily.
pub fn wide_buffer_to_string(buf: &[u16]) -> (r: String)
    ensures
        r@ == decode_utf16_lossy(until_nul(buf@)),
{
    let n = buf.len();
    let mut k: usize = 0;
    while k < n && buf[k] != 0
        invariant
            n == buf@.len(),
            k <= n,
            forall|j: int| 0 <= j < k ==> buf@[j] != 0,
        decreases n - k,
    {
        k += 1;
    }
    proof {
        lemma_until_nul_prefix(buf@, k as int);
    }
    let mut prefix: Vec<u16> = Vec::new();
    let mut i: usize = 0;
    while i < k
        invariant
            k <= n,
            n == buf@.len(),
            i <= k,
            prefix@ == buf@.take(i as int),
        decreases k - i,
    {
        prefix.push(buf[i]);
        i += 1;
        assert(prefix@ =~= buf@.take(i as int));
    }
    utf16_to_string_lossy(prefix.as_slice())
}

/// `until_nul` is the prefix that ends at the first NUL.
pub proof fn lemma_until_nul_prefix(u: Seq<u16>, k: int)
    requires
        0 <= k <= u.len(),
        forall|j: int| 0 <= j < k ==> u[j] != 0,
        k < u.len() ==> u[k] == 0,
    ensures
        until_nul(u) == u.take(k),
    decreases u.len(),
{
    if u.len() == 0 {
        assert(u.take(k) =~= u);
    } else if u[0] == 0 {
        assert(u.take(k) =~= Seq::<u16>::empty());
    } else {
        lemma_until_nul_prefix(u.drop_first(), k - 1);
        assert(u.take(k) =~= seq![u[0]] + u.drop_first().take(k - 1));
    }
}

} // verus!
