//! UTF-8 validation and decoding over byte slices, stated against vstd's
//! model of UTF-8 (`valid_utf8`, `decode_utf8`).
use vstd::prelude::*;
use vstd::utf8::*;
use vstd::string::*;
use vstd::slice::*;

verus! {

/// The bytes of `b` from index `i` on.
pub open spec fn tail(b: Seq<u8>, i: int) -> Seq<u8> {
    b.subrange(i, b.len() as int)
}

/// Width of the well-formed scalar that starts at `b[i]`, or 0 when none does.
pub fn scalar_width_at(b: &[u8], i: usize) -> (r: usize)
    requires
        i < b@.len(),
    ensures
        valid_first_scalar(tail(b@, i as int)) ==> r == length_of_first_scalar(tail(b@, i as int)),
        !valid_first_scalar(tail(b@, i as int)) ==> r == 0,
{
    let ghost t = tail(b@, i as int);
    let n = b.len();
    let b0 = b[i];
    if b0 <= 0x7f {
        return 1;
    }
    if b0 < 0xc0 || b0 > 0xf7 {
        return 0;
    }
    if n - i < 2 {
        return 0;
    }
    let b1 = b[i + 1];
    if b1 < 0x80 || b1 > 0xbf {
        return 0;
    }
    if b0 <= 0xdf {
        let cp: u32 = (((b0 & 0x1f) as u32) << 6u32) | ((b1 & 0x3f) as u32);
        assert(cp == decode_first_codepoint(t));
        assert((((b0 & 0x1f) as u32) << 6u32) | ((b1 & 0x3f) as u32) < 0x800u32) by (bit_vector);
        return if cp >= 0x80 { 2 } else { 0 };
    }
    if n - i < 3 {
        return 0;
    }
    let b2 = b[i + 2];
    if b2 < 0x80 || b2 > 0xbf {
        return 0;
    }
    if b0 <= 0xef {
        let cp: u32 = (((b0 & 0x0f) as u32) << 12u32) | (((b1 & 0x3f) as u32) << 6u32) | ((b2
            & 0x3f) as u32);
        assert(cp == decode_first_codepoint(t));
        return if cp >= 0x800 && !(0xd800 <= cp && cp <= 0xdfff) { 3 } else { 0 };
    }
    if n - i < 4 {
        return 0;
    }
    let b3 = b[i + 3];
    if b3 < 0x80 || b3 > 0xbf {
        return 0;
    }
    let cp: u32 = (((b0 & 0x07) as u32) << 18u32) | (((b1 & 0x3f) as u32) << 12u32) | (((b2
        & 0x3f) as u32) << 6u32) | ((b3 & 0x3f) as u32);
    assert(cp == decode_first_codepoint(t));
    if 0x10000 <= cp && cp <= 0x10ffff && !(0xd800 <= cp && cp <= 0xdfff) {
        4
    } else {
        0
    }
}


/// Whether `b0` leads a well-formed sequence and, if so, how many bytes that
/// sequence has; 0 for a byte that can never lead one.
pub open spec fn sequence_width(b0: u8) -> int {
    if b0 <= 0x7f {
        1
    } else if 0xc2 <= b0 <= 0xdf {
        2
    } else if 0xe0 <= b0 <= 0xef {
        3
    } else if 0xf0 <= b0 <= 0xf4 {
        4
    } else {
        0
    }
}

/// Whether `b1` may follow the leading byte `b0` in a well-formed sequence
/// (the ranges that rule out overlong forms, surrogates and values past U+10FFFF).
pub open spec fn second_byte_ok(b0: u8, b1: u8) -> bool {
    if b0 == 0xe0 {
        0xa0 <= b1 <= 0xbf
    } else if b0 == 0xed {
        0x80 <= b1 <= 0x9f
    } else if b0 == 0xf0 {
        0x90 <= b1 <= 0xbf
    } else if b0 == 0xf4 {
        0x80 <= b1 <= 0x8f
    } else {
        is_continuation_byte(b1)
    }
}

/// Length of the ill-formed unit at the start of `b`: the longest prefix that
/// could still begin a well-formed sequence, and at least one byte.
pub open spec fn invalid_unit_len(b: Seq<u8>) -> int
    recommends
        b.len() > 0,
{
    if sequence_width(b[0]) >= 2 && b.len() >= 2 && second_byte_ok(b[0], b[1]) {
        if sequence_width(b[0]) >= 3 && b.len() >= 3 && is_continuation_byte(b[2]) {
            3
        } else {
            2
        }
    } else {
        1
    }
}

/// Length of the longest prefix of `b` made of well-formed scalars.
pub open spec fn valid_prefix_len(b: Seq<u8>) -> int
    decreases b.len(),
{
    if b.len() > 0 && valid_first_scalar(b) && length_of_first_scalar(b) <= b.len() {
        length_of_first_scalar(b) + valid_prefix_len(pop_first_scalar(b))
    } else {
        0
    }
}

/// The replacement character U+FFFD.
pub open spec fn replacement_char() -> char {
    '\u{FFFD}'
}

/// Lossy decoding: each well-formed scalar becomes its character and each
/// ill-formed unit (see `invalid_unit_len`) becomes one replacement character.
pub open spec fn decode_lossy(b: Seq<u8>) -> Seq<char>
    decreases b.len(),
{
    if b.len() == 0 {
        seq![]
    } else if valid_first_scalar(b) && length_of_first_scalar(b) <= b.len() {
        seq![decode_first_scalar(b) as char] + decode_lossy(pop_first_scalar(b))
    } else {
        seq![replacement_char()] + decode_lossy(b.subrange(invalid_unit_len(b), b.len() as int))
    }
}

/// Lossy decoding keeps well-formed input unchanged.
pub proof fn lemma_lossy_of_valid(b: Seq<u8>)
    requires
        valid_utf8(b),
    ensures
        decode_lossy(b) == decode_utf8(b),
    decreases b.len(),
{
    if b.len() > 0 {
        lemma_lossy_of_valid(pop_first_scalar(b));
    }
}

/// A well-formed prefix `good` decodes, losslessly, to the same characters
/// in front of whatever lossy decoding makes of the rest.
pub proof fn lemma_lossy_keeps_valid_prefix(good: Seq<u8>, rest: Seq<u8>)
    requires
        valid_utf8(good),
    ensures
        decode_lossy(good + rest) == decode_utf8(good) + decode_lossy(rest),
    decreases good.len(),
{
    if good.len() == 0 {
        assert(good + rest =~= rest);
    } else {
        let g = pop_first_scalar(good);
        assert(valid_first_scalar(good + rest));
        assert(pop_first_scalar(good + rest) =~= g + rest);
        lemma_lossy_keeps_valid_prefix(g, rest);
        assert(decode_lossy(good + rest) =~= seq![decode_first_scalar(good) as char] + (decode_utf8(g) + decode_lossy(rest)));
    }
}

/// Decode-failure precision: when a well-formed prefix `good` is followed by
/// an ill-formed unit, validation stops exactly at offset `good.len()`, and
/// lossy decoding keeps `good`'s characters and puts one replacement
/// character for that unit.
pub proof fn lemma_first_error_offset(good: Seq<u8>, rest: Seq<u8>)
    requires
        valid_utf8(good),
        rest.len() > 0,
        !valid_first_scalar(rest),
    ensures
        !valid_utf8(good + rest),
        valid_prefix_len(good + rest) == good.len(),
        tail(good + rest, good.len() as int) == rest,
        decode_lossy(good + rest) == decode_utf8(good) + seq![replacement_char()] + decode_lossy(
            rest.subrange(invalid_unit_len(rest), rest.len() as int),
        ),
    decreases good.len(),
{
    assert(tail(good + rest, good.len() as int) =~= rest);
    lemma_lossy_keeps_valid_prefix(good, rest);
    if good.len() > 0 {
        let g = pop_first_scalar(good);
        assert(valid_first_scalar(good + rest));
        assert(pop_first_scalar(good + rest) =~= g + rest);
        lemma_first_error_offset(g, rest);
    } else {
        assert(good + rest =~= rest);
    }
}

/// Where validation of a byte sequence as UTF-8 stopped: the length of the
/// well-formed prefix, and the length of the ill-formed unit that follows it.
#[derive(Clone, Copy, Debug, PartialEq, Eq)]
pub struct Utf8Error {
    pub valid_up_to: usize,
    pub error_len: usize,
}

/// Length of the ill-formed unit that starts at `b[i]`.
pub fn invalid_unit_len_at(b: &[u8], i: usize) -> (r: usize)
    requires
        i < b@.len(),
    ensures
        r == invalid_unit_len(tail(b@, i as int)),
        1 <= r <= 3,
        i + r <= b@.len(),
{
    let ghost t = tail(b@, i as int);
    let n = b.len();
    let b0 = b[i];
    let width: usize = if b0 <= 0x7f {
        1
    } else if 0xc2 <= b0 && b0 <= 0xdf {
        2
    } else if 0xe0 <= b0 && b0 <= 0xef {
        3
    } else if 0xf0 <= b0 && b0 <= 0xf4 {
        4
    } else {
        0
    };
    assert(width == sequence_width(t[0]));
    if width < 2 || n - i < 2 {
        return 1;
    }
    let b1 = b[i + 1];
    let ok = if b0 == 0xe0 {
        0xa0 <= b1 && b1 <= 0xbf
    } else if b0 == 0xed {
        0x80 <= b1 && b1 <= 0x9f
    } else if b0 == 0xf0 {
        0x90 <= b1 && b1 <= 0xbf
    } else if b0 == 0xf4 {
        0x80 <= b1 && b1 <= 0x8f
    } else {
        0x80 <= b1 && b1 <= 0xbf
    };
    assert(ok == second_byte_ok(t[0], t[1]));
    if !ok {
        return 1;
    }
    if width < 3 || n - i < 3 {
        return 2;
    }
    let b2 = b[i + 2];
    if 0x80 <= b2 && b2 <= 0xbf {
        3
    } else {
        2
    }
}

/// Checks that `b` is well-formed UTF-8; on failure reports where the
/// well-formed prefix ends and how long the ill-formed unit after it is.
pub fn check_utf8(b: &[u8]) -> (r: Result<(), Utf8Error>)
    ensures
        r is Ok <==> valid_utf8(b@),
        r matches Err(e) ==> {
            &&& e.valid_up_to == valid_prefix_len(b@)
            &&& e.valid_up_to < b@.len()
            &&& e.error_len == invalid_unit_len(tail(b@, e.valid_up_to as int))
            &&& 1 <= e.error_len <= 3
            &&& e.valid_up_to + e.error_len <= b@.len()
        },
{
    let n = b.len();
    let mut i: usize = 0;
    assert(tail(b@, 0) =~= b@);
    while i < n
        invariant
            n == b@.len(),
            i <= n,
            valid_prefix_len(b@) == i + valid_prefix_len(tail(b@, i as int)),
            valid_utf8(b@) <==> valid_utf8(tail(b@, i as int)),
        decreases n - i,
    {
        let w = scalar_width_at(b, i);
        if w == 0 {
            let e = invalid_unit_len_at(b, i);
            return Err(Utf8Error { valid_up_to: i, error_len: e });
        }
        assert(tail(b@, (i + w) as int) =~= pop_first_scalar(tail(b@, i as int)));
        i = i + w;
    }
    assert(tail(b@, i as int).len() == 0);
    Ok(())
}

/// `b` starts with the three-byte form of a surrogate code point
/// (U+D800..U+DFFF), which well-formed UTF-8 excludes.
pub open spec fn surrogate_unit(b: Seq<u8>) -> bool {
    &&& b.len() >= 3
    &&& b[0] == 0xed
    &&& 0xa0 <= b[1] <= 0xbf
    &&& is_continuation_byte(b[2])
}

/// Length of the longest prefix of `b` made of well-formed scalars and
/// encoded surrogates.
pub open spec fn surrogate_prefix_len(b: Seq<u8>) -> int
    decreases b.len(),
{
    if b.len() > 0 && valid_first_scalar(b) && length_of_first_scalar(b) <= b.len() {
        length_of_first_scalar(b) + surrogate_prefix_len(pop_first_scalar(b))
    } else if surrogate_unit(b) {
        3 + surrogate_prefix_len(b.subrange(3, b.len() as int))
    } else {
        0
    }
}

/// Like `check_utf8`, but lets encoded surrogates through.
pub fn check_utf8_with_surrogates(b: &[u8]) -> (r: Result<(), Utf8Error>)
    ensures
        r is Ok <==> surrogate_prefix_len(b@) == b@.len(),
        r matches Err(e) ==> {
            &&& e.valid_up_to == surrogate_prefix_len(b@)
            &&& e.valid_up_to < b@.len()
            &&& e.error_len == invalid_unit_len(tail(b@, e.valid_up_to as int))
            &&& 1 <= e.error_len <= 3
            &&& e.valid_up_to + e.error_len <= b@.len()
        },
{
    let n = b.len();
    let mut i: usize = 0;
    assert(tail(b@, 0) =~= b@);
    while i < n
        invariant
            n == b@.len(),
            i <= n,
            surrogate_prefix_len(b@) == i + surrogate_prefix_len(tail(b@, i as int)),
        decreases n - i,
    {
        let ghost t = tail(b@, i as int);
        let w = scalar_width_at(b, i);
        if w > 0 {
            assert(tail(b@, (i + w) as int) =~= pop_first_scalar(t));
            i = i + w;
        } else if n - i >= 3 && b[i] == 0xed && 0xa0 <= b[i + 1] && b[i + 1] <= 0xbf && 0x80 <= b[i
            + 2] && b[i + 2] <= 0xbf {
            assert(tail(b@, (i + 3) as int) =~= t.subrange(3, t.len() as int));
            i = i + 3;
        } else {
            let e = invalid_unit_len_at(b, i);
            return Err(Utf8Error { valid_up_to: i, error_len: e });
        }
    }
    Ok(())
}

/// Whether two byte sequences are equal.
pub fn bytes_eq(a: &[u8], b: &[u8]) -> (r: bool)
    ensures
        r == (a@ == b@),
{
    if a.len() != b.len() {
        return false;
    }
    let mut i: usize = 0;
    while i < a.len()
        invariant
            a@.len() == b@.len(),
            i <= a@.len(),
            a@.subrange(0, i as int) == b@.subrange(0, i as int),
        decreases a@.len() - i,
    {
        if a[i] != b[i] {
            return false;
        }
        assert(a@.subrange(0, i + 1) =~= a@.subrange(0, i as int).push(a@[i as int]));
        assert(b@.subrange(0, i + 1) =~= b@.subrange(0, i as int).push(b@[i as int]));
        i = i + 1;
    }
    assert(a@ =~= a@.subrange(0, i as int));
    assert(b@ =~= b@.subrange(0, i as int));
    true
}

/// Whether two strings hold the same characters, compared by their bytes.
pub fn str_eq(a: &str, b: &str) -> (r: bool)
    ensures
        r == (a@ == b@),
{
    let r = bytes_eq(a.as_bytes(), b.as_bytes());
    proof {
        encode_utf8_decode_utf8(a@);
        encode_utf8_decode_utf8(b@);
    }
    r
}

/// Relies on std::str::from_utf8: it succeeds exactly on well-formed UTF-8,
/// and the string it returns is the given bytes.
#[verifier::external_body]
fn str_from_utf8<'a>(b: &'a [u8]) -> (r: Option<&'a str>)
    ensures
        r is Some <==> valid_utf8(b@),
        r matches Some(s) ==> s.spec_bytes() == b@,
{
    std::str::from_utf8(b).ok()
}

/// Views `b` as text, or reports the first ill-formed unit.
pub fn decode_strict<'a>(b: &'a [u8]) -> (r: Result<&'a str, Utf8Error>)
    ensures
        r is Ok <==> valid_utf8(b@),
        r matches Ok(s) ==> s@ == decode_utf8(b@) && s.spec_bytes() == b@,
        r matches Err(e) ==> {
            &&& e.valid_up_to == valid_prefix_len(b@)
            &&& e.valid_up_to < b@.len()
            &&& e.error_len == invalid_unit_len(tail(b@, e.valid_up_to as int))
            &&& 1 <= e.error_len <= 3
            &&& e.valid_up_to + e.error_len <= b@.len()
        },
{
    match check_utf8(b) {
        Ok(()) => {
            match str_from_utf8(b) {
                Some(s) => {
                    proof {
                        encode_utf8_decode_utf8(s@);
                    }
                    Ok(s)
                },
                // Cannot happen: `check_utf8` has accepted `b`.
                None => Err(Utf8Error { valid_up_to: 0, error_len: 0 }),
            }
        },
        Err(e) => Err(e),
    }
}

/// Decodes `b`, putting one replacement character in place of each
/// ill-formed unit.
pub fn decode_lossy_bytes(b: &[u8]) -> (r: String)
    ensures
        r@ == decode_lossy(b@),
{
    let n = b.len();
    let mut out = String::new();
    let mut i: usize = 0;
    assert(tail(b@, 0) =~= b@);
    while i < n
        invariant
            n == b@.len(),
            i <= n,
            out@ + decode_lossy(tail(b@, i as int)) == decode_lossy(b@),
        decreases n - i,
    {
        let ghost t = tail(b@, i as int);
        let w = scalar_width_at(b, i);
        if w == 0 {
            let e = invalid_unit_len_at(b, i);
            proof {
                reveal_strlit("\u{FFFD}");
            }
            out.append("\u{FFFD}");
            assert(tail(b@, (i + e) as int) =~= t.subrange(invalid_unit_len(t), t.len() as int));
            i = i + e;
        } else {
            let unit = slice_subrange(b, i, i + w);
            assert(pop_first_scalar(unit@).len() == 0);
            assert(valid_utf8(unit@)) by {
                reveal_with_fuel(valid_utf8, 2);
            }
            match str_from_utf8(unit) {
                Some(s) => {
                    proof {
                        encode_utf8_decode_utf8(s@);
                        reveal_with_fuel(decode_utf8, 2);
                    }
                    out.append(s);
                },
                // Cannot happen: `unit` is one well-formed scalar.
                None => {},
            }
            assert(tail(b@, (i + w) as int) =~= pop_first_scalar(t));
            i = i + w;
        }
    }
    assert(tail(b@, i as int) =~= Seq::<u8>::empty());
    assert(out@ + Seq::<char>::empty() =~= out@);
    out
}

} // verus!
