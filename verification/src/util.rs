//! Byte-level helpers shared by the format parsers: little-endian field
//! readers, UTF-8 validation, and conversions between byte strings and
//! `String`.

use vstd::prelude::*;
use vstd::utf8::*;
use vstd::string::StringSliceAdditionalSpecFns;

verus! {

/// Little-endian 16-bit value stored at `off` in `s`.
pub open spec fn le16_at(s: Seq<u8>, off: int) -> u16 {
    (s[off] as u16 + s[off + 1] as u16 * 0x100) as u16
}

/// Little-endian 32-bit value stored at `off` in `s`.
pub open spec fn le32_at(s: Seq<u8>, off: int) -> u32 {
    (s[off] as u32 + s[off + 1] as u32 * 0x100 + s[off + 2] as u32 * 0x1_0000 + s[off + 3] as u32
        * 0x100_0000) as u32
}

/// Little-endian 64-bit value stored at `off` in `s`.
pub open spec fn le64_at(s: Seq<u8>, off: int) -> u64 {
    (le32_at(s, off) as u64 + le32_at(s, off + 4) as u64 * 0x1_0000_0000) as u64
}

/// Reads a little-endian 16-bit field.
pub fn read_le16(s: &[u8], off: usize) -> (r: u16)
    requires
        off + 2 <= s@.len(),
    ensures
        r == le16_at(s@, off as int),
{
    let b0 = s[off] as u16;
    let b1 = s[off + 1] as u16;
    b0 + b1 * 0x100
}

/// Reads a little-endian 32-bit field.
pub fn read_le32(s: &[u8], off: usize) -> (r: u32)
    requires
        off + 4 <= s@.len(),
    ensures
        r == le32_at(s@, off as int),
{
    let b0 = s[off] as u32;
    let b1 = s[off + 1] as u32;
    let b2 = s[off + 2] as u32;
    let b3 = s[off + 3] as u32;
    b0 + b1 * 0x100 + b2 * 0x1_0000 + b3 * 0x100_0000
}

/// Reads a little-endian 64-bit field.
pub fn read_le64(s: &[u8], off: usize) -> (r: u64)
    requires
        off + 8 <= s@.len(),
    ensures
        r == le64_at(s@, off as int),
{
    let n = s.len();
    let lo = read_le32(s, off) as u64;
    let hi = read_le32(s, off + 4) as u64;
    lo + hi * 0x1_0000_0000
}

/// True when every byte of `s` is an ASCII code.
pub open spec fn all_ascii(s: Seq<u8>) -> bool {
    forall|i: int| 0 <= i < s.len() ==> s[i] < 0x80
}

/// The characters denoted by a sequence of ASCII bytes.
pub open spec fn ascii_chars_of(bytes: Seq<u8>) -> Seq<char> {
    Seq::new(bytes.len(), |i: int| bytes[i] as char)
}

/// An all-ASCII byte sequence is valid UTF-8 and decodes to the bytes read as
/// characters.
pub proof fn lemma_ascii_decode(bytes: Seq<u8>)
    requires
        all_ascii(bytes),
    ensures
        valid_utf8(bytes),
        decode_utf8(bytes) =~= ascii_chars_of(bytes),
    decreases bytes.len(),
{
    if bytes.len() != 0 {
        let b = bytes[0];
        assert(is_leading_byte_width_1(b));
        assert(leading_bits_width_1(b) == b as u32) by (bit_vector)
            requires
                b < 0x80,
        ;
        assert(valid_first_scalar(bytes));
        assert(length_of_first_scalar(bytes) == 1);
        let rest = pop_first_scalar(bytes);
        assert(all_ascii(rest));
        lemma_ascii_decode(rest);
        assert(decode_first_scalar(bytes) == b as u32);
        assert(b as u32 as char == b as char);
    }
}

/// Compares two byte slices for equality.
pub fn bytes_eq(a: &[u8], b: &[u8]) -> (r: bool)
    ensures
        r == (a@ == b@),
{
    if a.len() != b.len() {
        proof {
            assert(a@ != b@);
        }
        return false;
    }
    let n = a.len();
    let mut i: usize = 0;
    while i < n
        invariant
            i <= n,
            n == a@.len() == b@.len(),
            forall|k: int| 0 <= k < i ==> a@[k] == b@[k],
        decreases n - i,
    {
        if a[i] != b[i] {
            return false;
        }
        i = i + 1;
    }
    proof {
        assert(a@ =~= b@);
    }
    true
}

/// Compares two strings for equality of their text.
pub fn str_eq(a: &str, b: &str) -> (r: bool)
    ensures
        r == (a@ == b@),
{
    let r = bytes_eq(a.as_bytes(), b.as_bytes());
    proof {
        if a.spec_bytes() == b.spec_bytes() {
            encode_utf8_decode_utf8(a@);
            encode_utf8_decode_utf8(b@);
            assert(a@ == b@);
        }
    }
    r
}

/// Relies on `String::from_utf8`: succeeds exactly on valid UTF-8 input and
/// returns the string whose bytes are the input.
#[verifier::external_body]
fn string_from_utf8(bytes: Vec<u8>) -> (r: Option<String>)
    ensures
        match r {
            Some(s) => valid_utf8(bytes@) && encode_utf8(s@) == bytes@,
            None => !valid_utf8(bytes@),
        },
{
    match String::from_utf8(bytes) {
        Ok(s) => Some(s),
        Err(_) => None,
    }
}

/// Builds a `String` from valid UTF-8 bytes.
pub fn utf8_to_string(bytes: Vec<u8>) -> (r: String)
    requires
        valid_utf8(bytes@),
    ensures
        r@ == decode_utf8(bytes@),
        encode_utf8(r@) == bytes@,
{
    let ghost gbytes = bytes@;
    match string_from_utf8(bytes) {
        Some(s) => {
            proof {
                encode_utf8_decode_utf8(s@);
                assert(decode_utf8(gbytes) == s@);
            }
            s
        },
        None => {
            proof {
                assert(false);
            }
            vstd::pervasive::unreached()
        },
    }
}

/// Appending one whole scalar encoding to valid UTF-8 text appends exactly
/// its character to the decoding.
pub proof fn lemma_decode_append_scalar(acc: Seq<u8>, scalar: Seq<u8>)
    requires
        valid_utf8(acc),
        scalar.len() >= 1,
        valid_first_scalar(scalar),
        length_of_first_scalar(scalar) == scalar.len(),
    ensures
        valid_utf8(acc + scalar),
        decode_utf8(acc + scalar) =~= decode_utf8(acc).push(decode_first_scalar(scalar) as char),
{
    reveal_with_fuel(valid_utf8, 3);
    reveal_with_fuel(decode_utf8, 3);
    assert(pop_first_scalar(scalar) =~= Seq::<u8>::empty());
    assert(valid_utf8(Seq::<u8>::empty()));
    assert(valid_utf8(scalar));
    valid_utf8_concat(acc, scalar);
    let whole = acc + scalar;
    assert(is_char_boundary(whole, acc.len() as int)) by {
        if acc.len() < whole.len() {
            is_char_boundary_iff_not_is_continuation_byte(whole, acc.len() as int);
            assert(whole[acc.len() as int] == scalar[0]);
        }
    }
    decode_utf8_split(whole, acc.len() as int);
    assert(whole.subrange(0, acc.len() as int) =~= acc);
    assert(whole.subrange(acc.len() as int, whole.len() as int) =~= scalar);
    assert(decode_utf8(Seq::<u8>::empty()) =~= Seq::<char>::empty());
    assert(decode_utf8(scalar) =~= seq![decode_first_scalar(scalar) as char]);
}

/// Checks whether the bytes at `i` begin a well-formed UTF-8 scalar, and
/// gives its width.
pub fn scalar_check(s: &[u8], i: usize) -> (r: Option<usize>)
    requires
        i < s@.len(),
    ensures
        ({
            let tail = s@.subrange(i as int, s@.len() as int);
            match r {
                Some(l) => valid_first_scalar(tail) && l == length_of_first_scalar(tail) && 1 <= l
                    <= 4 && i + l <= s@.len(),
                None => !valid_first_scalar(tail),
            }
        }),
{
    let n = s.len();
    let ghost tail = s@.subrange(i as int, s@.len() as int);
    proof {
        assert(forall|k: int| 0 <= k < tail.len() ==> tail[k] == s@[i + k]);
    }
    let b = s[i];
    if b < 0x80 {
        return Some(1);
    }
    if 0xC0 <= b && b <= 0xDF {
        if n - i < 2 || !(0x80 <= s[i + 1] && s[i + 1] <= 0xBF) {
            return None;
        }
        let c1 = s[i + 1];
        let cp: u32 = (((b & 0x1f) as u32) << 6u32) | ((c1 & 0x3f) as u32);
        proof {
            assert(cp == codepoint_width_2(tail[0], tail[1]));
            assert(cp <= 0x7FF) by (bit_vector)
                requires
                    cp == (((b & 0x1f) as u32) << 6u32) | ((c1 & 0x3f) as u32),
            ;
        }
        if cp < 0x80 {
            return None;
        }
        return Some(2);
    }
    if 0xE0 <= b && b <= 0xEF {
        if n - i < 3 || !(0x80 <= s[i + 1] && s[i + 1] <= 0xBF) || !(0x80 <= s[i + 2] && s[i + 2]
            <= 0xBF) {
            return None;
        }
        let cp: u32 = (((b & 0x0f) as u32) << 12u32) | (((s[i + 1] & 0x3f) as u32) << 6u32) | ((s[i
            + 2] & 0x3f) as u32);
        proof {
            assert(cp == codepoint_width_3(tail[0], tail[1], tail[2]));
        }
        if cp < 0x800 {
            return None;
        }
        if 0xD800 <= cp && cp <= 0xDFFF {
            return None;
        }
        return Some(3);
    }
    if 0xF0 <= b && b <= 0xF7 {
        if n - i < 4 || !(0x80 <= s[i + 1] && s[i + 1] <= 0xBF) || !(0x80 <= s[i + 2] && s[i + 2]
            <= 0xBF) || !(0x80 <= s[i + 3] && s[i + 3] <= 0xBF) {
            return None;
        }
        let cp: u32 = (((b & 0x07) as u32) << 18u32) | (((s[i + 1] & 0x3f) as u32) << 12u32) | (((
        s[i + 2] & 0x3f) as u32) << 6u32) | ((s[i + 3] & 0x3f) as u32);
        proof {
            assert(cp == codepoint_width_4(tail[0], tail[1], tail[2], tail[3]));
        }
        if !(0x10000 <= cp && cp <= 0x10FFFF) {
            return None;
        }
        return Some(4);
    }
    None
}

/// Checks whether the bytes are valid UTF-8.
pub fn validate_utf8(bytes: &[u8]) -> (r: bool)
    ensures
        r == valid_utf8(bytes@),
{
    let n = bytes.len();
    let mut i: usize = 0;
    proof {
        assert(bytes@.subrange(0, 0) =~= Seq::<u8>::empty());
    }
    while i < n
        invariant
            i <= n,
            n == bytes@.len(),
            partial_valid_utf8(bytes@, i as int),
        decreases n - i,
    {
        match scalar_check(bytes, i) {
            Some(l) => {
                proof {
                    partial_valid_utf8_extend(bytes@, i as int);
                }
                i = i + l;
            },
            None => {
                proof {
                    let tail = bytes@.subrange(i as int, n as int);
                    assert(tail.len() > 0);
                    assert(!valid_utf8(tail));
                    partial_valid_partial_invalid_utf8(bytes@, i as int);
                }
                return false;
            },
        }
    }
    proof {
        assert(bytes@.subrange(0, n as int) =~= bytes@);
    }
    true
}

/// Builds a `String` from ASCII bytes.
pub fn ascii_to_string(bytes: Vec<u8>) -> (r: String)
    requires
        all_ascii(bytes@),
    ensures
        r@ =~= ascii_chars_of(bytes@),
{
    proof {
        lemma_ascii_decode(bytes@);
    }
    let ghost gbytes = bytes@;
    match string_from_utf8(bytes) {
        Some(s) => {
            proof {
                encode_utf8_decode_utf8(s@);
                assert(decode_utf8(gbytes) == s@);
            }
            s
        },
        None => {
            proof {
                assert(false);
            }
            vstd::pervasive::unreached()
        },
    }
}

} // verus!
