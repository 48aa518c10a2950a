//! JSON decoding for the boot configuration.
//!
//! The decoder accepts the JSON subset the configuration file format uses:
//! objects, arrays, strings of UTF-8 text, integers, booleans and null.
//! Numbers with a fraction or an exponent, and integers outside the signed
//! 64-bit range, parse as [`JsonValue::BigNum`] so that shape checking can
//! reject them with a clear reason.
//!
//! The grammar is stated once as a specification-level parser over byte
//! sequences; the executable parser is proved to return exactly its result.

use vstd::prelude::*;

verus! {

broadcast use vstd::seq::axiom_seq_index_decreases, vstd::std_specs::vec::axiom_vec_decreases_to_view;

/// A decoded JSON value.
pub enum JsonValue {
    Null,
    Bool(bool),
    Int(i64),
    /// A syntactically valid number the engine does not read: a fraction, an
    /// exponent, or an integer outside the signed 64-bit range.
    BigNum,
    Str(String),
    Arr(Vec<JsonValue>),
    Obj(Vec<(String, JsonValue)>),
}

/// The mathematical shape of a JSON value.
pub enum JsonRep {
    Null,
    Bool(bool),
    Int(int),
    BigNum,
    Str(Seq<char>),
    Arr(Seq<JsonRep>),
    Obj(Seq<(Seq<char>, JsonRep)>),
}

impl JsonValue {
    /// The shape of this value.
    pub open spec fn rep(self) -> JsonRep
        decreases self,
    {
        match self {
            JsonValue::Null => JsonRep::Null,
            JsonValue::Bool(b) => JsonRep::Bool(b),
            JsonValue::Int(n) => JsonRep::Int(n as int),
            JsonValue::BigNum => JsonRep::BigNum,
            JsonValue::Str(s) => JsonRep::Str(s@),
            JsonValue::Arr(vs) => JsonRep::Arr(reps_of(vs@)),
            JsonValue::Obj(ms) => JsonRep::Obj(member_reps_of(ms@)),
        }
    }
}

/// The shapes of a sequence of values, elementwise.
pub open spec fn reps_of(vs: Seq<JsonValue>) -> Seq<JsonRep>
    decreases vs,
{
    if vs.len() == 0 {
        Seq::empty()
    } else {
        seq![vs[0].rep()] + reps_of(vs.drop_first())
    }
}

/// The shapes of a sequence of object members, elementwise.
pub open spec fn member_reps_of(ms: Seq<(String, JsonValue)>) -> Seq<(Seq<char>, JsonRep)>
    decreases ms,
{
    if ms.len() == 0 {
        Seq::empty()
    } else {
        seq![(ms[0].0@, ms[0].1.rep())] + member_reps_of(ms.drop_first())
    }
}

/// `reps_of` maps elementwise.
pub proof fn lemma_reps_of(vs: Seq<JsonValue>)
    ensures
        reps_of(vs).len() == vs.len(),
        forall|i: int| 0 <= i < vs.len() ==> reps_of(vs)[i] == #[trigger] vs[i].rep(),
    decreases vs,
{
    if vs.len() != 0 {
        lemma_reps_of(vs.drop_first());
        assert forall|i: int| 0 <= i < vs.len() implies reps_of(vs)[i] == #[trigger] vs[i].rep()
        by {
            if i > 0 {
                assert(vs.drop_first()[i - 1] == vs[i]);
                assert(reps_of(vs)[i] == reps_of(vs.drop_first())[i - 1]);
            }
        }
    }
}

/// `member_reps_of` maps elementwise.
pub proof fn lemma_member_reps_of(ms: Seq<(String, JsonValue)>)
    ensures
        member_reps_of(ms).len() == ms.len(),
        forall|i: int|
            0 <= i < ms.len() ==> member_reps_of(ms)[i] == (#[trigger] ms[i].0@, ms[i].1.rep()),
    decreases ms,
{
    if ms.len() != 0 {
        lemma_member_reps_of(ms.drop_first());
        assert forall|i: int| 0 <= i < ms.len() implies member_reps_of(ms)[i] == (
            #[trigger] ms[i].0@,
            ms[i].1.rep(),
        ) by {
            if i > 0 {
                assert(ms.drop_first()[i - 1] == ms[i]);
                assert(member_reps_of(ms)[i] == member_reps_of(ms.drop_first())[i - 1]);
            }
        }
    }
}

impl View for JsonValue {
    type V = JsonRep;

    open spec fn view(&self) -> JsonRep {
        self.rep()
    }
}

/// JSON whitespace.
pub open spec fn is_ws(b: u8) -> bool {
    b == 0x20 || b == 0x09 || b == 0x0a || b == 0x0d
}

/// A decimal digit.
pub open spec fn is_digit(b: u8) -> bool {
    0x30 <= b <= 0x39
}

/// Index of the first byte at or after `i` that is not JSON whitespace.
pub open spec fn spec_skip_ws(s: Seq<u8>, i: int) -> int
    decreases s.len() - i,
{
    if 0 <= i < s.len() && is_ws(s[i]) {
        spec_skip_ws(s, i + 1)
    } else {
        i
    }
}

/// The byte an escape letter stands for, for the single-letter escapes.
pub open spec fn spec_escape_byte(e: u8) -> Option<u8> {
    if e == 0x22 {
        Some(0x22u8)
    } else if e == 0x5c {
        Some(0x5cu8)
    } else if e == 0x2f {
        Some(0x2fu8)
    } else if e == 0x62 {
        Some(0x08u8)
    } else if e == 0x66 {
        Some(0x0cu8)
    } else if e == 0x6e {
        Some(0x0au8)
    } else if e == 0x72 {
        Some(0x0du8)
    } else if e == 0x74 {
        Some(0x09u8)
    } else {
        None
    }
}

/// Value of a hexadecimal digit.
pub open spec fn spec_hex_val(b: u8) -> Option<u8> {
    if 0x30 <= b <= 0x39 {
        Some((b - 0x30) as u8)
    } else if 0x61 <= b <= 0x66 {
        Some((b - 0x61 + 10) as u8)
    } else if 0x41 <= b <= 0x46 {
        Some((b - 0x41 + 10) as u8)
    } else {
        None
    }
}

/// Value of the four hexadecimal digits at `i`.
pub open spec fn spec_hex4(s: Seq<u8>, i: int) -> Option<u32> {
    if 0 <= i && i + 4 <= s.len() {
        match (spec_hex_val(s[i]), spec_hex_val(s[i + 1]), spec_hex_val(s[i + 2]), spec_hex_val(
            s[i + 3],
        )) {
            (Some(a), Some(b), Some(c), Some(d)) => Some(
                ((a as u32) * 0x1000 + (b as u32) * 0x100 + (c as u32) * 0x10 + (d as u32)) as u32,
            ),
            _ => None,
        }
    } else {
        None
    }
}

/// Parses the body of a string literal starting right after the opening
/// quote; returns the text and the index after the closing quote. Verbatim
/// text may be any UTF-8 scalars; `\u` escapes cover the basic plane
/// outside the surrogate range.
pub open spec fn spec_parse_string_body(s: Seq<u8>, i: int) -> Option<(Seq<char>, int)>
    decreases s.len() - i,
{
    if !(0 <= i < s.len()) {
        None
    } else {
        let b = s[i];
        if b == 0x22 {
            Some((Seq::empty(), i + 1))
        } else if b == 0x5c {
            if i + 1 < s.len() {
                let e = s[i + 1];
                if e == 0x75 {
                    match spec_hex4(s, i + 2) {
                        Some(v) => if !(0xD800 <= v <= 0xDFFF) {
                            match spec_parse_string_body(s, i + 6) {
                                Some((c, j)) => Some((seq![v as char] + c, j)),
                                None => None,
                            }
                        } else {
                            None
                        },
                        None => None,
                    }
                } else {
                    match spec_escape_byte(e) {
                        Some(m) => match spec_parse_string_body(s, i + 2) {
                            Some((c, j)) => Some((seq![m as char] + c, j)),
                            None => None,
                        },
                        None => None,
                    }
                }
            } else {
                None
            }
        } else if 0x20 <= b < 0x80 {
            match spec_parse_string_body(s, i + 1) {
                Some((c, j)) => Some((seq![b as char] + c, j)),
                None => None,
            }
        } else if b >= 0x80 {
            let tail = s.subrange(i, s.len() as int);
            if vstd::utf8::valid_first_scalar(tail) && vstd::utf8::length_of_first_scalar(tail)
                >= 1 {
                match spec_parse_string_body(s, i + vstd::utf8::length_of_first_scalar(tail)) {
                    Some((c, j)) => Some(
                        (seq![vstd::utf8::decode_first_scalar(tail) as char] + c, j),
                    ),
                    None => None,
                }
            } else {
                None
            }
        } else {
            None
        }
    }
}

/// Index after the run of decimal digits starting at `i`.
pub open spec fn spec_digits_end(s: Seq<u8>, i: int) -> int
    decreases s.len() - i,
{
    if 0 <= i < s.len() && is_digit(s[i]) {
        spec_digits_end(s, i + 1)
    } else {
        i
    }
}

/// Value of the decimal digits in `[i, j)`.
pub open spec fn spec_digits_val(s: Seq<u8>, i: int, j: int) -> int
    decreases j - i,
{
    if j <= i {
        0
    } else {
        spec_digits_val(s, i, j - 1) * 10 + (s[j - 1] - 0x30)
    }
}

/// Index after an optional fraction part at `i`; `None` on a malformed one.
pub open spec fn spec_after_frac(s: Seq<u8>, i: int) -> Option<int> {
    if 0 <= i < s.len() && s[i] == 0x2e {
        let e = spec_digits_end(s, i + 1);
        if e == i + 1 {
            None
        } else {
            Some(e)
        }
    } else {
        Some(i)
    }
}

/// Index after an optional exponent part at `i`; `None` on a malformed one.
pub open spec fn spec_after_exp(s: Seq<u8>, i: int) -> Option<int> {
    if 0 <= i < s.len() && (s[i] == 0x65 || s[i] == 0x45) {
        let j = if i + 1 < s.len() && (s[i + 1] == 0x2b || s[i + 1] == 0x2d) {
            i + 2
        } else {
            i + 1
        };
        let e = spec_digits_end(s, j);
        if e == j {
            None
        } else {
            Some(e)
        }
    } else {
        Some(i)
    }
}

/// Parses a number token at `i`: an optional minus sign, an integer part
/// without a leading zero, and optional fraction and exponent parts. The
/// result is an `Int` exactly for plain integers of at most 19 digits that
/// fit a signed 64-bit value, and `BigNum` for every other well-formed
/// number.
pub open spec fn spec_parse_number(s: Seq<u8>, i: int) -> Option<(JsonRep, int)> {
    let neg = 0 <= i < s.len() && s[i] == 0x2d;
    let i0 = if neg {
        i + 1
    } else {
        i
    };
    if !(0 <= i0 < s.len()) {
        None
    } else {
        let de = spec_digits_end(s, i0);
        if de == i0 {
            None
        } else if s[i0] == 0x30 && de > i0 + 1 {
            None
        } else {
            match spec_after_frac(s, de) {
                None => None,
                Some(fe) => match spec_after_exp(s, fe) {
                    None => None,
                    Some(ee) => if fe != de || ee != de {
                        Some((JsonRep::BigNum, ee))
                    } else if de - i0 > 19 {
                        Some((JsonRep::BigNum, de))
                    } else {
                        let v = spec_digits_val(s, i0, de);
                        if neg && v <= 0x8000_0000_0000_0000 {
                            Some((JsonRep::Int(-v), de))
                        } else if !neg && v <= 0x7fff_ffff_ffff_ffff {
                            Some((JsonRep::Int(v), de))
                        } else {
                            Some((JsonRep::BigNum, de))
                        }
                    },
                },
            }
        }
    }
}

/// Parses one JSON value starting at `i`, leading whitespace allowed.
/// Returns the value and the index just past it.
pub open spec fn spec_parse_value(s: Seq<u8>, i: int) -> Option<(JsonRep, int)>
    decreases s.len() - i, 0int,
{
    let j = spec_skip_ws(s, i);
    if j < i || j >= s.len() {
        None
    } else {
        let b = s[j];
        if b == 0x6e {
            if j + 4 <= s.len() && s[j + 1] == 0x75 && s[j + 2] == 0x6c && s[j + 3] == 0x6c {
                Some((JsonRep::Null, j + 4))
            } else {
                None
            }
        } else if b == 0x74 {
            if j + 4 <= s.len() && s[j + 1] == 0x72 && s[j + 2] == 0x75 && s[j + 3] == 0x65 {
                Some((JsonRep::Bool(true), j + 4))
            } else {
                None
            }
        } else if b == 0x66 {
            if j + 5 <= s.len() && s[j + 1] == 0x61 && s[j + 2] == 0x6c && s[j + 3] == 0x73 && s[j
                + 4] == 0x65 {
                Some((JsonRep::Bool(false), j + 5))
            } else {
                None
            }
        } else if b == 0x22 {
            match spec_parse_string_body(s, j + 1) {
                Some((c, e)) => Some((JsonRep::Str(c), e)),
                None => None,
            }
        } else if b == 0x5b {
            let k = spec_skip_ws(s, j + 1);
            if k < j + 1 {
                None
            } else if k < s.len() && s[k] == 0x5d {
                Some((JsonRep::Arr(Seq::empty()), k + 1))
            } else {
                match spec_parse_items(s, j + 1) {
                    Some((vs, e)) => Some((JsonRep::Arr(vs), e)),
                    None => None,
                }
            }
        } else if b == 0x7b {
            let k = spec_skip_ws(s, j + 1);
            if k < j + 1 {
                None
            } else if k < s.len() && s[k] == 0x7d {
                Some((JsonRep::Obj(Seq::empty()), k + 1))
            } else {
                match spec_parse_members(s, j + 1) {
                    Some((ms, e)) => Some((JsonRep::Obj(ms), e)),
                    None => None,
                }
            }
        } else if b == 0x2d || is_digit(b) {
            spec_parse_number(s, j)
        } else {
            None
        }
    }
}

/// Parses `value (',' value)* ']'` starting at `i` and consumes the closing
/// bracket.
pub open spec fn spec_parse_items(s: Seq<u8>, i: int) -> Option<(Seq<JsonRep>, int)>
    decreases s.len() - i, 1int,
{
    if !(0 <= i <= s.len()) {
        None
    } else {
        match spec_parse_value(s, i) {
            None => None,
            Some((r, m)) => if m <= i {
                None
            } else {
                let m2 = spec_skip_ws(s, m);
                if m2 < m || m2 >= s.len() {
                    None
                } else if s[m2] == 0x5d {
                    Some((seq![r], m2 + 1))
                } else if s[m2] == 0x2c {
                    match spec_parse_items(s, m2 + 1) {
                        Some((vs, e)) => Some((seq![r] + vs, e)),
                        None => None,
                    }
                } else {
                    None
                }
            },
        }
    }
}

/// Parses `string ':' value (',' string ':' value)* '}'` starting at `i` and
/// consumes the closing brace.
pub open spec fn spec_parse_members(s: Seq<u8>, i: int) -> Option<
    (Seq<(Seq<char>, JsonRep)>, int),
>
    decreases s.len() - i, 1int,
{
    if !(0 <= i <= s.len()) {
        None
    } else {
        let j = spec_skip_ws(s, i);
        if j < i || j >= s.len() || s[j] != 0x22 {
            None
        } else {
            match spec_parse_string_body(s, j + 1) {
                None => None,
                Some((key, ke)) => if ke <= j {
                    None
                } else {
                    let c = spec_skip_ws(s, ke);
                    if c < ke || c >= s.len() || s[c] != 0x3a {
                        None
                    } else {
                        match spec_parse_value(s, c + 1) {
                            None => None,
                            Some((r, m)) => if m <= c {
                                None
                            } else {
                                let m2 = spec_skip_ws(s, m);
                                if m2 < m || m2 >= s.len() {
                                    None
                                } else if s[m2] == 0x7d {
                                    Some((seq![(key, r)], m2 + 1))
                                } else if s[m2] == 0x2c {
                                    match spec_parse_members(s, m2 + 1) {
                                        Some((ms, e)) => Some((seq![(key, r)] + ms, e)),
                                        None => None,
                                    }
                                } else {
                                    None
                                }
                            },
                        }
                    }
                },
            }
        }
    }
}

/// Parses a whole document: one value with nothing but whitespace after it.
pub open spec fn spec_parse_json(s: Seq<u8>) -> Option<JsonRep> {
    match spec_parse_value(s, 0) {
        Some((r, e)) => if spec_skip_ws(s, e) == s.len() {
            Some(r)
        } else {
            None
        },
        None => None,
    }
}

/// The value of the first binding of `key` in an object's members, if any.
pub open spec fn obj_get(members: Seq<(Seq<char>, JsonRep)>, key: Seq<char>) -> Option<JsonRep>
    decreases members.len(),
{
    if members.len() == 0 {
        None
    } else if members[0].0 == key {
        Some(members[0].1)
    } else {
        obj_get(members.drop_first(), key)
    }
}

/// Ten to the `n`th power.
pub open spec fn pow10(n: nat) -> int
    decreases n,
{
    if n == 0 {
        1
    } else {
        10 * pow10((n - 1) as nat)
    }
}

/// A run of digits of length `j - i` denotes a value below `pow10(j - i)`.
proof fn lemma_digits_val_bound(s: Seq<u8>, i: int, j: int)
    requires
        i <= j,
        forall|k: int| i <= k < j ==> is_digit(#[trigger] s[k]),
    ensures
        0 <= spec_digits_val(s, i, j) < pow10((j - i) as nat),
    decreases j - i,
{
    if j > i {
        lemma_digits_val_bound(s, i, j - 1);
    }
}

/// Prepending already-read text to a pending string parse.
spec fn string_cons(pre: Seq<u8>, o: Option<(Seq<char>, int)>) -> Option<(Seq<char>, int)> {
    match o {
        Some((c, e)) => Some((vstd::utf8::decode_utf8(pre) + c, e)),
        None => None,
    }
}

/// Prepending already-read items to a pending array parse.
spec fn items_cons(pre: Seq<JsonRep>, o: Option<(Seq<JsonRep>, int)>) -> Option<
    (Seq<JsonRep>, int),
> {
    match o {
        Some((vs, e)) => Some((pre + vs, e)),
        None => None,
    }
}

/// Prepending already-read members to a pending object parse.
spec fn members_cons(
    pre: Seq<(Seq<char>, JsonRep)>,
    o: Option<(Seq<(Seq<char>, JsonRep)>, int)>,
) -> Option<(Seq<(Seq<char>, JsonRep)>, int)> {
    match o {
        Some((ms, e)) => Some((pre + ms, e)),
        None => None,
    }
}

proof fn lemma_reps_of_push(vs: Seq<JsonValue>, v: JsonValue)
    ensures
        reps_of(vs.push(v)) =~= reps_of(vs).push(v.rep()),
{
    lemma_reps_of(vs.push(v));
    lemma_reps_of(vs);
    assert forall|i: int| 0 <= i < vs.len() + 1 implies reps_of(vs.push(v))[i] == reps_of(
        vs,
    ).push(v.rep())[i] by {
        assert(reps_of(vs.push(v))[i] == vs.push(v)[i].rep());
        if i < vs.len() {
            assert(vs.push(v)[i] == vs[i]);
            assert(reps_of(vs)[i] == vs[i].rep());
        } else {
            assert(vs.push(v)[i] == v);
        }
    }
}

proof fn lemma_member_reps_of_push(ms: Seq<(String, JsonValue)>, k: String, v: JsonValue)
    ensures
        member_reps_of(ms.push((k, v))) =~= member_reps_of(ms).push((k@, v.rep())),
{
    lemma_member_reps_of(ms.push((k, v)));
    lemma_member_reps_of(ms);
    assert forall|i: int| 0 <= i < ms.len() + 1 implies member_reps_of(ms.push((k, v)))[i]
        == member_reps_of(ms).push((k@, v.rep()))[i] by {
        assert(member_reps_of(ms.push((k, v)))[i] == (ms.push((k, v))[i].0@, ms.push((k, v))[i].1.rep()));
        if i < ms.len() {
            assert(ms.push((k, v))[i] == ms[i]);
            assert(member_reps_of(ms)[i] == (ms[i].0@, ms[i].1.rep()));
        } else {
            assert(ms.push((k, v))[i] == (k, v));
        }
    }
}

/// Skips JSON whitespace.
fn skip_ws(s: &[u8], i: usize) -> (r: usize)
    requires
        i <= s@.len(),
    ensures
        r == spec_skip_ws(s@, i as int),
        i <= r <= s@.len(),
{
    let n = s.len();
    let mut cur = i;
    while cur < n && (s[cur] == 0x20 || s[cur] == 0x09 || s[cur] == 0x0a || s[cur] == 0x0d)
        invariant
            i <= cur <= n,
            n == s@.len(),
            spec_skip_ws(s@, i as int) == spec_skip_ws(s@, cur as int),
        decreases n - cur,
    {
        cur = cur + 1;
    }
    cur
}

/// End of the digit run starting at `i`.
fn digits_end(s: &[u8], i: usize) -> (r: usize)
    requires
        i <= s@.len(),
    ensures
        r == spec_digits_end(s@, i as int),
        i <= r <= s@.len(),
        forall|k: int| i <= k < r ==> is_digit(#[trigger] s@[k]),
{
    let n = s.len();
    let mut cur = i;
    while cur < n && 0x30 <= s[cur] && s[cur] <= 0x39
        invariant
            i <= cur <= n,
            n == s@.len(),
            spec_digits_end(s@, i as int) == spec_digits_end(s@, cur as int),
            forall|k: int| i <= k < cur ==> is_digit(#[trigger] s@[k]),
        decreases n - cur,
    {
        cur = cur + 1;
    }
    cur
}

/// Value of a hexadecimal digit.
fn hex_val(b: u8) -> (r: Option<u8>)
    ensures
        r == spec_hex_val(b),
{
    if 0x30 <= b && b <= 0x39 {
        Some(b - 0x30)
    } else if 0x61 <= b && b <= 0x66 {
        Some(b - 0x61 + 10)
    } else if 0x41 <= b && b <= 0x46 {
        Some(b - 0x41 + 10)
    } else {
        None
    }
}

/// One ASCII byte is a whole scalar encoding.
proof fn lemma_ascii_single_scalar(b: u8)
    requires
        b < 0x80,
    ensures
        vstd::utf8::valid_first_scalar(seq![b]),
        vstd::utf8::length_of_first_scalar(seq![b]) == 1,
        vstd::utf8::decode_first_scalar(seq![b]) as char == b as char,
{
    assert(vstd::utf8::is_leading_byte_width_1(b));
    assert(vstd::utf8::leading_bits_width_1(b) == b as u32) by (bit_vector)
        requires
            b < 0x80,
    ;
    assert(b as u32 as char == b as char);
}

/// Folding one appended scalar into the pending-parse relation.
proof fn lemma_string_cons_scalar(pre: Seq<u8>, scalar: Seq<u8>, ch: char, s: Seq<u8>, next: int)
    requires
        vstd::utf8::valid_utf8(pre),
        scalar.len() >= 1,
        vstd::utf8::valid_first_scalar(scalar),
        vstd::utf8::length_of_first_scalar(scalar) == scalar.len(),
        ch == vstd::utf8::decode_first_scalar(scalar) as char,
    ensures
        vstd::utf8::valid_utf8(pre + scalar),
        string_cons(pre, (match spec_parse_string_body(s, next) {
            Some((c, e)) => Some((seq![ch] + c, e)),
            None => None,
        })) == string_cons(pre + scalar, spec_parse_string_body(s, next)),
{
    crate::util::lemma_decode_append_scalar(pre, scalar);
    match spec_parse_string_body(s, next) {
        Some((c, e)) => {
            assert(vstd::utf8::decode_utf8(pre) + (seq![ch] + c) =~= vstd::utf8::decode_utf8(
                pre + scalar,
            ) + c);
        },
        None => {},
    }
}

/// Appends the UTF-8 encoding of a basic-plane scalar.
fn push_scalar_utf8(acc: &mut Vec<u8>, v: u32)
    requires
        v <= 0xFFFF,
        !(0xD800 <= v <= 0xDFFF),
        vstd::utf8::valid_utf8(old(acc)@),
    ensures
        vstd::utf8::valid_utf8(final(acc)@),
        vstd::utf8::decode_utf8(final(acc)@) =~= vstd::utf8::decode_utf8(old(acc)@).push(
            v as char,
        ),
{
    let ghost a0 = acc@;
    if v < 0x80 {
        let b = v as u8;
        acc.push(b);
        proof {
            lemma_ascii_single_scalar(b);
            assert(acc@ =~= a0 + seq![b]);
            crate::util::lemma_decode_append_scalar(a0, seq![b]);
            assert((b as u32) == v) by (bit_vector)
                requires
                    b == v as u8,
                    v < 0x80,
            ;
            vstd::utf8::char_u32_cast((b as char), v);
        }
    } else if v < 0x800 {
        let b1: u8 = 0xC0u8 | ((v >> 6u32) as u8);
        let b2: u8 = 0x80u8 | ((v & 0x3F) as u8);
        acc.push(b1);
        acc.push(b2);
        proof {
            let scalar = seq![b1, b2];
            assert(acc@ =~= a0 + scalar);
            assert(0xC2 <= b1 <= 0xDF && 0x80 <= b2 <= 0xBF && ((((b1 & 0x1f) as u32) << 6u32) | ((
            b2 & 0x3f) as u32)) == v) by (bit_vector)
                requires
                    b1 == 0xC0u8 | ((v >> 6u32) as u8),
                    b2 == 0x80u8 | ((v & 0x3F) as u8),
                    0x80 <= v < 0x800,
            ;
            assert(vstd::utf8::codepoint_width_2(scalar[0], scalar[1]) == v);
            assert(vstd::utf8::valid_first_scalar(scalar));
            assert(vstd::utf8::length_of_first_scalar(scalar) == 2);
            crate::util::lemma_decode_append_scalar(a0, scalar);
        }
    } else {
        let b1: u8 = 0xE0u8 | ((v >> 12u32) as u8);
        let b2: u8 = 0x80u8 | (((v >> 6u32) & 0x3F) as u8);
        let b3: u8 = 0x80u8 | ((v & 0x3F) as u8);
        acc.push(b1);
        acc.push(b2);
        acc.push(b3);
        proof {
            let scalar = seq![b1, b2, b3];
            assert(acc@ =~= a0 + scalar);
            assert(0xE0 <= b1 <= 0xEF && 0x80 <= b2 <= 0xBF && 0x80 <= b3 <= 0xBF && ((((b1
                & 0x0f) as u32) << 12u32) | (((b2 & 0x3f) as u32) << 6u32) | ((b3
                & 0x3f) as u32)) == v) by (bit_vector)
                requires
                    b1 == 0xE0u8 | ((v >> 12u32) as u8),
                    b2 == 0x80u8 | (((v >> 6u32) & 0x3F) as u8),
                    b3 == 0x80u8 | ((v & 0x3F) as u8),
                    0x800 <= v <= 0xFFFF,
            ;
            assert(vstd::utf8::codepoint_width_3(scalar[0], scalar[1], scalar[2]) == v);
            assert(vstd::utf8::valid_first_scalar(scalar));
            assert(vstd::utf8::length_of_first_scalar(scalar) == 3);
            crate::util::lemma_decode_append_scalar(a0, scalar);
        }
    }
}

/// Parses a string body starting right after the opening quote.
fn parse_string_body(s: &[u8], i: usize) -> (r: Option<(String, usize)>)
    requires
        i <= s@.len(),
    ensures
        match r {
            Some((st, j)) => spec_parse_string_body(s@, i as int) == Some((st@, j as int)) && i < j
                <= s@.len(),
            None => spec_parse_string_body(s@, i as int) is None,
        },
{
    let n = s.len();
    let mut acc: Vec<u8> = Vec::new();
    let mut cur = i;
    proof {
        assert(acc@ =~= Seq::<u8>::empty());
        assert(vstd::utf8::decode_utf8(acc@) =~= Seq::<char>::empty());
    }
    loop
        invariant
            i <= cur <= n,
            n == s@.len(),
            vstd::utf8::valid_utf8(acc@),
            spec_parse_string_body(s@, i as int) == string_cons(
                acc@,
                spec_parse_string_body(s@, cur as int),
            ),
        decreases n - cur,
    {
        if cur >= n {
            return None;
        }
        let b = s[cur];
        if b == 0x22 {
            proof {
                assert(spec_parse_string_body(s@, cur as int) == Some(
                    (Seq::<char>::empty(), cur + 1 as int),
                ));
                assert(vstd::utf8::decode_utf8(acc@) + Seq::<char>::empty()
                    =~= vstd::utf8::decode_utf8(acc@));
            }
            let st = crate::util::utf8_to_string(acc);
            return Some((st, cur + 1));
        } else if b == 0x5c {
            if cur + 1 >= n {
                return None;
            }
            let e = s[cur + 1];
            if e == 0x75 {
                if n - cur < 6 {
                    proof {
                        assert(spec_hex4(s@, cur + 2 as int) is None);
                    }
                    return None;
                }
                let h1 = hex_val(s[cur + 2]);
                let h2 = hex_val(s[cur + 3]);
                let h3 = hex_val(s[cur + 4]);
                let h4 = hex_val(s[cur + 5]);
                match (h1, h2, h3, h4) {
                    (Some(a), Some(b2), Some(c), Some(d)) => {
                        let v: u32 = (a as u32) * 0x1000 + (b2 as u32) * 0x100 + (c as u32) * 0x10
                            + (d as u32);
                        if !(0xD800 <= v && v <= 0xDFFF) {
                            let ghost acc0 = acc@;
                            push_scalar_utf8(&mut acc, v);
                            proof {
                                lemma_string_cons_push_char(acc0, acc@, v as char, s@, cur + 6);
                            }
                            cur = cur + 6;
                        } else {
                            return None;
                        }
                    },
                    _ => {
                        return None;
                    },
                }
            } else {
                let m: u8 = if e == 0x22 {
                    0x22
                } else if e == 0x5c {
                    0x5c
                } else if e == 0x2f {
                    0x2f
                } else if e == 0x62 {
                    0x08
                } else if e == 0x66 {
                    0x0c
                } else if e == 0x6e {
                    0x0a
                } else if e == 0x72 {
                    0x0d
                } else if e == 0x74 {
                    0x09
                } else {
                    return None;
                };
                let ghost acc0 = acc@;
                acc.push(m);
                proof {
                    lemma_ascii_single_scalar(m);
                    assert(acc@ =~= acc0 + seq![m]);
                    lemma_string_cons_scalar(acc0, seq![m], m as char, s@, cur + 2 as int);
                }
                cur = cur + 2;
            }
        } else if 0x20 <= b && b < 0x80 {
            let ghost acc0 = acc@;
            acc.push(b);
            proof {
                lemma_ascii_single_scalar(b);
                assert(acc@ =~= acc0 + seq![b]);
                lemma_string_cons_scalar(acc0, seq![b], b as char, s@, cur + 1 as int);
            }
            cur = cur + 1;
        } else if b >= 0x80 {
            match crate::util::scalar_check(s, cur) {
                Some(l) => {
                    let ghost tail = s@.subrange(cur as int, n as int);
                    let ghost scalar = s@.subrange(cur as int, cur as int + l as int);
                    proof {
                        assert(forall|k: int| 0 <= k < l ==> scalar[k] == tail[k]);
                        assert(vstd::utf8::valid_first_scalar(scalar));
                        assert(vstd::utf8::length_of_first_scalar(scalar) == l);
                        assert(vstd::utf8::decode_first_scalar(scalar)
                            == vstd::utf8::decode_first_scalar(tail));
                    }
                    let ghost acc0 = acc@;
                    let mut k: usize = 0;
                    while k < l
                        invariant
                            k <= l,
                            n == s@.len(),
                            cur + l <= n,
                            acc@ == acc0 + s@.subrange(cur as int, cur as int + k as int),
                        decreases l - k,
                    {
                        proof {
                            assert(s@.subrange(cur as int, cur as int + k as int).push(
                                s@[cur + k as int],
                            ) =~= s@.subrange(cur as int, cur as int + (k + 1) as int));
                        }
                        acc.push(s[cur + k]);
                        k = k + 1;
                    }
                    proof {
                        assert(acc@ =~= acc0 + scalar);
                        lemma_string_cons_scalar(
                            acc0,
                            scalar,
                            vstd::utf8::decode_first_scalar(tail) as char,
                            s@,
                            cur + l as int,
                        );
                    }
                    cur = cur + l;
                },
                None => {
                    return None;
                },
            }
        } else {
            return None;
        }
    }
}

/// Folding one appended already-encoded character into the pending-parse
/// relation.
proof fn lemma_string_cons_push_char(pre: Seq<u8>, now: Seq<u8>, ch: char, s: Seq<u8>, next: int)
    requires
        vstd::utf8::valid_utf8(now),
        vstd::utf8::decode_utf8(now) =~= vstd::utf8::decode_utf8(pre).push(ch),
    ensures
        string_cons(pre, (match spec_parse_string_body(s, next) {
            Some((c, e)) => Some((seq![ch] + c, e)),
            None => None,
        })) == string_cons(now, spec_parse_string_body(s, next)),
{
    match spec_parse_string_body(s, next) {
        Some((c, e)) => {
            assert(vstd::utf8::decode_utf8(pre) + (seq![ch] + c) =~= vstd::utf8::decode_utf8(now)
                + c);
        },
        None => {},
    }
}

/// Parses a number token.
fn parse_number(s: &[u8], i: usize) -> (r: Option<(JsonValue, usize)>)
    requires
        i <= s@.len(),
    ensures
        match r {
            Some((v, j)) => spec_parse_number(s@, i as int) == Some((v.rep(), j as int)) && i < j
                <= s@.len(),
            None => spec_parse_number(s@, i as int) is None,
        },
{
    let n = s.len();
    let neg = i < n && s[i] == 0x2d;
    let i0 = if neg {
        i + 1
    } else {
        i
    };
    if i0 >= n {
        return None;
    }
    let de = digits_end(s, i0);
    if de == i0 {
        return None;
    }
    if s[i0] == 0x30 && de > i0 + 1 {
        return None;
    }
    // fraction part
    let fe = if de < n && s[de] == 0x2e {
        let e2 = digits_end(s, de + 1);
        if e2 == de + 1 {
            return None;
        }
        e2
    } else {
        de
    };
    // exponent part
    let ee = if fe < n && (s[fe] == 0x65 || s[fe] == 0x45) {
        let jj = if fe + 1 < n && (s[fe + 1] == 0x2b || s[fe + 1] == 0x2d) {
            fe + 2
        } else {
            fe + 1
        };
        let e3 = digits_end(s, jj);
        if e3 == jj {
            return None;
        }
        e3
    } else {
        fe
    };
    if fe != de || ee != de {
        return Some((JsonValue::BigNum, ee));
    }
    if de - i0 > 19 {
        return Some((JsonValue::BigNum, de));
    }
    let mut acc: u64 = 0;
    let mut j = i0;
    proof {
        reveal_with_fuel(pow10, 21);
        assert(pow10(19) == 10_000_000_000_000_000_000);
    }
    while j < de
        invariant
            i0 <= j <= de <= n,
            n == s@.len(),
            de - i0 <= 19,
            forall|k: int| i0 <= k < de ==> is_digit(#[trigger] s@[k]),
            acc == spec_digits_val(s@, i0 as int, j as int),
            acc < pow10((j - i0) as nat),
            pow10(19) == 10_000_000_000_000_000_000,
        decreases de - j,
    {
        let d = s[j] - 0x30;
        proof {
            assert(pow10(((j + 1) - i0) as nat) == 10 * pow10((j - i0) as nat));
            lemma_pow10_le(((j + 1) - i0) as nat, 19nat);
        }
        acc = acc * 10 + (d as u64);
        j = j + 1;
    }
    if neg {
        if acc <= 0x8000_0000_0000_0000u64 {
            let v: i64 = if acc == 0x8000_0000_0000_0000u64 {
                i64::MIN
            } else {
                -(acc as i64)
            };
            Some((JsonValue::Int(v), de))
        } else {
            Some((JsonValue::BigNum, de))
        }
    } else {
        if acc <= 0x7fff_ffff_ffff_ffffu64 {
            Some((JsonValue::Int(acc as i64), de))
        } else {
            Some((JsonValue::BigNum, de))
        }
    }
}

/// `pow10` is monotone.
proof fn lemma_pow10_le(a: nat, b: nat)
    requires
        a <= b,
    ensures
        pow10(a) <= pow10(b),
    decreases b,
{
    if a < b {
        lemma_pow10_le(a, (b - 1) as nat);
        assert(pow10(b) == 10 * pow10((b - 1) as nat));
        assert(pow10((b - 1) as nat) >= 1) by {
            lemma_pow10_pos((b - 1) as nat);
        }
    }
}

/// `pow10` is positive.
proof fn lemma_pow10_pos(n: nat)
    ensures
        pow10(n) >= 1,
    decreases n,
{
    if n > 0 {
        lemma_pow10_pos((n - 1) as nat);
    }
}

/// Parses one JSON value starting at `i`, leading whitespace allowed.
pub fn parse_value(s: &[u8], i: usize) -> (r: Option<(JsonValue, usize)>)
    requires
        i <= s@.len(),
    ensures
        match r {
            Some((v, j)) => spec_parse_value(s@, i as int) == Some((v.rep(), j as int)) && i < j
                <= s@.len(),
            None => spec_parse_value(s@, i as int) is None,
        },
    decreases s@.len() - i,
{
    let n = s.len();
    let j = skip_ws(s, i);
    if j >= n {
        return None;
    }
    let b = s[j];
    if b == 0x6e {
        if n - j >= 4 && s[j + 1] == 0x75 && s[j + 2] == 0x6c && s[j + 3] == 0x6c {
            Some((JsonValue::Null, j + 4))
        } else {
            None
        }
    } else if b == 0x74 {
        if n - j >= 4 && s[j + 1] == 0x72 && s[j + 2] == 0x75 && s[j + 3] == 0x65 {
            Some((JsonValue::Bool(true), j + 4))
        } else {
            None
        }
    } else if b == 0x66 {
        if n - j >= 5 && s[j + 1] == 0x61 && s[j + 2] == 0x6c && s[j + 3] == 0x73 && s[j + 4]
            == 0x65 {
            Some((JsonValue::Bool(false), j + 5))
        } else {
            None
        }
    } else if b == 0x22 {
        match parse_string_body(s, j + 1) {
            Some((st, e)) => Some((JsonValue::Str(st), e)),
            None => None,
        }
    } else if b == 0x5b {
        let k = skip_ws(s, j + 1);
        if k < n && s[k] == 0x5d {
            let vs: Vec<JsonValue> = Vec::new();
            proof {
                assert(reps_of(vs@) =~= Seq::<JsonRep>::empty());
            }
            return Some((JsonValue::Arr(vs), k + 1));
        }
        let ghost start = (j + 1) as int;
        let mut acc: Vec<JsonValue> = Vec::new();
        let mut pos = j + 1;
        proof {
            assert(reps_of(acc@) =~= Seq::<JsonRep>::empty());
            assert(items_cons(reps_of(acc@), spec_parse_items(s@, start)) == spec_parse_items(
                s@,
                start,
            ));
        }
        loop
            invariant
                i < pos <= n,
                n == s@.len(),
                start == j + 1 <= pos,
                j == spec_skip_ws(s@, i as int),
                i <= j < n,
                s@[j as int] == 0x5b,
                spec_skip_ws(s@, start) >= start,
                !(spec_skip_ws(s@, start) < s@.len() && s@[spec_skip_ws(s@, start)] == 0x5d),
                spec_parse_items(s@, start) == items_cons(
                    reps_of(acc@),
                    spec_parse_items(s@, pos as int),
                ),
            decreases n - pos,
        {
            match parse_value(s, pos) {
                None => {
                    return None;
                },
                Some((v, m)) => {
                    let ghost acc0 = acc@;
                    acc.push(v);
                    proof {
                        lemma_reps_of_push(acc0, v);
                    }
                    let m2 = skip_ws(s, m);
                    if m2 >= n {
                        return None;
                    }
                    if s[m2] == 0x5d {
                        proof {
                            assert(spec_parse_items(s@, pos as int) == Some(
                                (seq![v.rep()], m2 + 1 as int),
                            ));
                            assert(reps_of(acc0) + seq![v.rep()] =~= reps_of(acc@));
                        }
                        return Some((JsonValue::Arr(acc), m2 + 1));
                    } else if s[m2] == 0x2c {
                        proof {
                            let inner = spec_parse_items(s@, m2 + 1 as int);
                            match inner {
                                Some((vs, e)) => {
                                    assert(reps_of(acc0) + (seq![v.rep()] + vs) =~= reps_of(acc@)
                                        + vs);
                                },
                                None => {},
                            }
                        }
                        pos = m2 + 1;
                    } else {
                        return None;
                    }
                },
            }
        }
    } else if b == 0x7b {
        let k = skip_ws(s, j + 1);
        if k < n && s[k] == 0x7d {
            let ms: Vec<(String, JsonValue)> = Vec::new();
            proof {
                assert(member_reps_of(ms@) =~= Seq::<(Seq<char>, JsonRep)>::empty());
            }
            return Some((JsonValue::Obj(ms), k + 1));
        }
        let ghost start = (j + 1) as int;
        let mut acc: Vec<(String, JsonValue)> = Vec::new();
        let mut pos = j + 1;
        proof {
            assert(member_reps_of(acc@) =~= Seq::<(Seq<char>, JsonRep)>::empty());
            assert(members_cons(member_reps_of(acc@), spec_parse_members(s@, start))
                == spec_parse_members(s@, start));
        }
        loop
            invariant
                i < pos <= n,
                n == s@.len(),
                start == j + 1 <= pos,
                j == spec_skip_ws(s@, i as int),
                i <= j < n,
                s@[j as int] == 0x7b,
                spec_skip_ws(s@, start) >= start,
                !(spec_skip_ws(s@, start) < s@.len() && s@[spec_skip_ws(s@, start)] == 0x7d),
                spec_parse_members(s@, start) == members_cons(
                    member_reps_of(acc@),
                    spec_parse_members(s@, pos as int),
                ),
            decreases n - pos,
        {
            let kq = skip_ws(s, pos);
            if kq >= n {
                return None;
            }
            if s[kq] != 0x22 {
                return None;
            }
            match parse_string_body(s, kq + 1) {
                None => {
                    return None;
                },
                Some((key, ke)) => {
                    let c = skip_ws(s, ke);
                    if c >= n {
                        return None;
                    }
                    if s[c] != 0x3a {
                        return None;
                    }
                    match parse_value(s, c + 1) {
                        None => {
                            return None;
                        },
                        Some((v, m)) => {
                            let m2 = skip_ws(s, m);
                            if m2 >= n {
                                return None;
                            }
                            if s[m2] == 0x7d {
                                let ghost acc0 = acc@;
                                let ghost keyv = key@;
                                let ghost vrep = v.rep();
                                acc.push((key, v));
                                proof {
                                    lemma_member_reps_of_push_pair(acc0, acc@, keyv, vrep);
                                    assert(spec_parse_members(s@, pos as int) == Some(
                                        (seq![(keyv, vrep)], m2 + 1 as int),
                                    ));
                                    assert(member_reps_of(acc0) + seq![(keyv, vrep)]
                                        =~= member_reps_of(acc@));
                                }
                                return Some((JsonValue::Obj(acc), m2 + 1));
                            } else if s[m2] == 0x2c {
                                let ghost acc0 = acc@;
                                let ghost keyv = key@;
                                let ghost vrep = v.rep();
                                acc.push((key, v));
                                proof {
                                    lemma_member_reps_of_push_pair(acc0, acc@, keyv, vrep);
                                    let inner = spec_parse_members(s@, m2 + 1 as int);
                                    match inner {
                                        Some((ms, e)) => {
                                            assert(member_reps_of(acc0) + (seq![(keyv, vrep)]
                                                + ms) =~= member_reps_of(acc@) + ms);
                                        },
                                        None => {},
                                    }
                                }
                                pos = m2 + 1;
                            } else {
                                return None;
                            }
                        },
                    }
                },
            }
        }
    } else if b == 0x2d || (0x30 <= b && b <= 0x39) {
        parse_number(s, j)
    } else {
        None
    }
}

/// `member_reps_of` of a push, phrased on the pushed views.
proof fn lemma_member_reps_of_push_pair(
    ms0: Seq<(String, JsonValue)>,
    ms1: Seq<(String, JsonValue)>,
    k: Seq<char>,
    r: JsonRep,
)
    requires
        ms1.len() == ms0.len() + 1,
        forall|i: int| 0 <= i < ms0.len() ==> ms1[i] == ms0[i],
        ms1.last().0@ == k,
        ms1.last().1.rep() == r,
    ensures
        member_reps_of(ms1) =~= member_reps_of(ms0).push((k, r)),
{
    lemma_member_reps_of(ms1);
    lemma_member_reps_of(ms0);
    assert forall|i: int| 0 <= i < ms1.len() implies member_reps_of(ms1)[i] == member_reps_of(
        ms0,
    ).push((k, r))[i] by {
        assert(member_reps_of(ms1)[i] == (ms1[i].0@, ms1[i].1.rep()));
        if i < ms0.len() {
            assert(ms1[i] == ms0[i]);
            assert(member_reps_of(ms0)[i] == (ms0[i].0@, ms0[i].1.rep()));
        } else {
            assert(ms1[i] == ms1.last());
        }
    }
}

/// Parses a whole JSON document: one value, then only whitespace.
pub fn parse_json(s: &[u8]) -> (r: Option<JsonValue>)
    ensures
        match r {
            Some(v) => spec_parse_json(s@) == Some(v.rep()),
            None => spec_parse_json(s@) is None,
        },
{
    match parse_value(s, 0) {
        Some((v, e)) => {
            let t = skip_ws(s, e);
            if t == s.len() {
                Some(v)
            } else {
                None
            }
        },
        None => None,
    }
}

/// Looks a key up among an object's members; the first binding wins.
pub fn get_member<'a>(members: &'a Vec<(String, JsonValue)>, key: &str) -> (r: Option<
    &'a JsonValue,
>)
    ensures
        match r {
            Some(v) => obj_get(member_reps_of(members@), key@) == Some(v.rep()),
            None => obj_get(member_reps_of(members@), key@) is None,
        },
{
    let n = members.len();
    let mut i: usize = 0;
    proof {
        lemma_member_reps_of(members@);
        assert(member_reps_of(members@).skip(0) =~= member_reps_of(members@));
    }
    while i < n
        invariant
            i <= n,
            n == members@.len(),
            member_reps_of(members@).len() == n,
            forall|k: int|
                0 <= k < members@.len() ==> #[trigger] member_reps_of(members@)[k] == (
                    members@[k].0@,
                    members@[k].1.rep(),
                ),
            forall|k: int| 0 <= k < i ==> #[trigger] members@[k].0@ != key@,
            obj_get(member_reps_of(members@), key@) == obj_get(
                member_reps_of(members@).skip(i as int),
                key@,
            ),
        decreases n - i,
    {
        proof {
            assert(member_reps_of(members@).skip(i as int)[0] == member_reps_of(members@)[
                i as int
            ]);
            assert(member_reps_of(members@).skip(i as int).drop_first() =~= member_reps_of(
                members@,
            ).skip(i as int + 1));
        }
        if crate::util::str_eq(members[i].0.as_str(), key) {
            return Some(&members[i].1);
        }
        i = i + 1;
    }
    proof {
        assert(member_reps_of(members@).skip(n as int) =~= Seq::<(Seq<char>, JsonRep)>::empty());
    }
    None
}

} // verus!
