//! Deserialization of simple values from the raw bytes of an attribute or
//! of element content.

use vstd::prelude::*;
use vstd::string::*;
use vstd::utf8::*;

use crate::bytes::{ascii, ascii_bytes, bytes_eq};
use crate::error::{same_error, DeserializeStrError, Error, IntErrorKind};
use crate::escape::str_from_utf8;

verus! {

/// Types that can be deserialized from the raw bytes of an attribute value or
/// of the content of an element.
pub trait DeserializeBytes: Sized + View {
    /// The value that `bytes` denote, or `None` when the type rejects them.
    spec fn from_bytes_spec(bytes: Seq<u8>) -> Option<Self::V>;

    /// `e` is the error with which the type rejects `bytes`.
    spec fn rejects(bytes: Seq<u8>, e: Error) -> bool;

    /// The type rejects bytes with one error only, up to the views of its
    /// fields (see [`same_error`]).
    proof fn lemma_rejects_same(bytes: Seq<u8>, a: Error, b: Error)
        requires
            Self::rejects(bytes, a),
            Self::rejects(bytes, b),
        ensures
            same_error(a, b),
    ;

    /// Try to deserialize the type from bytes.
    fn deserialize_bytes(bytes: &[u8]) -> (r: Result<Self, Error>)
        ensures
            r is Ok <==> Self::from_bytes_spec(bytes@) is Some,
            r matches Ok(v) ==> Self::from_bytes_spec(bytes@) == Some(v@),
            r matches Err(e) ==> Self::rejects(bytes@, e),
    ;

    /// Deserializes the type from the UTF-8 bytes of `s`: the same as
    /// deserializing those bytes.
    fn deserialize_str(s: &str) -> (r: Result<Self, Error>)
        ensures
            r is Ok <==> Self::from_bytes_spec(s.spec_bytes()) is Some,
            r matches Ok(v) ==> Self::from_bytes_spec(s.spec_bytes()) == Some(v@),
            r matches Err(e) ==> Self::rejects(s.spec_bytes(), e),
    {
        Self::deserialize_bytes(s.as_bytes())
    }
}

/// `r` is what deserializing `bytes` as a `T` gives: the value `bytes` denote,
/// or the error with which `T` rejects them (see
/// [`DeserializeBytes::deserialize_bytes`]).
pub open spec fn parses<T: DeserializeBytes>(bytes: Seq<u8>, r: Result<T, Error>) -> bool {
    &&& r is Ok <==> T::from_bytes_spec(bytes) is Some
    &&& r matches Ok(v) ==> T::from_bytes_spec(bytes) == Some(v@)
    &&& r matches Err(e) ==> T::rejects(bytes, e)
}

/// Deserializing a string is deserializing its UTF-8 bytes: two answers that
/// [`parses`] describes for the same bytes agree on success, on the value
/// (by its view), and on the error (see [`same_error`]).
pub proof fn lemma_str_parses_as_bytes<T: DeserializeBytes>(
    bytes: Seq<u8>,
    from_str: Result<T, Error>,
    from_bytes: Result<T, Error>,
)
    requires
        parses::<T>(bytes, from_str),
        parses::<T>(bytes, from_bytes),
    ensures
        from_str is Ok <==> from_bytes is Ok,
        from_str matches Ok(a) ==> (from_bytes matches Ok(b) && a@ == b@),
        from_str matches Err(e) ==> T::rejects(bytes, e),
        from_bytes matches Err(e) ==> T::rejects(bytes, e),
        from_str matches Err(a) ==> (from_bytes matches Err(b) && same_error(a, b)),
{
    if let Err(a) = from_str {
        if let Err(b) = from_bytes {
            T::lemma_rejects_same(bytes, a, b);
        }
    }
}

/// A type parsed from text fails on bytes that are not UTF-8, with
/// [`Error::InvalidUtf8`].
pub proof fn lemma_invalid_utf8_fails<T: DeserializeBytesFromStr>(bytes: Seq<u8>, r: Result<T, Error>)
    requires
        parses::<T>(bytes, r),
        !valid_utf8(bytes),
    ensures
        r matches Err(e) && e is InvalidUtf8,
{
    if let Err(e) = r {
        T::lemma_utf8_first(bytes, e);
    } else {
        T::lemma_utf8_first(bytes, Error::InvalidUtf8);
    }
}

/// Marks the types whose byte deserialization reads the bytes as UTF-8 text and
/// parses that text: bytes that are not UTF-8 are rejected, always with
/// [`Error::InvalidUtf8`], before any parsing.
pub trait DeserializeBytesFromStr: DeserializeBytes {
    /// Bytes that are not UTF-8 are rejected with [`Error::InvalidUtf8`].
    proof fn lemma_utf8_first(bytes: Seq<u8>, e: Error)
        requires
            !valid_utf8(bytes),
        ensures
            Self::from_bytes_spec(bytes) is None,
            Self::rejects(bytes, e) ==> e is InvalidUtf8,
    ;
}

impl DeserializeBytesFromStr for String {
    proof fn lemma_utf8_first(bytes: Seq<u8>, e: Error) {
    }
}

impl DeserializeBytesFromStr for u8 {
    proof fn lemma_utf8_first(bytes: Seq<u8>, e: Error) {
    }
}

impl DeserializeBytesFromStr for u16 {
    proof fn lemma_utf8_first(bytes: Seq<u8>, e: Error) {
    }
}

impl DeserializeBytesFromStr for u32 {
    proof fn lemma_utf8_first(bytes: Seq<u8>, e: Error) {
    }
}

impl DeserializeBytesFromStr for u64 {
    proof fn lemma_utf8_first(bytes: Seq<u8>, e: Error) {
    }
}

impl DeserializeBytesFromStr for usize {
    proof fn lemma_utf8_first(bytes: Seq<u8>, e: Error) {
    }
}

impl DeserializeBytesFromStr for i8 {
    proof fn lemma_utf8_first(bytes: Seq<u8>, e: Error) {
    }
}

impl DeserializeBytesFromStr for i16 {
    proof fn lemma_utf8_first(bytes: Seq<u8>, e: Error) {
    }
}

impl DeserializeBytesFromStr for i32 {
    proof fn lemma_utf8_first(bytes: Seq<u8>, e: Error) {
    }
}

impl DeserializeBytesFromStr for i64 {
    proof fn lemma_utf8_first(bytes: Seq<u8>, e: Error) {
    }
}

impl DeserializeBytesFromStr for isize {
    proof fn lemma_utf8_first(bytes: Seq<u8>, e: Error) {
    }
}

/* bool */

/// The spellings of `true` and `false` that a boolean accepts.
pub open spec fn bool_from_bytes(b: Seq<u8>) -> Option<bool> {
    if b == ascii("TRUE"@) || b == ascii("True"@) || b == ascii("true"@) || b == ascii("YES"@)
        || b == ascii("Yes"@) || b == ascii("yes"@) || b == ascii("1"@) {
        Some(true)
    } else if b == ascii("FALSE"@) || b == ascii("False"@) || b == ascii("false"@) || b == ascii(
        "NO"@,
    ) || b == ascii("No"@) || b == ascii("no"@) || b == ascii("0"@) {
        Some(false)
    } else {
        None
    }
}

fn is_word(bytes: &[u8], word: &str) -> (r: bool)
    requires
        word.is_ascii(),
    ensures
        r == (bytes@ == ascii(word@)),
{
    bytes_eq(bytes, ascii_bytes(word))
}

impl DeserializeBytes for bool {
    open spec fn from_bytes_spec(bytes: Seq<u8>) -> Option<bool> {
        bool_from_bytes(bytes)
    }

    /// Unknown spellings are [`Error::UnknownOrInvalidValue`] with the bytes.
    open spec fn rejects(bytes: Seq<u8>, e: Error) -> bool {
        e matches Error::UnknownOrInvalidValue(v) && v@ == bytes
    }

    proof fn lemma_rejects_same(bytes: Seq<u8>, a: Error, b: Error) {
    }

    fn deserialize_bytes(bytes: &[u8]) -> (r: Result<bool, Error>) {
        proof {
            reveal_strlit("TRUE");
            reveal_strlit("True");
            reveal_strlit("true");
            reveal_strlit("YES");
            reveal_strlit("Yes");
            reveal_strlit("yes");
            reveal_strlit("1");
            reveal_strlit("FALSE");
            reveal_strlit("False");
            reveal_strlit("false");
            reveal_strlit("NO");
            reveal_strlit("No");
            reveal_strlit("no");
            reveal_strlit("0");
        }
        if is_word(bytes, "TRUE") || is_word(bytes, "True") || is_word(bytes, "true") || is_word(
            bytes,
            "YES",
        ) || is_word(bytes, "Yes") || is_word(bytes, "yes") || is_word(bytes, "1") {
            Ok(true)
        } else if is_word(bytes, "FALSE") || is_word(bytes, "False") || is_word(bytes, "false")
            || is_word(bytes, "NO") || is_word(bytes, "No") || is_word(bytes, "no") || is_word(
            bytes,
            "0",
        ) {
            Ok(false)
        } else {
            Err(Error::UnknownOrInvalidValue(crate::bytes::to_vec(bytes)))
        }
    }
}

/* String */

/// The text that UTF-8 bytes encode, or `None` when they are not valid UTF-8.
pub open spec fn utf8_text(bytes: Seq<u8>) -> Option<Seq<char>> {
    if valid_utf8(bytes) {
        Some(decode_utf8(bytes))
    } else {
        None
    }
}

impl DeserializeBytes for String {
    open spec fn from_bytes_spec(bytes: Seq<u8>) -> Option<Seq<char>> {
        utf8_text(bytes)
    }

    /// Bytes that are not UTF-8 are [`Error::InvalidUtf8`].
    open spec fn rejects(bytes: Seq<u8>, e: Error) -> bool {
        e is InvalidUtf8
    }

    proof fn lemma_rejects_same(bytes: Seq<u8>, a: Error, b: Error) {
    }

    fn deserialize_bytes(bytes: &[u8]) -> (r: Result<String, Error>) {
        match str_from_utf8(bytes) {
            Ok(s) => Ok(s.to_owned()),
            Err(_) => Err(Error::InvalidUtf8),
        }
    }
}

/* integers */

/// Decimal digits `0` to `9`.
pub open spec fn is_digit(b: u8) -> bool {
    0x30u8 <= b <= 0x39u8
}

/// Reads `digits` from the left like the integer parsers of the standard
/// library: each step first checks the digit, then whether the value still
/// lies in `min ..= max`.
pub open spec fn digits_value(digits: Seq<u8>, negative: bool, min: int, max: int) -> Result<
    int,
    IntErrorKind,
>
    decreases digits.len(),
{
    if digits.len() == 0 {
        Ok(0)
    } else {
        match digits_value(digits.drop_last(), negative, min, max) {
            Err(e) => Err(e),
            Ok(acc) => {
                let d = digits.last();
                if !is_digit(d) {
                    Err(IntErrorKind::InvalidDigit)
                } else {
                    let v = if negative {
                        acc * 10 - (d - 0x30u8)
                    } else {
                        acc * 10 + (d - 0x30u8)
                    };
                    if v > max {
                        Err(IntErrorKind::PosOverflow)
                    } else if v < min {
                        Err(IntErrorKind::NegOverflow)
                    } else {
                        Ok(v)
                    }
                }
            },
        }
    }
}

/// Decimal integer syntax: an optional `+` (or `-` when negative values exist)
/// followed by digits, with a value in `min ..= max`.
pub open spec fn int_from_ascii(s: Seq<u8>, min: int, max: int) -> Result<int, IntErrorKind> {
    if s.len() == 0 {
        Err(IntErrorKind::Empty)
    } else if s.len() == 1 && (s[0] == 0x2Bu8 || s[0] == 0x2Du8) {
        Err(IntErrorKind::InvalidDigit)
    } else if s[0] == 0x2Bu8 {
        digits_value(s.drop_first(), false, min, max)
    } else if s[0] == 0x2Du8 && min < 0 {
        digits_value(s.drop_first(), true, min, max)
    } else {
        digits_value(s, false, min, max)
    }
}

/// The integer in `min ..= max` that `bytes` spell, if any.
pub open spec fn int_from_bytes(bytes: Seq<u8>, min: int, max: int) -> Option<int> {
    if valid_utf8(bytes) {
        match int_from_ascii(bytes, min, max) {
            Ok(v) => Some(v),
            Err(_) => None,
        }
    } else {
        None
    }
}

proof fn lemma_digits_value_range(digits: Seq<u8>, negative: bool, min: int, max: int)
    ensures
        digits_value(digits, negative, min, max) matches Ok(v) ==> (digits.len() == 0 || min <= v
            <= max),
        digits_value(digits, negative, min, max) matches Ok(v) ==> (negative ==> v <= 0),
        digits_value(digits, negative, min, max) matches Ok(v) ==> (!negative ==> v >= 0),
    decreases digits.len(),
{
    if digits.len() > 0 {
        lemma_digits_value_range(digits.drop_last(), negative, min, max);
    }
}

fn parse_digits(s: &[u8], start: usize, negative: bool, min: i128, max: i128) -> (r: Result<
    i128,
    IntErrorKind,
>)
    requires
        start <= s@.len(),
        min <= 0 <= max,
        max <= u64::MAX,
        min >= i64::MIN,
    ensures
        r matches Ok(v) ==> digits_value(s@.subrange(start as int, s@.len() as int), negative, min as int, max as int) == Ok::<int, IntErrorKind>(v as int),
        r matches Err(k) ==> digits_value(s@.subrange(start as int, s@.len() as int), negative, min as int, max as int) == Err::<int, IntErrorKind>(k),
{
    let mut acc: i128 = 0;
    let mut i: usize = start;
    while i < s.len()
        invariant
            start <= i <= s@.len(),
            min <= 0 <= max,
            max <= u64::MAX,
            min >= i64::MIN,
            min <= acc <= max,
            digits_value(s@.subrange(start as int, i as int), negative, min as int, max as int)
                == Ok::<int, IntErrorKind>(acc as int),
        decreases s@.len() - i,
    {
        let d = s[i];
        assert(s@.subrange(start as int, i + 1).drop_last() =~= s@.subrange(start as int, i as int));
        if d < 0x30u8 || d > 0x39u8 {
            proof {
                lemma_digits_value_error_extends(s@, start as int, i as int + 1, IntErrorKind::InvalidDigit, negative, min as int, max as int);
            }
            return Err(IntErrorKind::InvalidDigit);
        }
        let v: i128 = if negative {
            acc * 10 - ((d - 0x30u8) as i128)
        } else {
            acc * 10 + ((d - 0x30u8) as i128)
        };
        if v > max {
            proof {
                lemma_digits_value_error_extends(s@, start as int, i as int + 1, IntErrorKind::PosOverflow, negative, min as int, max as int);
            }
            return Err(IntErrorKind::PosOverflow);
        }
        if v < min {
            proof {
                lemma_digits_value_error_extends(s@, start as int, i as int + 1, IntErrorKind::NegOverflow, negative, min as int, max as int);
            }
            return Err(IntErrorKind::NegOverflow);
        }
        acc = v;
        i = i + 1;
    }
    Ok(acc)
}

/// Once a prefix of the digits fails, the whole sequence fails the same way.
proof fn lemma_digits_value_error_extends(s: Seq<u8>, start: int, i: int, k: IntErrorKind, negative: bool, min: int, max: int)
    requires
        0 <= start <= i <= s.len(),
        digits_value(s.subrange(start, i), negative, min, max) == Err::<int, IntErrorKind>(k),
    ensures
        digits_value(s.subrange(start, s.len() as int), negative, min, max) == Err::<int, IntErrorKind>(k),
    decreases s.len() - i,
{
    if i < s.len() {
        assert(s.subrange(start, i + 1).drop_last() =~= s.subrange(start, i));
        lemma_digits_value_error_extends(s, start, i + 1, k, negative, min, max);
    }
}

/// How an integer type with values `min ..= max` rejects `bytes`: bytes that
/// are not UTF-8 are [`Error::InvalidUtf8`]; otherwise
/// [`Error::InvalidNumber`] carries the text and why it is no such integer.
pub open spec fn int_rejects(bytes: Seq<u8>, min: int, max: int, e: Error) -> bool {
    if !valid_utf8(bytes) {
        e is InvalidUtf8
    } else {
        &&& e matches Error::InvalidNumber(p)
        &&& int_from_ascii(bytes, min, max) == Err::<int, IntErrorKind>(p.error)
        &&& p.value@ == decode_utf8(bytes)
    }
}

/// Parses a decimal integer in `min ..= max` from UTF-8 bytes.
fn deserialize_int(bytes: &[u8], min: i128, max: i128) -> (r: Result<i128, Error>)
    requires
        min <= 0 <= max,
        max <= u64::MAX,
        min >= i64::MIN,
    ensures
        r is Ok <==> int_from_bytes(bytes@, min as int, max as int) is Some,
        r matches Ok(v) ==> int_from_bytes(bytes@, min as int, max as int) == Some(v as int),
        r matches Ok(v) ==> min <= v <= max,
        !valid_utf8(bytes@) ==> (r matches Err(e) && e is InvalidUtf8),
        valid_utf8(bytes@) ==> (r matches Err(e) ==> (e matches Error::InvalidNumber(p) && int_from_ascii(bytes@, min as int, max as int) == Err::<int, IntErrorKind>(p.error) && p.value@ == decode_utf8(bytes@))),
{
    let s = match str_from_utf8(bytes) {
        Ok(s) => s,
        Err(_) => {
            return Err(Error::InvalidUtf8);
        },
    };
    let n = bytes.len();
    let parsed = if n == 0 {
        Err(IntErrorKind::Empty)
    } else if n == 1 && (bytes[0] == 0x2Bu8 || bytes[0] == 0x2Du8) {
        Err(IntErrorKind::InvalidDigit)
    } else if bytes[0] == 0x2Bu8 {
        assert(bytes@.drop_first() =~= bytes@.subrange(1, n as int));
        parse_digits(bytes, 1, false, min, max)
    } else if bytes[0] == 0x2Du8 && min < 0 {
        assert(bytes@.drop_first() =~= bytes@.subrange(1, n as int));
        parse_digits(bytes, 1, true, min, max)
    } else {
        assert(bytes@ =~= bytes@.subrange(0, n as int));
        parse_digits(bytes, 0, false, min, max)
    };
    match parsed {
        Ok(v) => {
            proof {
                let t = if bytes@[0] == 0x2Bu8 || (bytes@[0] == 0x2Du8 && min < 0) {
                    bytes@.subrange(1, n as int)
                } else {
                    bytes@.subrange(0, n as int)
                };
                lemma_digits_value_range(t, bytes@[0] == 0x2Du8 && min < 0, min as int, max as int);
                lemma_digits_value_range(t, false, min as int, max as int);
            }
            Ok(v)
        },
        Err(k) => Err(Error::InvalidNumber(DeserializeStrError { value: s.to_owned(), error: k })),
    }
}

impl DeserializeBytes for u8 {
    open spec fn from_bytes_spec(bytes: Seq<u8>) -> Option<u8> {
        match int_from_bytes(bytes, 0 as int, u8::MAX as int) {
            Some(v) => Some(v as u8),
            None => None,
        }
    }

    open spec fn rejects(bytes: Seq<u8>, e: Error) -> bool {
        int_rejects(bytes, 0 as int, u8::MAX as int, e)
    }

    proof fn lemma_rejects_same(bytes: Seq<u8>, a: Error, b: Error) {
    }

    fn deserialize_bytes(bytes: &[u8]) -> (r: Result<u8, Error>) {
        match deserialize_int(bytes, 0 as i128, u8::MAX as i128) {
            Ok(v) => Ok(v as u8),
            Err(e) => Err(e),
        }
    }
}

impl DeserializeBytes for u16 {
    open spec fn from_bytes_spec(bytes: Seq<u8>) -> Option<u16> {
        match int_from_bytes(bytes, 0 as int, u16::MAX as int) {
            Some(v) => Some(v as u16),
            None => None,
        }
    }

    open spec fn rejects(bytes: Seq<u8>, e: Error) -> bool {
        int_rejects(bytes, 0 as int, u16::MAX as int, e)
    }

    proof fn lemma_rejects_same(bytes: Seq<u8>, a: Error, b: Error) {
    }

    fn deserialize_bytes(bytes: &[u8]) -> (r: Result<u16, Error>) {
        match deserialize_int(bytes, 0 as i128, u16::MAX as i128) {
            Ok(v) => Ok(v as u16),
            Err(e) => Err(e),
        }
    }
}

impl DeserializeBytes for u32 {
    open spec fn from_bytes_spec(bytes: Seq<u8>) -> Option<u32> {
        match int_from_bytes(bytes, 0 as int, u32::MAX as int) {
            Some(v) => Some(v as u32),
            None => None,
        }
    }

    open spec fn rejects(bytes: Seq<u8>, e: Error) -> bool {
        int_rejects(bytes, 0 as int, u32::MAX as int, e)
    }

    proof fn lemma_rejects_same(bytes: Seq<u8>, a: Error, b: Error) {
    }

    fn deserialize_bytes(bytes: &[u8]) -> (r: Result<u32, Error>) {
        match deserialize_int(bytes, 0 as i128, u32::MAX as i128) {
            Ok(v) => Ok(v as u32),
            Err(e) => Err(e),
        }
    }
}

impl DeserializeBytes for u64 {
    open spec fn from_bytes_spec(bytes: Seq<u8>) -> Option<u64> {
        match int_from_bytes(bytes, 0 as int, u64::MAX as int) {
            Some(v) => Some(v as u64),
            None => None,
        }
    }

    open spec fn rejects(bytes: Seq<u8>, e: Error) -> bool {
        int_rejects(bytes, 0 as int, u64::MAX as int, e)
    }

    proof fn lemma_rejects_same(bytes: Seq<u8>, a: Error, b: Error) {
    }

    fn deserialize_bytes(bytes: &[u8]) -> (r: Result<u64, Error>) {
        match deserialize_int(bytes, 0 as i128, u64::MAX as i128) {
            Ok(v) => Ok(v as u64),
            Err(e) => Err(e),
        }
    }
}

impl DeserializeBytes for usize {
    open spec fn from_bytes_spec(bytes: Seq<u8>) -> Option<usize> {
        match int_from_bytes(bytes, 0 as int, usize::MAX as int) {
            Some(v) => Some(v as usize),
            None => None,
        }
    }

    open spec fn rejects(bytes: Seq<u8>, e: Error) -> bool {
        int_rejects(bytes, 0 as int, usize::MAX as int, e)
    }

    proof fn lemma_rejects_same(bytes: Seq<u8>, a: Error, b: Error) {
    }

    fn deserialize_bytes(bytes: &[u8]) -> (r: Result<usize, Error>) {
        match deserialize_int(bytes, 0 as i128, usize::MAX as i128) {
            Ok(v) => Ok(v as usize),
            Err(e) => Err(e),
        }
    }
}

impl DeserializeBytes for i8 {
    open spec fn from_bytes_spec(bytes: Seq<u8>) -> Option<i8> {
        match int_from_bytes(bytes, i8::MIN as int, i8::MAX as int) {
            Some(v) => Some(v as i8),
            None => None,
        }
    }

    open spec fn rejects(bytes: Seq<u8>, e: Error) -> bool {
        int_rejects(bytes, i8::MIN as int, i8::MAX as int, e)
    }

    proof fn lemma_rejects_same(bytes: Seq<u8>, a: Error, b: Error) {
    }

    fn deserialize_bytes(bytes: &[u8]) -> (r: Result<i8, Error>) {
        match deserialize_int(bytes, i8::MIN as i128, i8::MAX as i128) {
            Ok(v) => Ok(v as i8),
            Err(e) => Err(e),
        }
    }
}

impl DeserializeBytes for i16 {
    open spec fn from_bytes_spec(bytes: Seq<u8>) -> Option<i16> {
        match int_from_bytes(bytes, i16::MIN as int, i16::MAX as int) {
            Some(v) => Some(v as i16),
            None => None,
        }
    }

    open spec fn rejects(bytes: Seq<u8>, e: Error) -> bool {
        int_rejects(bytes, i16::MIN as int, i16::MAX as int, e)
    }

    proof fn lemma_rejects_same(bytes: Seq<u8>, a: Error, b: Error) {
    }

    fn deserialize_bytes(bytes: &[u8]) -> (r: Result<i16, Error>) {
        match deserialize_int(bytes, i16::MIN as i128, i16::MAX as i128) {
            Ok(v) => Ok(v as i16),
            Err(e) => Err(e),
        }
    }
}

impl DeserializeBytes for i32 {
    open spec fn from_bytes_spec(bytes: Seq<u8>) -> Option<i32> {
        match int_from_bytes(bytes, i32::MIN as int, i32::MAX as int) {
            Some(v) => Some(v as i32),
            None => None,
        }
    }

    open spec fn rejects(bytes: Seq<u8>, e: Error) -> bool {
        int_rejects(bytes, i32::MIN as int, i32::MAX as int, e)
    }

    proof fn lemma_rejects_same(bytes: Seq<u8>, a: Error, b: Error) {
    }

    fn deserialize_bytes(bytes: &[u8]) -> (r: Result<i32, Error>) {
        match deserialize_int(bytes, i32::MIN as i128, i32::MAX as i128) {
            Ok(v) => Ok(v as i32),
            Err(e) => Err(e),
        }
    }
}

impl DeserializeBytes for i64 {
    open spec fn from_bytes_spec(bytes: Seq<u8>) -> Option<i64> {
        match int_from_bytes(bytes, i64::MIN as int, i64::MAX as int) {
            Some(v) => Some(v as i64),
            None => None,
        }
    }

    open spec fn rejects(bytes: Seq<u8>, e: Error) -> bool {
        int_rejects(bytes, i64::MIN as int, i64::MAX as int, e)
    }

    proof fn lemma_rejects_same(bytes: Seq<u8>, a: Error, b: Error) {
    }

    fn deserialize_bytes(bytes: &[u8]) -> (r: Result<i64, Error>) {
        match deserialize_int(bytes, i64::MIN as i128, i64::MAX as i128) {
            Ok(v) => Ok(v as i64),
            Err(e) => Err(e),
        }
    }
}

impl DeserializeBytes for isize {
    open spec fn from_bytes_spec(bytes: Seq<u8>) -> Option<isize> {
        match int_from_bytes(bytes, isize::MIN as int, isize::MAX as int) {
            Some(v) => Some(v as isize),
            None => None,
        }
    }

    open spec fn rejects(bytes: Seq<u8>, e: Error) -> bool {
        int_rejects(bytes, isize::MIN as int, isize::MAX as int, e)
    }

    proof fn lemma_rejects_same(bytes: Seq<u8>, a: Error, b: Error) {
    }

    fn deserialize_bytes(bytes: &[u8]) -> (r: Result<isize, Error>) {
        match deserialize_int(bytes, isize::MIN as i128, isize::MAX as i128) {
            Ok(v) => Ok(v as isize),
            Err(e) => Err(e),
        }
    }
}

} // verus!
