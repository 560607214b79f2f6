//! The outside text functions the deserializers rely on: UTF-8 decoding
//! from std and XML (un)escaping from `quick_xml`.

use vstd::prelude::*;
use vstd::utf8::*;

use core::str::Utf8Error;
use quick_xml::encoding::EncodingError;
use quick_xml::escape::EscapeError;

verus! {

#[verifier::external_type_specification]
#[verifier::external_body]
pub struct ExUtf8Error(Utf8Error);

#[verifier::external_type_specification]
#[verifier::external_body]
pub struct ExEscapeError(EscapeError);

#[verifier::external_type_specification]
#[verifier::external_body]
pub struct ExEncodingError(EncodingError);

/// `std::str::from_utf8`: succeeds exactly on valid UTF-8 input and then
/// gives back the characters that the bytes encode.
#[verifier::external_body]
pub(crate) fn str_from_utf8(bytes: &[u8]) -> (r: Result<&str, Utf8Error>)
    ensures
        r is Ok <==> valid_utf8(bytes@),
        r matches Ok(s) ==> s@ == decode_utf8(bytes@),
{
    core::str::from_utf8(bytes)
}

/// What `quick_xml::escape::unescape` makes of a string: `None` when it
/// rejects the string, otherwise the text with every entity and character
/// reference replaced.
pub uninterp spec fn xml_unescape(raw: Seq<char>) -> Option<Seq<char>>;

/// `quick_xml::escape::unescape`. The result is named by [`xml_unescape`].
/// Beside that, the source shows that a string without `&` is returned as it
/// is, and that the output of `quick_xml::escape::escape` (where every `&`
/// starts one of the five entities `&lt;`, `&gt;`, `&amp;`, `&apos;`, `&quot;`,
/// which it resolves) unescapes back to the escaped string.
#[verifier::external_body]
pub(crate) fn unescape(raw: &str) -> (r: Result<String, EscapeError>)
    ensures
        r is Ok <==> xml_unescape(raw@) is Some,
        r matches Ok(s) ==> xml_unescape(raw@) == Some(s@),
        !raw@.contains('&') ==> r is Ok,
        r matches Ok(s) ==> (!raw@.contains('&') ==> s@ == raw@),
        forall|t: Seq<char>| #[trigger] xml_escape(t) == raw@ ==> r is Ok,
        forall|t: Seq<char>| #[trigger] xml_escape(t) == raw@ ==> (r matches Ok(s) ==> s@ == t),
{
    quick_xml::escape::unescape(raw).map(|s| s.into_owned())
}

/// The replacement `quick_xml::escape::escape` writes for one character.
pub open spec fn escaped_char(c: char) -> Seq<char> {
    if c == '<' {
        seq!['&', 'l', 't', ';']
    } else if c == '>' {
        seq!['&', 'g', 't', ';']
    } else if c == '&' {
        seq!['&', 'a', 'm', 'p', ';']
    } else if c == '\'' {
        seq!['&', 'a', 'p', 'o', 's', ';']
    } else if c == '"' {
        seq!['&', 'q', 'u', 'o', 't', ';']
    } else {
        seq![c]
    }
}

/// A string with `<`, `>`, `&`, `'` and `"` replaced by their entities.
pub open spec fn xml_escape(s: Seq<char>) -> Seq<char>
    decreases s.len(),
{
    if s.len() == 0 {
        Seq::empty()
    } else {
        escaped_char(s[0]) + xml_escape(s.drop_first())
    }
}

/// `quick_xml::escape::escape`: replaces the five XML special characters
/// by their entities and keeps every other character.
#[verifier::external_body]
pub(crate) fn escape(raw: &str) -> (r: String)
    ensures
        r@ == xml_escape(raw@),
{
    quick_xml::escape::escape(raw).into_owned()
}

/// `BytesText::from_escaped(text).decode()` of `quick_xml`. Such a text holds
/// UTF-8 bytes and is decoded as UTF-8, so decoding gives back `text`.
#[verifier::external_body]
pub(crate) fn decode_escaped_text(text: &str) -> (r: Result<String, EncodingError>)
    ensures
        r is Ok,
        r matches Ok(s) ==> s@ == text@,
{
    quick_xml::events::BytesText::from_escaped(text).decode().map(|s| s.into_owned())
}

} // verus!
