//! Text values of XML documents and their (de)serializers.

use vstd::prelude::*;
use vstd::string::*;
use vstd::utf8::*;

use crate::bytes::to_vec;
use crate::deserializer::{Deserializer, WithDeserializer};
use crate::error::Error;
use crate::escape::{escape, str_from_utf8, unescape, xml_escape, xml_unescape};
use crate::event::{DeserializerArtifact, DeserializerEvent, DeserializerOutput, Event};

verus! {

/// Type to represent text values inside a XML.
#[derive(Debug, Clone, Hash, PartialEq, Eq, PartialOrd, Ord)]
pub struct Text(pub String);

impl View for Text {
    type V = Seq<char>;

    open spec fn view(&self) -> Seq<char> {
        self.0@
    }
}

impl Text {
    /// Create a new [`Text`] instance from the passed `value`.
    pub fn new(value: String) -> (r: Self)
        ensures
            r@ == value@,
    {
        Text(value)
    }

    /// Return the content of this text object as string slice.
    pub fn as_str(&self) -> (r: &str)
        ensures
            r@ == self@,
    {
        self.0.as_str()
    }

    /// The content of this text object as a new string.
    pub fn to_string(&self) -> (r: String)
        ensures
            r@ == self@,
    {
        self.0.clone()
    }

    /// The serializer that writes this text as an escaped text event.
    pub fn serializer<'ser>(&'ser self) -> (r: Result<TextSerializer<'ser>, Error>)
        ensures
            r == Ok::<TextSerializer<'ser>, Error>(TextSerializer::Emit { value: self }),
    {
        Ok(TextSerializer::Emit { value: self })
    }
}

impl From<String> for Text {
    fn from(value: String) -> (r: Self) {
        Text(value)
    }
}

impl vstd::std_specs::convert::FromSpecImpl<String> for Text {
    open spec fn obeys_from_spec() -> bool {
        true
    }

    open spec fn from_spec(v: String) -> Self {
        Text(v)
    }
}

impl core::ops::Deref for Text {
    type Target = String;

    fn deref(&self) -> (r: &String)
        ensures
            r@ == self@,
    {
        &self.0
    }
}

impl Default for Text {
    fn default() -> (r: Self)
        ensures
            r@ == Seq::<char>::empty(),
    {
        Text(String::new())
    }
}

/// Serializer for [`Text`]: emits one escaped text event, then nothing.
#[derive(Debug)]
pub enum TextSerializer<'ser> {
    /// Emit the event for the contained text value.
    Emit {
        /// Value to emit the event for.
        value: &'ser Text,
    },
    /// Serialization is done.
    Done,
}

impl<'ser> TextSerializer<'ser> {
    /// The next event of the serialization: the escaped text once, then `None`.
    pub fn next(&mut self) -> (r: Option<Result<Event, Error>>)
        ensures
            *final(self) is Done,
            match *old(self) {
                TextSerializer::Emit { value } => (r matches Some(Ok(Event::Text(b)))
                    && b@ == encode_utf8(xml_escape(value@))),
                TextSerializer::Done => r is None,
            },
    {
        match *self {
            TextSerializer::Emit { value } => {
                *self = TextSerializer::Done;
                let escaped = escape(value.0.as_str());
                let bytes = to_vec(escaped.as_str().as_bytes());
                Some(Ok(Event::Text(bytes)))
            },
            TextSerializer::Done => None,
        }
    }
}

/// Deserializer for [`Text`].
#[derive(Debug)]
pub enum TextDeserializer {
    /// Nothing has been read yet.
    Init,
    /// The text read so far.
    Text {
        /// Already deserialized text.
        value: Text,
    },
}

impl View for TextDeserializer {
    /// The text read so far, `None` before the first piece.
    type V = Option<Seq<char>>;

    open spec fn view(&self) -> Option<Seq<char>> {
        match self {
            TextDeserializer::Init => None,
            TextDeserializer::Text { value } => Some(value@),
        }
    }
}

/// The text events that add to a text value.
pub open spec fn is_text_piece_event(e: Event) -> bool {
    e is Text || e is CData || e is GeneralRef
}

/// The characters a text event adds: text is decoded and unescaped, character
/// data is decoded, and a reference `&x;` is unescaped. `None` when the event
/// is not valid UTF-8 or does not unescape.
pub open spec fn text_piece(e: Event) -> Option<Seq<char>> {
    match e {
        Event::Text(x) => if valid_utf8(x@) {
            xml_unescape(decode_utf8(x@))
        } else {
            None
        },
        Event::CData(x) => if valid_utf8(x@) {
            Some(decode_utf8(x@))
        } else {
            None
        },
        Event::GeneralRef(x) => if valid_utf8(x@) {
            xml_unescape(seq!['&'] + decode_utf8(x@) + seq![';'])
        } else {
            None
        },
        _ => None,
    }
}

/// The bytes of a text event.
pub open spec fn text_bytes(e: Event) -> Seq<u8> {
    match e {
        Event::Text(x) => x@,
        _ => Seq::empty(),
    }
}

/// The text gathered so far (empty before the first piece).
pub open spec fn gathered(v: Option<Seq<char>>) -> Seq<char> {
    match v {
        Some(s) => s,
        None => Seq::empty(),
    }
}

/// What [`TextDeserializer::finish`] gives: the text read so far, or
/// [`Error::MissingContent`] when no text was read.
pub open spec fn text_finish_ensures(d: TextDeserializer, r: Result<Text, Error>) -> bool {
    match d {
        TextDeserializer::Init => r matches Err(e) && e is MissingContent,
        TextDeserializer::Text { value } => r == Ok::<Text, Error>(value),
    }
}

impl TextDeserializer {
    /// Initializes the deserializer with the first event.
    pub fn init(event: Event) -> (r: Result<DeserializerOutput<Text, Self>, Error>)
        ensures
            text_next_ensures(TextDeserializer::Init, event, r),
    {
        TextDeserializer::Init.next(event)
    }

    /// Processes the next event. Text pieces are appended; a start, empty or
    /// end tag finishes the text and is handed back to the parent; any other
    /// event is handed back to the root.
    pub fn next(self, event: Event) -> (r: Result<DeserializerOutput<Text, Self>, Error>)
        ensures
            text_next_ensures(self, event, r),
    {
        let (text, should_unescape) = match event {
            Event::Text(x) => {
                match str_from_utf8(x.as_slice()) {
                    Ok(s) => (s.to_owned(), true),
                    Err(_) => {
                        return Err(Error::Encoding);
                    },
                }
            },
            Event::CData(x) => {
                match str_from_utf8(x.as_slice()) {
                    Ok(s) => (s.to_owned(), false),
                    Err(_) => {
                        return Err(Error::Encoding);
                    },
                }
            },
            Event::GeneralRef(x) => {
                let name = match str_from_utf8(x.as_slice()) {
                    Ok(s) => s,
                    Err(_) => {
                        return Err(Error::InvalidUtf8);
                    },
                };
                proof {
                    reveal_strlit("&");
                    reveal_strlit(";");
                }
                let mut full = String::from_str("&");
                full.append(name);
                full.append(";");
                assert(full@ =~= seq!['&'] + decode_utf8(x@) + seq![';']);
                (full, true)
            },
            event => {
                if matches!(event, Event::Start(_) | Event::Empty(_) | Event::End(_)) {
                    let artifact = match self {
                        TextDeserializer::Init => DeserializerArtifact::Nothing,
                        TextDeserializer::Text { value } => DeserializerArtifact::Data(value),
                    };
                    return Ok(
                        DeserializerOutput {
                            event: DeserializerEvent::Continue(event),
                            artifact,
                            allow_any: false,
                        },
                    );
                } else {
                    let artifact = match self {
                        TextDeserializer::Init => DeserializerArtifact::Nothing,
                        TextDeserializer::Text { value } => DeserializerArtifact::Deserializer(
                            TextDeserializer::Text { value },
                        ),
                    };
                    return Ok(
                        DeserializerOutput {
                            event: DeserializerEvent::Break(event),
                            artifact,
                            allow_any: false,
                        },
                    );
                }
            },
        };
        let mut value = match self {
            TextDeserializer::Init => Text::default(),
            TextDeserializer::Text { value } => value,
        };
        let text = if should_unescape {
            match unescape(text.as_str()) {
                Ok(u) => u,
                Err(_) => {
                    return Err(Error::Escape);
                },
            }
        } else {
            text
        };
        value.0.append(text.as_str());
        Ok(
            DeserializerOutput {
                event: DeserializerEvent::Consumed,
                artifact: DeserializerArtifact::Deserializer(TextDeserializer::Text { value }),
                allow_any: false,
            },
        )
    }

    /// Forces the deserializer to finish: the text read so far, or an error
    /// when no text was read.
    pub fn finish(self) -> (r: Result<Text, Error>)
        ensures
            text_finish_ensures(self, r),
    {
        match self {
            TextDeserializer::Init => Err(Error::MissingContent),
            TextDeserializer::Text { value } => Ok(value),
        }
    }
}

/// What [`TextDeserializer::next`] does with `event` in state `d`.
pub open spec fn text_next_ensures(
    d: TextDeserializer,
    event: Event,
    r: Result<DeserializerOutput<Text, TextDeserializer>, Error>,
) -> bool {
    &&& is_text_piece_event(event) ==> (r is Ok <==> text_piece(event) is Some)
    &&& is_text_piece_event(event) ==> (r matches Ok(o) ==> {
        &&& o.event is Consumed
        &&& !o.allow_any
        &&& o.artifact matches DeserializerArtifact::Deserializer(n)
        &&& n@ == Some(gathered(d@) + text_piece(event)->0)
    })
    &&& event is Text ==> (valid_utf8(text_bytes(event)) ==> forall|t: Seq<char>|
        #[trigger] xml_escape(t) == decode_utf8(text_bytes(event)) ==> text_piece(event) == Some(t))
    &&& (event matches Event::Text(x) && !valid_utf8(x@)) ==> (r matches Err(e) && e is Encoding)
    &&& (event matches Event::CData(x) && !valid_utf8(x@)) ==> (r matches Err(e) && e is Encoding)
    &&& (event matches Event::GeneralRef(x) && !valid_utf8(x@)) ==> (r matches Err(e)
        && e is InvalidUtf8)
    &&& (is_text_piece_event(event) && !(event is CData) && text_piece(event) is None && (
    event matches Event::Text(x) ==> valid_utf8(x@)) && (event matches Event::GeneralRef(x)
        ==> valid_utf8(x@))) ==> (r matches Err(e) && e is Escape)
    &&& (event is Start || event is Empty || event is End) ==> r == Ok::<
        DeserializerOutput<Text, TextDeserializer>,
        Error,
    >(
        DeserializerOutput {
            event: DeserializerEvent::Continue(event),
            artifact: match d {
                TextDeserializer::Init => DeserializerArtifact::Nothing,
                TextDeserializer::Text { value } => DeserializerArtifact::Data(value),
            },
            allow_any: false,
        },
    )
    &&& !is_text_piece_event(event) && !(event is Start || event is Empty || event is End) ==> r
        == Ok::<DeserializerOutput<Text, TextDeserializer>, Error>(
        DeserializerOutput {
            event: DeserializerEvent::Break(event),
            artifact: match d {
                TextDeserializer::Init => DeserializerArtifact::Nothing,
                TextDeserializer::Text { value } => DeserializerArtifact::Deserializer(d),
            },
            allow_any: false,
        },
    )
}

/// What the serializer writes, the deserializer reads back: the text event
/// that [`TextSerializer::next`] emits for a value adds exactly that value to
/// the text a [`TextDeserializer`] has gathered.
pub proof fn lemma_text_roundtrip(
    value: Seq<char>,
    d: TextDeserializer,
    bytes: Vec<u8>,
    r: Result<DeserializerOutput<Text, TextDeserializer>, Error>,
)
    requires
        bytes@ == encode_utf8(xml_escape(value)),
        text_next_ensures(d, Event::Text(bytes), r),
    ensures
        r matches Ok(o) && (o.artifact matches DeserializerArtifact::Deserializer(n) && n@ == Some(
            gathered(d@) + value,
        )),
{
    encode_utf8_decode_utf8(xml_escape(value));
    encode_utf8_valid_utf8(xml_escape(value));
}

impl Deserializer<Text> for TextDeserializer {
    open spec fn init_ensures(event: Event, r: Result<DeserializerOutput<Text, Self>, Error>) -> bool {
        text_next_ensures(TextDeserializer::Init, event, r)
    }

    open spec fn next_ensures(self, event: Event, r: Result<DeserializerOutput<Text, Self>, Error>) -> bool {
        text_next_ensures(self, event, r)
    }

    open spec fn finish_ensures(self, r: Result<Text, Error>) -> bool {
        text_finish_ensures(self, r)
    }

    fn init(event: Event) -> (r: Result<DeserializerOutput<Text, Self>, Error>)
        ensures
            text_next_ensures(TextDeserializer::Init, event, r),
    {
        TextDeserializer::init(event)
    }

    fn next(self, event: Event) -> (r: Result<DeserializerOutput<Text, Self>, Error>)
        ensures
            text_next_ensures(self, event, r),
    {
        TextDeserializer::next(self, event)
    }

    fn finish(self) -> (r: Result<Text, Error>)
        ensures
            text_finish_ensures(self, r),
    {
        TextDeserializer::finish(self)
    }
}

impl WithDeserializer for Text {
    type Deserializer = TextDeserializer;
}

} // verus!
