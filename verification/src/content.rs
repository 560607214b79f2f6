//! The deserializer for the content of simple elements: it gathers the text,
//! character data and entity references of an element and hands the result
//! to the value's byte deserializer when the element ends.

use vstd::prelude::*;
use vstd::string::*;
use vstd::utf8::*;

use crate::bytes::{append_bytes, trim_ascii, trim_ascii_bytes};
use crate::deserialize_bytes::DeserializeBytes;
use crate::deserializer::{Deserializer, WithDeserializer};
use crate::error::{same_error, Error};
use crate::escape::{decode_escaped_text, str_from_utf8, unescape, xml_escape, xml_unescape};
use crate::event::{DeserializerArtifact, DeserializerEvent, DeserializerOutput, Event};

verus! {

/// Deserializer for any type that implements [`DeserializeBytes`].
pub struct ContentDeserializer<T> {
    data: Vec<u8>,
    has_cdata: bool,
    marker: core::marker::PhantomData<T>,
}

impl<T> View for ContentDeserializer<T> {
    /// The bytes gathered so far and whether character data was seen.
    type V = (Seq<u8>, bool);

    closed spec fn view(&self) -> (Seq<u8>, bool) {
        (self.data@, self.has_cdata)
    }
}

/// `x` with its entities replaced when `x` is valid UTF-8 that unescapes;
/// `x` unchanged otherwise.
pub open spec fn unescape_or_keep(x: Seq<u8>) -> Seq<u8> {
    if valid_utf8(x) && xml_unescape(decode_utf8(x)) is Some {
        encode_utf8(xml_unescape(decode_utf8(x))->0)
    } else {
        x
    }
}

/// The bytes an entity reference `&x;` adds once character data was seen:
/// the resolved entity, or the reference as written when it does not resolve.
pub open spec fn resolved_reference(x: Seq<u8>) -> Seq<u8> {
    let name = if valid_utf8(x) {
        decode_utf8(x)
    } else {
        Seq::empty()
    };
    match xml_unescape(seq!['&'] + name + seq![';']) {
        Some(u) => encode_utf8(u),
        None => seq![0x26u8] + x + seq![0x3Bu8],
    }
}

/// How text, character data and entity references change the gathered
/// bytes and the character data flag. Before any character data, text and
/// references are kept as written and unescaped at the end; the first
/// character data unescapes what was gathered, and from then on text and
/// references are unescaped as they arrive. Character data is kept verbatim.
pub open spec fn accumulate(state: (Seq<u8>, bool), event: Event) -> (Seq<u8>, bool) {
    let (data, has_cdata) = state;
    match event {
        Event::Text(x) => if has_cdata {
            (data + unescape_or_keep(x@), true)
        } else {
            (data + x@, false)
        },
        Event::CData(x) => {
            let base = if !has_cdata && data.len() > 0 {
                unescape_or_keep(data)
            } else {
                data
            };
            (base + x@, true)
        },
        Event::GeneralRef(x) => if has_cdata {
            (data + resolved_reference(x@), true)
        } else {
            (data + seq![0x26u8] + x@ + seq![0x3Bu8], false)
        },
        _ => state,
    }
}

/// The bytes handed to the value's deserializer when the element ends, or
/// `None` when the gathered bytes are not valid UTF-8 or do not unescape.
pub open spec fn finished_bytes(state: (Seq<u8>, bool)) -> Option<Seq<u8>> {
    let (data, has_cdata) = state;
    if !valid_utf8(data) {
        None
    } else if has_cdata {
        Some(trim_ascii(data))
    } else {
        match xml_unescape(decode_utf8(data)) {
            Some(u) => Some(trim_ascii(encode_utf8(u))),
            None => None,
        }
    }
}

/// The events that a content deserializer gathers.
pub open spec fn is_content_event(e: Event) -> bool {
    e is Text || e is CData || e is GeneralRef
}

/// Unescapes `x` when it is valid UTF-8 that unescapes, and keeps it otherwise.
fn unescape_or_keep_bytes(x: &[u8]) -> (r: Vec<u8>)
    ensures
        r@ == unescape_or_keep(x@),
{
    let mut r: Vec<u8> = Vec::new();
    if let Ok(text_str) = str_from_utf8(x) {
        match decode_escaped_text(text_str) {
            Ok(decoded) => {
                match unescape(decoded.as_str()) {
                    Ok(unescaped) => {
                        append_bytes(&mut r, unescaped.as_str().as_bytes());
                    },
                    Err(_) => {
                        append_bytes(&mut r, x);
                    },
                }
            },
            Err(_) => {
                append_bytes(&mut r, x);
            },
        }
    } else {
        append_bytes(&mut r, x);
    }
    assert(r@ =~= unescape_or_keep(x@));
    r
}

/// What [`ContentDeserializer::init`] answers to the first event: a start tag
/// opens an empty content, an empty tag deserializes the value from no bytes,
/// and any other event is handed back to the caller.
pub open spec fn content_init_ensures<T: DeserializeBytes>(
    event: Event,
    r: Result<DeserializerOutput<T, ContentDeserializer<T>>, Error>,
) -> bool {
    &&& event is Start ==> ({
        &&& r matches Ok(o)
        &&& o.event is Consumed
        &&& !o.allow_any
        &&& o.artifact matches DeserializerArtifact::Deserializer(d)
        &&& d@ == (Seq::<u8>::empty(), false)
    })
    &&& event is Empty ==> (r is Ok <==> T::from_bytes_spec(Seq::empty()) is Some)
    &&& event is Empty ==> (r matches Ok(o) ==> {
        &&& o.event is Consumed
        &&& !o.allow_any
        &&& o.artifact matches DeserializerArtifact::Data(v)
        &&& T::from_bytes_spec(Seq::empty()) == Some(v@)
    })
    &&& !(event is Start) && !(event is Empty) ==> r == Ok::<
        DeserializerOutput<T, ContentDeserializer<T>>,
        Error,
    >(
        DeserializerOutput {
            artifact: DeserializerArtifact::Nothing,
            event: DeserializerEvent::Continue(event),
            allow_any: false,
        },
    )
}

impl<T: DeserializeBytes> ContentDeserializer<T> {
    /// Starts the deserialization with the first event of the element. A start
    /// tag opens the content, an empty tag deserializes the value from no
    /// bytes, and any other event is handed back to the caller.
    pub fn init(event: Event) -> (r: Result<DeserializerOutput<T, Self>, Error>)
        ensures
            content_init_ensures(event, r),
    {
        match event {
            Event::Start(_) => {
                let d = ContentDeserializer {
                    data: Vec::new(),
                    has_cdata: false,
                    marker: core::marker::PhantomData,
                };
                assert(d@.0 =~= Seq::<u8>::empty());
                Ok(
                    DeserializerOutput {
                        artifact: DeserializerArtifact::Deserializer(d),
                        event: DeserializerEvent::Consumed,
                        allow_any: false,
                    },
                )
            },
            Event::Empty(_) => {
                let empty: Vec<u8> = Vec::new();
                assert(empty@ =~= Seq::<u8>::empty());
                let data = T::deserialize_bytes(empty.as_slice())?;
                Ok(
                    DeserializerOutput {
                        artifact: DeserializerArtifact::Data(data),
                        event: DeserializerEvent::Consumed,
                        allow_any: false,
                    },
                )
            },
            event => Ok(
                DeserializerOutput {
                    artifact: DeserializerArtifact::Nothing,
                    event: DeserializerEvent::Continue(event),
                    allow_any: false,
                },
            ),
        }
    }

    /// Processes the next event: text, character data and entity references
    /// are gathered, the end tag finishes the value, and any other event is
    /// handed back to the root with the deserializer kept.
    pub fn next(self, event: Event) -> (r: Result<DeserializerOutput<T, Self>, Error>)
        ensures
            content_next_ensures(self, event, r),
    {
        let mut this = self;
        match event {
            Event::Text(x) => {
                if this.has_cdata {
                    let unescaped = unescape_or_keep_bytes(x.as_slice());
                    append_bytes(&mut this.data, unescaped.as_slice());
                } else {
                    append_bytes(&mut this.data, x.as_slice());
                }
                assert(this@ =~= accumulate(self@, Event::Text(x)));
                Ok(
                    DeserializerOutput {
                        artifact: DeserializerArtifact::Deserializer(this),
                        event: DeserializerEvent::Consumed,
                        allow_any: false,
                    },
                )
            },
            Event::CData(x) => {
                if !this.has_cdata && this.data.len() > 0 {
                    let unescaped = unescape_or_keep_bytes(this.data.as_slice());
                    this.data = unescaped;
                }
                append_bytes(&mut this.data, x.as_slice());
                this.has_cdata = true;
                assert(this@ =~= accumulate(self@, Event::CData(x)));
                Ok(
                    DeserializerOutput {
                        artifact: DeserializerArtifact::Deserializer(this),
                        event: DeserializerEvent::Consumed,
                        allow_any: false,
                    },
                )
            },
            Event::GeneralRef(x) => {
                if this.has_cdata {
                    let resolved = resolve_reference(x.as_slice());
                    append_bytes(&mut this.data, resolved.as_slice());
                } else {
                    this.data.push(0x26u8);
                    append_bytes(&mut this.data, x.as_slice());
                    this.data.push(0x3Bu8);
                }
                assert(this@ =~= accumulate(self@, Event::GeneralRef(x)));
                Ok(
                    DeserializerOutput {
                        artifact: DeserializerArtifact::Deserializer(this),
                        event: DeserializerEvent::Consumed,
                        allow_any: false,
                    },
                )
            },
            Event::End(_) => {
                let data = this.finish()?;
                Ok(
                    DeserializerOutput {
                        artifact: DeserializerArtifact::Data(data),
                        event: DeserializerEvent::Consumed,
                        allow_any: false,
                    },
                )
            },
            event => Ok(
                DeserializerOutput {
                    artifact: DeserializerArtifact::Deserializer(this),
                    event: DeserializerEvent::Break(event),
                    allow_any: false,
                },
            ),
        }
    }

    /// Forces the deserializer to finish: the gathered bytes are unescaped
    /// (unless character data was seen), trimmed of ASCII whitespace and
    /// handed to the value's byte deserializer.
    pub fn finish(self) -> (r: Result<T, Error>)
        ensures
            content_finish_ensures::<T>(self@, r),
    {
        let text = match str_from_utf8(self.data.as_slice()) {
            Ok(text) => text,
            Err(_) => {
                return Err(Error::InvalidUtf8);
            },
        };
        if self.has_cdata {
            proof {
                decode_utf8_encode_utf8(self.data@);
            }
            let trimmed = trim_ascii_bytes(text.as_bytes());
            T::deserialize_bytes(trimmed.as_slice())
        } else {
            let decoded = match decode_escaped_text(text) {
                Ok(decoded) => decoded,
                Err(_) => {
                    return Err(Error::Encoding);
                },
            };
            let unescaped = match unescape(decoded.as_str()) {
                Ok(unescaped) => unescaped,
                Err(_) => {
                    return Err(Error::Escape);
                },
            };
            let trimmed = trim_ascii_bytes(unescaped.as_str().as_bytes());
            T::deserialize_bytes(trimmed.as_slice())
        }
    }
}

/// The bytes that an entity reference named `x` stands for once character
/// data was seen.
fn resolve_reference(x: &[u8]) -> (r: Vec<u8>)
    ensures
        r@ == resolved_reference(x@),
{
    proof {
        reveal_strlit("&");
        reveal_strlit(";");
        reveal_strlit("");
    }
    let name: &str = match str_from_utf8(x) {
        Ok(s) => s,
        Err(_) => "",
    };
    let mut full = String::from_str("&");
    full.append(name);
    full.append(";");
    assert(full@ =~= seq!['&'] + (if valid_utf8(x@) { decode_utf8(x@) } else { Seq::empty() }) + seq![';']);
    let mut r: Vec<u8> = Vec::new();
    match unescape(full.as_str()) {
        Ok(unescaped) => {
            append_bytes(&mut r, unescaped.as_str().as_bytes());
        },
        Err(_) => {
            r.push(0x26u8);
            append_bytes(&mut r, x);
            r.push(0x3Bu8);
        },
    }
    assert(r@ =~= resolved_reference(x@));
    r
}

/// What [`ContentDeserializer::finish`] does for the gathered state `state`.
pub open spec fn content_finish_ensures<T: DeserializeBytes>(state: (Seq<u8>, bool), r: Result<T, Error>) -> bool {
    &&& r is Ok <==> (finished_bytes(state) matches Some(b) && T::from_bytes_spec(b) is Some)
    &&& r matches Ok(v) ==> ({
        &&& finished_bytes(state) matches Some(b)
        &&& T::from_bytes_spec(b) == Some(v@)
    })
    &&& !valid_utf8(state.0) ==> (r matches Err(e) && e is InvalidUtf8)
    &&& valid_utf8(state.0) && !state.1 && xml_unescape(decode_utf8(state.0)) is None
        ==> (r matches Err(e) && e is Escape)
    &&& (valid_utf8(state.0) && !state.1) ==> forall|t: Seq<char>| #[trigger] xml_escape(t)
        == decode_utf8(state.0) ==> finished_bytes(state) == Some(trim_ascii(encode_utf8(t)))
    &&& finished_bytes(state) matches Some(b) ==> (r matches Err(e) ==> T::rejects(b, e))
}

/// What [`ContentDeserializer::next`] does with `event` in state `d`.
pub open spec fn content_next_ensures<T: DeserializeBytes>(
    d: ContentDeserializer<T>,
    event: Event,
    r: Result<DeserializerOutput<T, ContentDeserializer<T>>, Error>,
) -> bool {
    &&& is_content_event(event) ==> ({
        &&& r matches Ok(o)
        &&& o.event is Consumed
        &&& !o.allow_any
        &&& o.artifact matches DeserializerArtifact::Deserializer(n)
        &&& n@ == accumulate(d@, event)
    })
    &&& event is End ==> content_finish_ensures::<T>(
        d@,
        match r {
            Ok(o) => match o.artifact {
                DeserializerArtifact::Data(v) => Ok(v),
                _ => Err(Error::MissingContent),
            },
            Err(e) => Err(e),
        },
    )
    &&& event is End ==> (r matches Ok(o) ==> (o.event is Consumed && !o.allow_any
        && o.artifact is Data))
    &&& !is_content_event(event) && !(event is End) ==> r == Ok::<
        DeserializerOutput<T, ContentDeserializer<T>>,
        Error,
    >(
        DeserializerOutput {
            artifact: DeserializerArtifact::Deserializer(d),
            event: DeserializerEvent::Break(event),
            allow_any: false,
        },
    )
}

/// An end tag finishes the content as [`ContentDeserializer::finish`] does:
/// `next` with the end tag succeeds exactly when `finish` does, with a value
/// of the same view, consumes the end tag, and otherwise fails with the same
/// error as `finish` (see [`same_error`]).
pub proof fn lemma_end_is_finish<T: DeserializeBytes>(
    d: ContentDeserializer<T>,
    name: Vec<u8>,
    by_next: Result<DeserializerOutput<T, ContentDeserializer<T>>, Error>,
    by_finish: Result<T, Error>,
)
    requires
        content_next_ensures(d, Event::End(name), by_next),
        content_finish_ensures::<T>(d@, by_finish),
    ensures
        by_next is Ok <==> by_finish is Ok,
        by_next matches Ok(o) ==> {
            &&& o.event is Consumed
            &&& !o.allow_any
            &&& o.artifact matches DeserializerArtifact::Data(v)
            &&& by_finish matches Ok(w) && v@ == w@
        },
        by_next matches Err(e) ==> content_finish_ensures::<T>(d@, Err(e)),
        by_next matches Err(a) ==> (by_finish matches Err(b) && same_error(a, b)),
{
    if let Err(a) = by_next {
        if let Err(b) = by_finish {
            if let Some(bytes) = finished_bytes(d@) {
                T::lemma_rejects_same(bytes, a, b);
            }
        }
    }
}

/// The gathered state after `events`, from a fresh deserializer.
pub open spec fn accumulate_all(events: Seq<Event>) -> (Seq<u8>, bool)
    decreases events.len(),
{
    if events.len() == 0 {
        (Seq::empty(), false)
    } else {
        accumulate(accumulate_all(events.drop_last()), events.last())
    }
}

/// Character data is read verbatim: the character data of an element whose
/// content is one character data section is handed to the value as it is,
/// without unescaping and only trimmed of surrounding whitespace.
pub proof fn lemma_cdata_verbatim(x: Vec<u8>)
    requires
        valid_utf8(x@),
    ensures
        accumulate((Seq::empty(), false), Event::CData(x)) == (x@, true),
        finished_bytes((x@, true)) == Some(trim_ascii(x@)),
{
    assert(Seq::<u8>::empty() + x@ =~= x@);
}

/// Text is unescaped once, when the element ends: text events before any
/// character data are gathered as written, one after the other.
pub proof fn lemma_text_gathered_raw(events: Seq<Event>)
    requires
        forall|i: int| 0 <= i < events.len() ==> #[trigger] events[i] is Text,
    ensures
        !accumulate_all(events).1,
        accumulate_all(events).0 == raw_text(events),
    decreases events.len(),
{
    if events.len() > 0 {
        let prefix = events.drop_last();
        assert forall|i: int| 0 <= i < prefix.len() implies #[trigger] prefix[i] is Text by {
            assert(prefix[i] == events[i]);
        }
        lemma_text_gathered_raw(prefix);
        assert(events[events.len() - 1] is Text);
    }
}

/// The bytes of the text events in `events`, concatenated.
pub open spec fn raw_text(events: Seq<Event>) -> Seq<u8>
    decreases events.len(),
{
    if events.len() == 0 {
        Seq::empty()
    } else {
        raw_text(events.drop_last()) + match events.last() {
            Event::Text(x) => x@,
            _ => Seq::empty(),
        }
    }
}

/// Once character data was seen, it stays seen.
pub proof fn lemma_cdata_flag_persists(state: (Seq<u8>, bool), event: Event)
    requires
        state.1,
    ensures
        accumulate(state, event).1,
{
}

/// What the text serializer writes, a content deserializer reads back: the
/// element content escaped as text finishes as the value's characters
/// (trimmed of surrounding whitespace).
pub proof fn lemma_content_roundtrip<T: DeserializeBytes>(t: Seq<char>, r: Result<T, Error>)
    requires
        content_finish_ensures::<T>((encode_utf8(xml_escape(t)), false), r),
    ensures
        finished_bytes((encode_utf8(xml_escape(t)), false)) == Some(trim_ascii(encode_utf8(t))),
        r is Ok <==> T::from_bytes_spec(trim_ascii(encode_utf8(t))) is Some,
        r matches Ok(v) ==> T::from_bytes_spec(trim_ascii(encode_utf8(t))) == Some(v@),
{
    encode_utf8_decode_utf8(xml_escape(t));
    encode_utf8_valid_utf8(xml_escape(t));
}

impl<T: DeserializeBytes> Deserializer<T> for ContentDeserializer<T> {
    open spec fn init_ensures(event: Event, r: Result<DeserializerOutput<T, Self>, Error>) -> bool {
        content_init_ensures(event, r)
    }

    open spec fn next_ensures(self, event: Event, r: Result<DeserializerOutput<T, Self>, Error>) -> bool {
        content_next_ensures(self, event, r)
    }

    open spec fn finish_ensures(self, r: Result<T, Error>) -> bool {
        content_finish_ensures::<T>(self@, r)
    }

    fn init(event: Event) -> (r: Result<DeserializerOutput<T, Self>, Error>)
        ensures
            content_init_ensures(event, r),
    {
        ContentDeserializer::<T>::init(event)
    }

    fn next(self, event: Event) -> (r: Result<DeserializerOutput<T, Self>, Error>)
        ensures
            content_next_ensures(self, event, r),
    {
        ContentDeserializer::<T>::next(self, event)
    }

    fn finish(self) -> (r: Result<T, Error>)
        ensures
            content_finish_ensures::<T>(self@, r),
    {
        ContentDeserializer::<T>::finish(self)
    }
}

/// Every value with a byte deserializer is built from the content of its element.
impl<X: DeserializeBytes> WithDeserializer for X {
    type Deserializer = ContentDeserializer<X>;
}

} // verus!
