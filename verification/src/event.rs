//! The XML event model the deserializers consume, and the values they
//! hand back to their callers.

use vstd::prelude::*;

verus! {

/// An attribute of a start tag: its raw (possibly prefixed) key and its raw value.
#[derive(Debug)]
pub struct Attribute {
    pub key: Vec<u8>,
    pub value: Vec<u8>,
}

/// A start tag (`<name attr="..">` or `<name/>`).
#[derive(Debug)]
pub struct BytesStart {
    /// The raw qualified name of the tag.
    pub name: Vec<u8>,
    /// The attributes of the tag in document order, each as read: well-formed,
    /// or the reason it could not be read.
    pub attributes: Vec<Result<Attribute, AttributeError>>,
}

/// Why an attribute of a start tag could not be read.
#[derive(Debug, Clone, Copy, PartialEq, Eq)]
pub enum AttributeError {
    /// The attribute repeats the key of an earlier one (the positions of the
    /// earlier and of this key).
    Duplicated(usize, usize),
    /// The attribute at this position is not of the form `key="value"`.
    Malformed(usize),
}

/// An event of an XML reader. Payloads hold the raw bytes of the event.
#[derive(Debug)]
pub enum Event {
    Decl(Vec<u8>),
    Start(BytesStart),
    Empty(BytesStart),
    End(Vec<u8>),
    Text(Vec<u8>),
    CData(Vec<u8>),
    Comment(Vec<u8>),
    PI(Vec<u8>),
    DocType(Vec<u8>),
    GeneralRef(Vec<u8>),
    Eof,
}

/// How the namespace prefix of a name was resolved.
#[derive(Debug)]
pub enum ResolveResult {
    /// The name has no prefix and no default namespace applies.
    Unbound,
    /// The name belongs to the given namespace.
    Bound(Vec<u8>),
    /// The name has a prefix that is not bound to any namespace.
    Unknown(Vec<u8>),
}

/// A name after namespace resolution: its namespace and its local part.
#[derive(Debug)]
pub struct ResolvedName {
    pub namespace: ResolveResult,
    pub local: Vec<u8>,
}

/// An attribute whose key has been resolved against the namespaces in scope.
#[derive(Debug)]
pub struct ResolvedAttribute {
    pub name: ResolvedName,
    pub value: Vec<u8>,
}

/// Indicates what to do with an event returned by a deserializer.
#[derive(Debug)]
pub enum DeserializerEvent {
    /// The event was consumed by the deserializer, nothing to handle here.
    Consumed,
    /// The event is handled and should be returned to the deserialization root
    /// for additional evaluation.
    Break(Event),
    /// The event was not consumed by the deserializer and may be processed again
    /// by any of its parents.
    Continue(Event),
}

impl DeserializerEvent {
    /// Extract the event as `Option`.
    pub fn into_event(self) -> (r: Option<Event>)
        ensures
            r == match self {
                DeserializerEvent::Consumed => None,
                DeserializerEvent::Break(e) => Some(e),
                DeserializerEvent::Continue(e) => Some(e),
            },
    {
        match self {
            DeserializerEvent::Consumed => None,
            DeserializerEvent::Break(event) => Some(event),
            DeserializerEvent::Continue(event) => Some(event),
        }
    }
}

/// Artifact that is returned by a deserializer: nothing, the finished data, or
/// the deserializer itself when the data is not complete yet.
#[derive(Debug)]
pub enum DeserializerArtifact<T, D> {
    /// The deserialization is finished and no data was produced.
    Nothing,
    /// The value constructed by the deserializer.
    Data(T),
    /// The deserializer, returned when the deserialization is not finished yet.
    Deserializer(D),
}

impl<T, D> DeserializerArtifact<T, D> {
    /// Check if this is a [`DeserializerArtifact::Nothing`].
    pub fn is_none(&self) -> (r: bool)
        ensures
            r == (*self is Nothing),
    {
        match self {
            DeserializerArtifact::Nothing => true,
            _ => false,
        }
    }

    /// `Data` for `Some(data)`, `Nothing` otherwise.
    pub fn from_data(data: Option<T>) -> (r: Self)
        ensures
            r == match data {
                Some(d) => DeserializerArtifact::<T, D>::Data(d),
                None => DeserializerArtifact::<T, D>::Nothing,
            },
    {
        if let Some(data) = data {
            DeserializerArtifact::Data(data)
        } else {
            DeserializerArtifact::Nothing
        }
    }

    /// `Deserializer` for `Some(deserializer)`, `Nothing` otherwise.
    pub fn from_deserializer(deserializer: Option<D>) -> (r: Self)
        ensures
            r == match deserializer {
                Some(d) => DeserializerArtifact::<T, D>::Deserializer(d),
                None => DeserializerArtifact::<T, D>::Nothing,
            },
    {
        if let Some(deserializer) = deserializer {
            DeserializerArtifact::Deserializer(deserializer)
        } else {
            DeserializerArtifact::Nothing
        }
    }

    /// Splits the artifact into the data and the deserializer.
    pub fn into_parts(self) -> (r: (Option<T>, Option<D>))
        ensures
            r == match self {
                DeserializerArtifact::Nothing => (None, None),
                DeserializerArtifact::Data(d) => (Some(d), None),
                DeserializerArtifact::Deserializer(d) => (None, Some(d)),
            },
    {
        match self {
            DeserializerArtifact::Nothing => (None, None),
            DeserializerArtifact::Data(data) => (Some(data), None),
            DeserializerArtifact::Deserializer(deserializer) => (None, Some(deserializer)),
        }
    }

    /// Maps the data or the deserializer to new types using the passed mappers.
    pub fn map<X, Y, F, G>(self, data_mapper: F, deserializer_mapper: G) -> (r:
        DeserializerArtifact<X, Y>)
        where
            F: FnOnce(T) -> X,
            G: FnOnce(D) -> Y,
        requires
            self matches DeserializerArtifact::Data(d) ==> data_mapper.requires((d,)),
            self matches DeserializerArtifact::Deserializer(d) ==> deserializer_mapper.requires((d,)),
        ensures
            self is Nothing ==> r is Nothing,
            self matches DeserializerArtifact::Data(d) ==> (r matches DeserializerArtifact::Data(x)
                && data_mapper.ensures((d,), x)),
            self matches DeserializerArtifact::Deserializer(d) ==> (
            r matches DeserializerArtifact::Deserializer(y) && deserializer_mapper.ensures((d,), y)),
    {
        match self {
            DeserializerArtifact::Nothing => DeserializerArtifact::Nothing,
            DeserializerArtifact::Data(data) => DeserializerArtifact::Data(data_mapper(data)),
            DeserializerArtifact::Deserializer(deserializer) => {
                DeserializerArtifact::Deserializer(deserializer_mapper(deserializer))
            },
        }
    }
}

/// The output of a deserializer operation.
#[derive(Debug)]
pub struct DeserializerOutput<T, D> {
    /// Artifact produced by the deserializer.
    pub artifact: DeserializerArtifact<T, D>,
    /// The processed event if it was not consumed by the deserializer.
    pub event: DeserializerEvent,
    /// Whether the deserializer allows other XML elements in the current state.
    pub allow_any: bool,
}

/// Controls the flow of the deserialization of an element.
#[derive(Debug)]
pub enum ElementHandlerOutput {
    /// Continue with the deserialization.
    Continue { event: Event, allow_any: bool },
    /// Break the deserialization.
    Break { event: DeserializerEvent, allow_any: bool },
}

/// The start, empty and end events: the ones that continue an element.
pub open spec fn is_tag_event(e: Event) -> bool {
    e is Start || e is Empty || e is End
}

/// `Continue` with a continued start, empty or end tag, `Break` with any other event.
pub open spec fn output_from_event(event: DeserializerEvent, allow_any: bool) -> ElementHandlerOutput {
    match event {
        DeserializerEvent::Continue(e) => if is_tag_event(e) {
            ElementHandlerOutput::Continue { event: e, allow_any }
        } else {
            ElementHandlerOutput::Break { event, allow_any }
        },
        _ => ElementHandlerOutput::Break { event, allow_any },
    }
}

/// `Continue` with a continued end tag, `Break` with any other event.
pub open spec fn output_from_event_end(event: DeserializerEvent, allow_any: bool) -> ElementHandlerOutput {
    match event {
        DeserializerEvent::Continue(e) => if e is End {
            ElementHandlerOutput::Continue { event: e, allow_any }
        } else {
            ElementHandlerOutput::Break { event: DeserializerEvent::Continue(e), allow_any }
        },
        _ => ElementHandlerOutput::Break { event, allow_any },
    }
}

impl ElementHandlerOutput {
    /// Create a `Continue` instance.
    pub fn continue_(event: Event, allow_any: bool) -> (r: Self)
        ensures
            r == (ElementHandlerOutput::Continue { event, allow_any }),
    {
        ElementHandlerOutput::Continue { event, allow_any }
    }

    /// Create a `Break` instance.
    pub fn break_(event: DeserializerEvent, allow_any: bool) -> (r: Self)
        ensures
            r == (ElementHandlerOutput::Break { event, allow_any }),
    {
        ElementHandlerOutput::Break { event, allow_any }
    }

    /// Create a `Break` instance that returns `event` to the parent deserializers.
    pub fn return_to_parent(event: Event, allow_any: bool) -> (r: Self)
        ensures
            r == (ElementHandlerOutput::Break { event: DeserializerEvent::Continue(event), allow_any }),
    {
        Self::break_(DeserializerEvent::Continue(event), allow_any)
    }

    /// Create a `Break` instance that returns `event` to the root of the deserialization.
    pub fn return_to_root(event: Event, allow_any: bool) -> (r: Self)
        ensures
            r == (ElementHandlerOutput::Break { event: DeserializerEvent::Break(event), allow_any }),
    {
        Self::break_(DeserializerEvent::Break(event), allow_any)
    }

    /// `Continue` if `event` is a `Continue` of a start, empty or end tag,
    /// `Break` otherwise.
    pub fn from_event(event: DeserializerEvent, allow_any: bool) -> (r: Self)
        ensures
            r == output_from_event(event, allow_any),
    {
        match event {
            DeserializerEvent::Continue(e) => {
                if matches!(e, Event::Start(_) | Event::Empty(_) | Event::End(_)) {
                    Self::continue_(e, allow_any)
                } else {
                    Self::break_(DeserializerEvent::Continue(e), allow_any)
                }
            },
            event => Self::break_(event, allow_any),
        }
    }

    /// `Continue` if `event` is a `Continue` of an end tag, otherwise a `Break`
    /// that returns a continued event to the parent and keeps any other event.
    pub fn from_event_end(event: DeserializerEvent, allow_any: bool) -> (r: Self)
        ensures
            r == output_from_event_end(event, allow_any),
    {
        match event {
            DeserializerEvent::Continue(e) => {
                if matches!(e, Event::End(_)) {
                    Self::continue_(e, allow_any)
                } else {
                    Self::return_to_parent(e, allow_any)
                }
            },
            event => Self::break_(event, allow_any),
        }
    }
}

} // verus!
