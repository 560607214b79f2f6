//! The traits that tie a type to the deserializer that builds it from XML
//! events. The library's content and text deserializers implement them, and
//! so does every deserializer that generated code defines.

use vstd::prelude::*;

use crate::error::Error;
use crate::event::{DeserializerOutput, Event};

verus! {

/// A deserializer that constructs a `T` from XML [`Event`]s: it is started
/// with the first event, fed with the following ones, and can be forced to
/// finish.
///
/// Each implementation says what its operations answer through the three
/// relations below.
pub trait Deserializer<T>: Sized {
    /// `r` is what [`Deserializer::init`] answers to `event`.
    spec fn init_ensures(event: Event, r: Result<DeserializerOutput<T, Self>, Error>) -> bool;

    /// `r` is what [`Deserializer::next`] of `self` answers to `event`.
    spec fn next_ensures(self, event: Event, r: Result<DeserializerOutput<T, Self>, Error>) -> bool;

    /// `r` is what [`Deserializer::finish`] of `self` gives.
    spec fn finish_ensures(self, r: Result<T, Error>) -> bool;

    /// Initializes a new deserializer from the initial `event`.
    fn init(event: Event) -> (r: Result<DeserializerOutput<T, Self>, Error>)
        ensures
            Self::init_ensures(event, r),
    ;

    /// Processes the next XML event.
    fn next(self, event: Event) -> (r: Result<DeserializerOutput<T, Self>, Error>)
        ensures
            self.next_ensures(event, r),
    ;

    /// Forces the deserializer to finish.
    fn finish(self) -> (r: Result<T, Error>)
        ensures
            self.finish_ensures(r),
    ;
}

/// A type that can be deserialized from XML events.
pub trait WithDeserializer: Sized {
    /// The deserializer to use for this type.
    type Deserializer: Deserializer<Self>;
}

} // verus!
