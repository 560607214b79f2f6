//! The dispatch of generated deserializers for dynamic types: an element of
//! a type with derived types names its actual type (by its `xsi:type`
//! attribute or its tag), the deserializer of the first derived type with
//! that name is started, and its answers become the dynamic type's answers.

use vstd::prelude::*;

use crate::bytes::bytes_eq;
use crate::event::{
    DeserializerArtifact, DeserializerEvent, DeserializerOutput, Event, ResolvedName,
};
use crate::reader::{local_name_in, resolve_local_name};

verus! {

/// The name of a derived type: its local name, in the namespace of its
/// schema module if it has one.
#[derive(Debug)]
pub struct DerivedTypeName {
    pub namespace: Option<Vec<u8>>,
    pub name: Vec<u8>,
}

/// Whether the dynamic type name `dynamic_name` (resolved as `resolved`) names
/// the derived type `d`: by its local name in its namespace, or by the raw
/// name when the type has no namespace.
pub open spec fn names_derived_type(dynamic_name: Seq<u8>, resolved: ResolvedName, d: DerivedTypeName) -> bool {
    match d.namespace {
        Some(ns) => local_name_in(resolved, ns@) == Some(d.name@),
        None => dynamic_name == d.name@,
    }
}

/// The position of the first derived type that `dynamic_name` names, or `None`
/// when it names none of them (the element is then handed back).
pub fn select_derived_type(
    dynamic_name: &[u8],
    resolved: &ResolvedName,
    derived: &Vec<DerivedTypeName>,
) -> (r: Option<usize>)
    ensures
        match r {
            Some(i) => {
                &&& i < derived@.len()
                &&& names_derived_type(dynamic_name@, *resolved, derived@[i as int])
                &&& forall|k: int|
                    0 <= k < i ==> !names_derived_type(dynamic_name@, *resolved, #[trigger] derived@[k])
            },
            None => forall|k: int|
                0 <= k < derived@.len() ==> !names_derived_type(
                    dynamic_name@,
                    *resolved,
                    #[trigger] derived@[k],
                ),
        },
{
    let mut i: usize = 0;
    while i < derived.len()
        invariant
            i <= derived@.len(),
            forall|k: int|
                0 <= k < i ==> !names_derived_type(dynamic_name@, *resolved, #[trigger] derived@[k]),
        decreases derived@.len() - i,
    {
        let d = &derived[i];
        let found = match &d.namespace {
            Some(ns) => match resolve_local_name(resolved, ns.as_slice()) {
                Some(local) => bytes_eq(local.as_slice(), d.name.as_slice()),
                None => false,
            },
            None => bytes_eq(dynamic_name, d.name.as_slice()),
        };
        if found {
            return Some(i);
        }
        i = i + 1;
    }
    None
}

/// How a deserializer of a dynamic type starts on an event.
#[derive(Debug)]
pub enum DynamicInit<T, D> {
    /// Start the deserializer of the derived type at this position with the event.
    Start(usize, Event),
    /// Answer without starting any derived type.
    Answer(DeserializerOutput<T, D>),
}

/// Starts a deserializer of a dynamic type on `event`, whose dynamic type
/// name (see `reader::get_dynamic_type_name`) is `dynamic_name`, resolved as
/// `resolved`. Without a name the event starts no element and is handed back
/// to the parent; a name of a derived type starts that type's deserializer
/// with the event (the first such type, see [`select_derived_type`]); any
/// other name hands the event back to the root.
pub fn dynamic_init<T, D>(
    event: Event,
    dynamic_name: Option<Vec<u8>>,
    resolved: &ResolvedName,
    derived: &Vec<DerivedTypeName>,
) -> (r: DynamicInit<T, D>)
    ensures
        match dynamic_name {
            None => r == DynamicInit::<T, D>::Answer(
                DeserializerOutput {
                    artifact: DeserializerArtifact::Nothing,
                    event: DeserializerEvent::Continue(event),
                    allow_any: false,
                },
            ),
            Some(n) => match r {
                DynamicInit::Start(i, e) => {
                    &&& e == event
                    &&& i < derived@.len()
                    &&& names_derived_type(n@, *resolved, derived@[i as int])
                    &&& forall|k: int|
                        0 <= k < i ==> !names_derived_type(n@, *resolved, #[trigger] derived@[k])
                },
                DynamicInit::Answer(o) => {
                    &&& forall|k: int|
                        0 <= k < derived@.len() ==> !names_derived_type(
                            n@,
                            *resolved,
                            #[trigger] derived@[k],
                        )
                    &&& o == DeserializerOutput::<T, D> {
                        artifact: DeserializerArtifact::Nothing,
                        event: DeserializerEvent::Break(event),
                        allow_any: false,
                    }
                },
            },
        },
{
    let name = match dynamic_name {
        None => {
            return DynamicInit::Answer(
                DeserializerOutput {
                    artifact: DeserializerArtifact::Nothing,
                    event: DeserializerEvent::Continue(event),
                    allow_any: false,
                },
            );
        },
        Some(n) => n,
    };
    match select_derived_type(name.as_slice(), resolved, derived) {
        Some(i) => DynamicInit::Start(i, event),
        None => DynamicInit::Answer(
            DeserializerOutput {
                artifact: DeserializerArtifact::Nothing,
                event: DeserializerEvent::Break(event),
                allow_any: false,
            },
        ),
    }
}

/// The answer of the dynamic type for the answer `out` of the deserializer of
/// one of its derived types: finished data becomes the dynamic type's value
/// (`data`), a deserializer becomes the dynamic deserializer's variant for
/// that type (`deserializer`), and the event and `allow_any` are kept.
pub fn map_derived_output<X, Y, T, D, F, G>(out: DeserializerOutput<X, Y>, data: F, deserializer: G) -> (r:
    DeserializerOutput<T, D>)
    where
        F: FnOnce(X) -> T,
        G: FnOnce(Y) -> D,
    requires
        out.artifact matches DeserializerArtifact::Data(x) ==> data.requires((x,)),
        out.artifact matches DeserializerArtifact::Deserializer(y) ==> deserializer.requires((y,)),
    ensures
        r.event == out.event,
        r.allow_any == out.allow_any,
        out.artifact is Nothing ==> r.artifact is Nothing,
        out.artifact matches DeserializerArtifact::Data(x) ==> (r.artifact matches DeserializerArtifact::Data(
            t,
        ) && data.ensures((x,), t)),
        out.artifact matches DeserializerArtifact::Deserializer(y) ==> (
        r.artifact matches DeserializerArtifact::Deserializer(d) && deserializer.ensures((y,), d)),
{
    let DeserializerOutput { artifact, event, allow_any } = out;
    DeserializerOutput { artifact: artifact.map(data, deserializer), event, allow_any }
}

} // verus!
