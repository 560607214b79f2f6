//! Helpers a reader uses while deserializing: attribute handling, namespace
//! aware name checks and the start of deserializers for start tags.
//!
//! Namespace prefixes are resolved by the reader, which knows the bindings in
//! scope; these helpers take the resolved names.

use vstd::prelude::*;

use crate::bytes::{ascii, ascii_bytes, bytes_eq, local_name, local_name_of, to_vec};
use crate::deserialize_bytes::DeserializeBytes;
use crate::error::Error;
use crate::event::{
    Attribute, AttributeError, BytesStart, DeserializerArtifact, DeserializerEvent, DeserializerOutput, Event,
    ResolveResult, ResolvedAttribute, ResolvedName,
};

verus! {

/// The XML Schema instance namespace.
pub open spec fn xsi_namespace() -> Seq<u8> {
    ascii("http://www.w3.org/2001/XMLSchema-instance"@)
}

fn xsi_namespace_bytes() -> (r: &'static [u8])
    ensures
        r@ == xsi_namespace(),
{
    proof {
        reveal_strlit("http://www.w3.org/2001/XMLSchema-instance");
    }
    ascii_bytes("http://www.w3.org/2001/XMLSchema-instance")
}

/// The attributes of the XML Schema instance namespace that every element may carry.
pub open spec fn is_globally_allowed(name: ResolvedName) -> bool {
    &&& name.namespace matches ResolveResult::Bound(ns)
    &&& ns@ == xsi_namespace()
    &&& (name.local@ == ascii("schemaLocation"@) || name.local@ == ascii(
        "noNamespaceSchemaLocation"@,
    ) || name.local@ == ascii("type"@) || name.local@ == ascii("nil"@))
}

/// Returns `true` if the attribute with the resolved key `name` is a globally
/// allowed XML Schema instance attribute (`schemaLocation`,
/// `noNamespaceSchemaLocation`, `type` or `nil`), `false` otherwise.
pub fn is_globally_allowed_attrib(name: &ResolvedName) -> (r: bool)
    ensures
        r == is_globally_allowed(*name),
{
    proof {
        reveal_strlit("schemaLocation");
        reveal_strlit("noNamespaceSchemaLocation");
        reveal_strlit("type");
        reveal_strlit("nil");
    }
    match &name.namespace {
        ResolveResult::Bound(ns) => {
            let local = name.local.as_slice();
            bytes_eq(ns.as_slice(), xsi_namespace_bytes()) && (bytes_eq(
                local,
                ascii_bytes("schemaLocation"),
            ) || bytes_eq(local, ascii_bytes("noNamespaceSchemaLocation")) || bytes_eq(
                local,
                ascii_bytes("type"),
            ) || bytes_eq(local, ascii_bytes("nil")))
        },
        _ => false,
    }
}

/// The local part of `name` when it has no namespace or belongs to `ns`.
pub open spec fn local_name_in(name: ResolvedName, ns: Seq<u8>) -> Option<Seq<u8>> {
    match name.namespace {
        ResolveResult::Unbound => Some(name.local@),
        ResolveResult::Bound(x) => if x@ == ns {
            Some(name.local@)
        } else {
            None
        },
        ResolveResult::Unknown(_) => None,
    }
}

/// Checks if the resolved `name` matches the expected namespace `ns` and
/// returns its local part. A name without a namespace is accepted as it is.
pub fn resolve_local_name(name: &ResolvedName, ns: &[u8]) -> (r: Option<Vec<u8>>)
    ensures
        r is Some <==> local_name_in(*name, ns@) is Some,
        r matches Some(v) ==> local_name_in(*name, ns@) == Some(v@),
{
    match &name.namespace {
        ResolveResult::Unbound => Some(to_vec(name.local.as_slice())),
        ResolveResult::Bound(x) => {
            if bytes_eq(x.as_slice(), ns) {
                Some(to_vec(name.local.as_slice()))
            } else {
                None
            }
        },
        ResolveResult::Unknown(_) => None,
    }
}

/// Whether `event` is a start or empty tag named `name`: in namespace `ns`
/// when one is given (with `resolved` the resolution of the tag's name),
/// and by the local part of the raw tag name otherwise.
pub open spec fn start_tag_matches(
    event: Event,
    resolved: ResolvedName,
    ns: Option<Seq<u8>>,
    name: Seq<u8>,
) -> bool {
    match event {
        Event::Start(x) | Event::Empty(x) => match ns {
            Some(ns) => local_name_in(resolved, ns) == Some(name),
            None => local_name(x.name@) == name,
        },
        _ => false,
    }
}

/// Checks whether `event` is a start or empty tag with the expected name.
pub fn check_start_tag_name(
    event: &Event,
    resolved: &ResolvedName,
    ns: Option<&[u8]>,
    name: &[u8],
) -> (r: bool)
    ensures
        r == start_tag_matches(
            *event,
            *resolved,
            match ns {
                Some(n) => Some(n@),
                None => None,
            },
            name@,
        ),
{
    let x = match event {
        Event::Start(x) => x,
        Event::Empty(x) => x,
        _ => {
            return false;
        },
    };
    match ns {
        Some(ns) => match resolve_local_name(resolved, ns) {
            Some(local) => bytes_eq(local.as_slice(), name),
            None => false,
        },
        None => {
            let local = local_name_of(x.name.as_slice());
            bytes_eq(local.as_slice(), name)
        },
    }
}

/// Converts and stores the value of the attribute `name`.
///
/// Fails with [`Error::DuplicateAttribute`] when `store` already holds a value,
/// and with the value's error (see [`DeserializeBytes::rejects`]) when it does
/// not deserialize.
pub fn read_attrib<T: DeserializeBytes>(store: &mut Option<T>, name: &[u8], value: &[u8]) -> (r:
    Result<(), Error>)
    ensures
        *old(store) is Some ==> (r matches Err(e) && (e matches Error::DuplicateAttribute(n) && n@
            == name@) && *final(store) == *old(store)),
        *old(store) is None ==> (r is Ok <==> T::from_bytes_spec(value@) is Some),
        *old(store) is None && r is Ok ==> (*final(store) matches Some(v) && T::from_bytes_spec(
            value@,
        ) == Some(v@)),
        *old(store) is None && r is Err ==> *final(store) is None,
        *old(store) is None ==> (r matches Err(e) ==> T::rejects(value@, e)),
{
    if store.is_some() {
        return Err(Error::DuplicateAttribute(to_vec(name)));
    }
    let value = T::deserialize_bytes(value)?;
    *store = Some(value);
    Ok(())
}

/// Raises [`Error::UnexpectedAttribute`] for `attrib`.
pub fn raise_unexpected_attrib(attrib: &Attribute) -> (r: Result<(), Error>)
    ensures
        r matches Err(e) && (e matches Error::UnexpectedAttribute(k) && k@ == attrib.key@),
{
    Err(Error::UnexpectedAttribute(to_vec(attrib.key.as_slice())))
}

/// Raises [`Error::UnexpectedAttribute`] for `attrib` unless it is a globally
/// allowed XML Schema instance attribute (`name` is its resolved key).
pub fn raise_unexpected_attrib_checked(attrib: &Attribute, name: &ResolvedName) -> (r: Result<
    (),
    Error,
>)
    ensures
        is_globally_allowed(*name) ==> r is Ok,
        !is_globally_allowed(*name) ==> (r matches Err(e) && (e matches Error::UnexpectedAttribute(
            k,
        ) && k@ == attrib.key@)),
{
    if !is_globally_allowed_attrib(name) {
        raise_unexpected_attrib(attrib)?;
    }
    Ok(())
}

/// Whether an attribute names the dynamic type of its element: the local name
/// `type` without a namespace or in the XML Schema instance namespace.
pub open spec fn is_type_attribute(a: ResolvedAttribute) -> bool {
    &&& (a.name.namespace is Unbound || (a.name.namespace matches ResolveResult::Bound(ns) && ns@
        == xsi_namespace()))
    &&& a.name.local@ == ascii("type"@)
}

/// The attribute ends the search for the type attribute: it could not be
/// read, or it is the type attribute.
pub open spec fn ends_type_search(a: Result<ResolvedAttribute, AttributeError>) -> bool {
    match a {
        Err(_) => true,
        Ok(x) => is_type_attribute(x),
    }
}

/// The name of the dynamic type of a start or empty tag: the value of its
/// first type attribute, or the raw tag name when it has none; an attribute
/// before it that could not be read is the error. `Ok(None)` for other events.
pub open spec fn dynamic_type_name(
    event: Event,
    attributes: Seq<Result<ResolvedAttribute, AttributeError>>,
) -> Result<Option<Seq<u8>>, AttributeError> {
    match event {
        Event::Start(b) | Event::Empty(b) => if exists|i: int|
            0 <= i < attributes.len() && ends_type_search(#[trigger] attributes[i]) {
            let i = choose|i: int|
                0 <= i < attributes.len() && ends_type_search(#[trigger] attributes[i]) && forall|
                    k: int,
                | 0 <= k < i ==> !ends_type_search(#[trigger] attributes[k]);
            match attributes[i] {
                Ok(a) => Ok(Some(a.value@)),
                Err(e) => Err(e),
            }
        } else {
            Ok(Some(b.name@))
        },
        _ => Ok(None),
    }
}

/// Extracts the name of the dynamic type of a start or empty tag from its
/// resolved `attributes`, falling back to the tag name. Raises
/// [`Error::InvalidAttribute`] when an attribute before the type attribute
/// could not be read.
pub fn get_dynamic_type_name(
    event: &Event,
    attributes: &Vec<Result<ResolvedAttribute, AttributeError>>,
) -> (r: Result<Option<Vec<u8>>, Error>)
    ensures
        match dynamic_type_name(*event, attributes@) {
            Ok(None) => r matches Ok(None),
            Ok(Some(v)) => r matches Ok(Some(x)) && x@ == v,
            Err(e) => r == Err::<Option<Vec<u8>>, Error>(Error::InvalidAttribute(e)),
        },
{
    let b = match event {
        Event::Start(b) => b,
        Event::Empty(b) => b,
        _ => {
            return Ok(None);
        },
    };
    proof {
        reveal_strlit("type");
    }
    let type_word = ascii_bytes("type");
    let xsi = xsi_namespace_bytes();
    let mut i: usize = 0;
    while i < attributes.len()
        invariant
            i <= attributes@.len(),
            type_word@ == ascii("type"@),
            xsi@ == xsi_namespace(),
            *event is Start || *event is Empty,
            forall|k: int| 0 <= k < i ==> !ends_type_search(#[trigger] attributes@[k]),
        decreases attributes@.len() - i,
    {
        let found = match &attributes[i] {
            Err(_) => true,
            Ok(a) => {
                let ns_ok = match &a.name.namespace {
                    ResolveResult::Unbound => true,
                    ResolveResult::Bound(ns) => bytes_eq(ns.as_slice(), xsi),
                    ResolveResult::Unknown(_) => false,
                };
                ns_ok && bytes_eq(a.name.local.as_slice(), type_word)
            },
        };
        if found {
            proof {
                assert(ends_type_search(attributes@[i as int]));
                let c = choose|c: int|
                    0 <= c < attributes@.len() && ends_type_search(#[trigger] attributes@[c])
                        && forall|k: int| 0 <= k < c ==> !ends_type_search(#[trigger] attributes@[k]);
                if c < i {
                    assert(!ends_type_search(attributes@[c]));
                } else if c > i {
                    assert(!ends_type_search(attributes@[i as int]));
                }
            }
            return match &attributes[i] {
                Err(e) => Err(Error::InvalidAttribute(*e)),
                Ok(a) => Ok(Some(to_vec(a.value.as_slice()))),
            };
        }
        i = i + 1;
    }
    Ok(Some(to_vec(b.name.as_slice())))
}

/// Starts a deserializer for `event` if it is a start or empty tag with the
/// expected name; otherwise hands the event back to the caller.
pub fn init_start_tag_deserializer<T, D, F>(
    event: Event,
    resolved: &ResolvedName,
    ns: Option<&[u8]>,
    name: &[u8],
    allow_any: bool,
    init: F,
) -> (r: Result<DeserializerOutput<T, D>, Error>) where
    F: FnOnce(Event) -> Result<DeserializerOutput<T, D>, Error>,

    requires
        init.requires((event,)),
    ensures
        ({
            let ns = match ns {
                Some(n) => Some(n@),
                None => None,
            };
            &&& start_tag_matches(event, *resolved, ns, name@) ==> init.ensures((event,), r)
            &&& !start_tag_matches(event, *resolved, ns, name@) ==> r == Ok::<
                DeserializerOutput<T, D>,
                Error,
            >(
                DeserializerOutput {
                    artifact: DeserializerArtifact::Nothing,
                    event: DeserializerEvent::Continue(event),
                    allow_any,
                },
            )
        }),
{
    if check_start_tag_name(&event, resolved, ns, name) {
        init(event)
    } else {
        Ok(
            DeserializerOutput {
                artifact: DeserializerArtifact::Nothing,
                event: DeserializerEvent::Continue(event),
                allow_any,
            },
        )
    }
}

/// Starts a deserializer from a start or empty tag: `create` builds the
/// deserializer from the tag, and for an empty tag `finish` completes it at
/// once. Any other event is handed back to the caller.
pub fn init_deserializer_from_start_event<T, D, F, G>(event: Event, create: F, finish: G) -> (r:
    Result<DeserializerOutput<T, D>, Error>) where
    F: FnOnce(&BytesStart) -> Result<D, Error>,
    G: FnOnce(D) -> Result<T, Error>,

    requires
        event matches Event::Start(s) ==> create.requires((&s,)),
        event matches Event::Empty(s) ==> create.requires((&s,)),
        event is Empty ==> forall|d: D| finish.requires((d,)),
    ensures
        event matches Event::Start(s) ==> ({
            &&& r matches Ok(o) ==> {
                &&& o.event is Consumed
                &&& !o.allow_any
                &&& o.artifact matches DeserializerArtifact::Deserializer(d)
                &&& create.ensures((&s,), Ok::<D, Error>(d))
            }
            &&& r matches Err(e) ==> create.ensures((&s,), Err::<D, Error>(e))
        }),
        event matches Event::Empty(s) ==> ({
            &&& r matches Ok(o) ==> {
                &&& o.event is Consumed
                &&& !o.allow_any
                &&& o.artifact matches DeserializerArtifact::Data(v)
                &&& exists|d: D| create.ensures((&s,), Ok::<D, Error>(d)) && finish.ensures((d,), Ok::<T, Error>(v))
            }
            &&& r matches Err(e) ==> (create.ensures((&s,), Err::<D, Error>(e)) || exists|d: D|
                create.ensures((&s,), Ok::<D, Error>(d)) && finish.ensures((d,), Err::<T, Error>(e)))
        }),
        !(event is Start) && !(event is Empty) ==> r == Ok::<DeserializerOutput<T, D>, Error>(
            DeserializerOutput {
                artifact: DeserializerArtifact::Nothing,
                event: DeserializerEvent::Continue(event),
                allow_any: false,
            },
        ),
{
    match event {
        Event::Start(start) => {
            let deserializer = create(&start)?;
            Ok(
                DeserializerOutput {
                    artifact: DeserializerArtifact::Deserializer(deserializer),
                    event: DeserializerEvent::Consumed,
                    allow_any: false,
                },
            )
        },
        Event::Empty(start) => {
            let deserializer = create(&start)?;
            let data = finish(deserializer)?;
            Ok(
                DeserializerOutput {
                    artifact: DeserializerArtifact::Data(data),
                    event: DeserializerEvent::Consumed,
                    allow_any: false,
                },
            )
        },
        event => Ok(
            DeserializerOutput {
                artifact: DeserializerArtifact::Nothing,
                event: DeserializerEvent::Continue(event),
                allow_any: false,
            },
        ),
    }
}

} // verus!
