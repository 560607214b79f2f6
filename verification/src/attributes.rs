//! The attribute loop of a generated `from_bytes_start`: where it puts each
//! attribute of the start tag (into the field of the first declared attribute
//! it names, into the `anyAttribute` collection, or nowhere, where it is
//! rejected unless globally allowed, or ignored where any attribute is
//! allowed), the loop itself, and the check of required attributes.

use vstd::prelude::*;

use crate::bytes::{bytes_eq, local_name, local_name_of, to_vec};
use crate::error::Error;
use crate::deserialize_bytes::DeserializeBytes;
use crate::event::{Attribute, AttributeError, ResolvedName};
use crate::reader::{
    is_globally_allowed, local_name_in, raise_unexpected_attrib_checked, resolve_local_name,
};
use crate::render::DefaultAttributeHandler;

verus! {

/// The name of a declared attribute: its local name, in the namespace of its
/// schema module if it has one.
#[derive(Debug)]
pub struct AttributeKey {
    pub namespace: Option<Vec<u8>>,
    pub name: Vec<u8>,
}

/// Where an attribute of a start tag goes.
#[derive(Debug, Clone, Copy, PartialEq, Eq)]
pub enum AttributeTarget {
    /// The field of the declared attribute at this position.
    Field(usize),
    /// The `anyAttribute` collection at this position.
    Any(usize),
    /// No field: the attribute is rejected unless it is globally allowed.
    Unexpected,
    /// No field, and any attribute is allowed: it is dropped.
    Ignored,
}

/// Whether an attribute with the raw key `raw` (resolved as `resolved`) is
/// the declared attribute `k`: by its local name in its namespace, or by the
/// local part of the raw key when it has no namespace.
pub open spec fn names_attribute(raw: Seq<u8>, resolved: ResolvedName, k: AttributeKey) -> bool {
    match k.namespace {
        Some(ns) => local_name_in(resolved, ns@) == Some(k.name@),
        None => local_name(raw) == k.name@,
    }
}

/// The declared attribute at position `p` of `keys` is named by the raw key
/// `raw` (resolved as `resolved`).
pub open spec fn named_at(keys: Seq<Option<AttributeKey>>, raw: Seq<u8>, resolved: ResolvedName, p: int) -> bool {
    keys[p] matches Some(k) && names_attribute(raw, resolved, k)
}

/// Where an attribute with the raw key `raw` goes (see [`attribute_target`]).
pub open spec fn target_spec(
    keys: Seq<Option<AttributeKey>>,
    default_handler: Option<DefaultAttributeHandler>,
    raw: Seq<u8>,
    resolved: ResolvedName,
) -> AttributeTarget {
    if exists|p: int| 0 <= p < keys.len() && #[trigger] named_at(keys, raw, resolved, p) {
        let p = choose|p: int|
            0 <= p < keys.len() && #[trigger] named_at(keys, raw, resolved, p) && forall|q: int|
                0 <= q < p ==> !named_at(keys, raw, resolved, q);
        AttributeTarget::Field(p as usize)
    } else {
        match default_handler {
            Some(DefaultAttributeHandler::CollectAny(a)) => AttributeTarget::Any(a),
            Some(DefaultAttributeHandler::RaiseUnexpected) => AttributeTarget::Unexpected,
            None => AttributeTarget::Ignored,
        }
    }
}

/// `keys` holds, for each attribute of the type in order, its key, or `None`
/// for an `anyAttribute` collection. The attribute goes to the first declared
/// attribute it names; otherwise the default handler decides.
pub fn attribute_target(
    keys: &Vec<Option<AttributeKey>>,
    default_handler: Option<DefaultAttributeHandler>,
    raw: &[u8],
    resolved: &ResolvedName,
) -> (r: AttributeTarget)
    ensures
        match r {
            AttributeTarget::Field(i) => {
                &&& i < keys@.len()
                &&& keys@[i as int] matches Some(k) && names_attribute(raw@, *resolved, k)
                &&& forall|p: int|
                    0 <= p < i ==> !(#[trigger] keys@[p] matches Some(k) && names_attribute(
                        raw@,
                        *resolved,
                        k,
                    ))
            },
            _ => {
                &&& forall|p: int|
                    0 <= p < keys@.len() ==> !(#[trigger] keys@[p] matches Some(k)
                        && names_attribute(raw@, *resolved, k))
                &&& r == match default_handler {
                    Some(DefaultAttributeHandler::CollectAny(a)) => AttributeTarget::Any(a),
                    Some(DefaultAttributeHandler::RaiseUnexpected) => AttributeTarget::Unexpected,
                    None => AttributeTarget::Ignored,
                }
            },
        },
        keys@.len() <= usize::MAX ==> r == target_spec(keys@, default_handler, raw@, *resolved),
{
    let local = local_name_of(raw);
    let mut p: usize = 0;
    while p < keys.len()
        invariant
            p <= keys@.len(),
            local@ == local_name(raw@),
            forall|q: int|
                0 <= q < p ==> !(#[trigger] keys@[q] matches Some(k) && names_attribute(
                    raw@,
                    *resolved,
                    k,
                )),
        decreases keys@.len() - p,
    {
        let found = match &keys[p] {
            Some(k) => match &k.namespace {
                Some(ns) => match resolve_local_name(resolved, ns.as_slice()) {
                    Some(l) => bytes_eq(l.as_slice(), k.name.as_slice()),
                    None => false,
                },
                None => bytes_eq(local.as_slice(), k.name.as_slice()),
            },
            None => false,
        };
        if found {
            proof {
                assert(named_at(keys@, raw@, *resolved, p as int));
                let c = choose|c: int|
                    0 <= c < keys@.len() && #[trigger] named_at(keys@, raw@, *resolved, c) && forall|
                        q: int,
                    | 0 <= q < c ==> !named_at(keys@, raw@, *resolved, q);
                if c < p {
                    assert(!named_at(keys@, raw@, *resolved, c));
                } else if c > p {
                    assert(!named_at(keys@, raw@, *resolved, p as int));
                }
            }
            return AttributeTarget::Field(p);
        }
        p = p + 1;
    }
    proof {
        assert forall|q: int| 0 <= q < keys@.len() implies !#[trigger] named_at(keys@, raw@, *resolved, q) by {
            assert(!(keys@[q] matches Some(k) && names_attribute(raw@, *resolved, k)));
        }
    }
    match default_handler {
        Some(DefaultAttributeHandler::CollectAny(a)) => AttributeTarget::Any(a),
        Some(DefaultAttributeHandler::RaiseUnexpected) => AttributeTarget::Unexpected,
        None => AttributeTarget::Ignored,
    }
}

/// The value of the attribute `name` once the attributes are read: a missing
/// required attribute is [`Error::MissingAttribute`]; any other value is kept
/// as it is (a missing optional attribute takes its default, if it has one,
/// from the caller).
pub fn finish_attribute<T>(value: Option<T>, name: &[u8], required: bool) -> (r: Result<
    Option<T>,
    Error,
>)
    ensures
        required && value is None ==> (r matches Err(Error::MissingAttribute(n)) && n@ == name@),
        !(required && value is None) ==> r == Ok::<Option<T>, Error>(value),
{
    if required && value.is_none() {
        return Err(Error::MissingAttribute(to_vec(name)));
    }
    Ok(value)
}

/// An attribute that declares a namespace (`xmlns` or `xmlns:prefix`); the
/// attribute loop passes over those.
pub open spec fn is_xmlns_key(key: Seq<u8>) -> bool {
    let xmlns = seq![0x78u8, 0x6Du8, 0x6Cu8, 0x6Eu8, 0x73u8];
    key == xmlns || (key.len() > 5 && key.subrange(0, 5) == xmlns && key[5] == 0x3Au8)
}

fn is_xmlns(key: &[u8]) -> (r: bool)
    ensures
        r == is_xmlns_key(key@),
{
    let ghost xmlns = seq![0x78u8, 0x6Du8, 0x6Cu8, 0x6Eu8, 0x73u8];
    if key.len() < 5 {
        return false;
    }
    let prefix = key[0] == 0x78u8 && key[1] == 0x6Du8 && key[2] == 0x6Cu8 && key[3] == 0x6Eu8
        && key[4] == 0x73u8;
    assert(prefix == (key@.subrange(0, 5) == xmlns)) by {
        if prefix {
            assert(key@.subrange(0, 5) =~= xmlns);
        }
        if key@.subrange(0, 5) == xmlns {
            assert(key@.subrange(0, 5)[0] == key@[0]);
            assert(key@.subrange(0, 5)[1] == key@[1]);
            assert(key@.subrange(0, 5)[2] == key@[2]);
            assert(key@.subrange(0, 5)[3] == key@[3]);
            assert(key@.subrange(0, 5)[4] == key@[4]);
        }
    }
    if key.len() == 5 {
        proof {
            if prefix {
                assert(key@ =~= xmlns);
            }
            if key@ == xmlns {
                assert(key@.subrange(0, 5) =~= key@);
            }
        }
        return prefix;
    }
    proof {
        if key@ == xmlns {
            assert(key@.len() == 5);
        }
    }
    prefix && key[5] == 0x3Au8
}

/// An attribute of a start tag as the attribute loop gets it: its raw key and
/// value with its resolved name, or why it could not be read.
pub type AttributeItem = Result<(Attribute, ResolvedName), AttributeError>;

/// The values of the declared attributes and the positions of the attributes
/// for the `anyAttribute` collection after one more attribute (at position
/// `j`), or `None` when the attribute fails: it could not be read, repeats a
/// declared attribute, has a value the type rejects, or is unexpected and not
/// globally allowed. Namespace declarations are passed over.
pub open spec fn attribute_step<T: DeserializeBytes>(
    keys: Seq<Option<AttributeKey>>,
    default_handler: Option<DefaultAttributeHandler>,
    values: Seq<Option<T::V>>,
    any: Seq<usize>,
    j: int,
    item: AttributeItem,
) -> Option<(Seq<Option<T::V>>, Seq<usize>)> {
    match item {
        Err(_) => None,
        Ok((a, resolved)) => if is_xmlns_key(a.key@) {
            Some((values, any))
        } else {
            match target_spec(keys, default_handler, a.key@, resolved) {
                AttributeTarget::Field(p) => if values[p as int] is Some {
                    None
                } else {
                    match T::from_bytes_spec(a.value@) {
                        None => None,
                        Some(v) => Some((values.update(p as int, Some(v)), any)),
                    }
                },
                AttributeTarget::Any(_) => Some((values, any.push(j as usize))),
                AttributeTarget::Unexpected => if is_globally_allowed(resolved) {
                    Some((values, any))
                } else {
                    None
                },
                AttributeTarget::Ignored => Some((values, any)),
            }
        },
    }
}

/// `e` is the error of an attribute that fails (see [`attribute_step`]).
pub open spec fn attribute_fails_with<T: DeserializeBytes>(
    keys: Seq<Option<AttributeKey>>,
    default_handler: Option<DefaultAttributeHandler>,
    values: Seq<Option<T::V>>,
    item: AttributeItem,
    e: Error,
) -> bool {
    match item {
        Err(x) => e == Error::InvalidAttribute(x),
        Ok((a, resolved)) => match target_spec(keys, default_handler, a.key@, resolved) {
            AttributeTarget::Field(p) => if values[p as int] is Some {
                e matches Error::DuplicateAttribute(n) && keys[p as int] matches Some(k) && n@
                    == k.name@
            } else {
                T::rejects(a.value@, e)
            },
            AttributeTarget::Unexpected => e matches Error::UnexpectedAttribute(k) && k@ == a.key@,
            _ => false,
        },
    }
}

/// The values and `anyAttribute` positions after the first `n` attributes,
/// from no values; `None` once one of them failed.
pub open spec fn attributes_read<T: DeserializeBytes>(
    keys: Seq<Option<AttributeKey>>,
    default_handler: Option<DefaultAttributeHandler>,
    items: Seq<AttributeItem>,
    n: nat,
) -> Option<(Seq<Option<T::V>>, Seq<usize>)>
    decreases n,
{
    if n == 0 {
        Some((Seq::new(keys.len(), |i: int| None::<T::V>), Seq::empty()))
    } else {
        match attributes_read::<T>(keys, default_handler, items, (n - 1) as nat) {
            None => None,
            Some((v, a)) => attribute_step::<T>(keys, default_handler, v, a, n - 1, items[n - 1]),
        }
    }
}

/// The attribute at position `j` is the first that fails, with the error `e`.
pub open spec fn fails_at<T: DeserializeBytes>(
    keys: Seq<Option<AttributeKey>>,
    default_handler: Option<DefaultAttributeHandler>,
    items: Seq<AttributeItem>,
    j: int,
    e: Error,
) -> bool {
    match attributes_read::<T>(keys, default_handler, items, j as nat) {
        None => false,
        Some((vs, any)) => {
            &&& attribute_step::<T>(keys, default_handler, vs, any, j, items[j]) is None
            &&& attribute_fails_with::<T>(keys, default_handler, vs, items[j], e)
        },
    }
}

/// The exec values `values` are the values `spec` by view.
pub open spec fn values_are<T: DeserializeBytes>(values: Seq<Option<T>>, spec: Seq<Option<T::V>>) -> bool {
    &&& values.len() == spec.len()
    &&& forall|i: int|
        0 <= i < values.len() ==> match #[trigger] values[i] {
            None => spec[i] is None,
            Some(t) => spec[i] == Some(t@),
        }
}

/// The attribute loop of a generated `from_bytes_start`, for declared
/// attributes of the value type `T`: every attribute of the start tag goes
/// where [`attribute_target`] sends it, a declared attribute takes its value
/// at most once ([`Error::DuplicateAttribute`]), an attribute that could not
/// be read is [`Error::InvalidAttribute`], and an unexpected attribute that is
/// not globally allowed is [`Error::UnexpectedAttribute`]; namespace
/// declarations are passed over. The first failing attribute gives the error.
/// The result holds the value of each declared attribute, if it occurs, and
/// the positions of the attributes for the `anyAttribute` collection.
pub fn read_attributes<T: DeserializeBytes>(
    keys: &Vec<Option<AttributeKey>>,
    default_handler: Option<DefaultAttributeHandler>,
    items: &Vec<AttributeItem>,
) -> (r: Result<(Vec<Option<T>>, Vec<usize>), Error>)
    ensures
        match attributes_read::<T>(keys@, default_handler, items@, items@.len()) {
            Some((vs, any)) => r matches Ok((values, a)) && a@ == any && values_are::<T>(values@, vs),
            None => r matches Err(e) && exists|j: int|
                0 <= j < items@.len() && #[trigger] fails_at::<T>(keys@, default_handler, items@, j, e),
        },
{
    let mut values: Vec<Option<T>> = Vec::new();
    let mut p: usize = 0;
    while p < keys.len()
        invariant
            p <= keys@.len(),
            values@.len() == p,
            forall|i: int| 0 <= i < p ==> (#[trigger] values@[i]) is None,
        decreases keys@.len() - p,
    {
        values.push(None);
        p = p + 1;
    }
    assert(values_are::<T>(values@, Seq::new(keys@.len(), |i: int| None::<T::V>)));
    let mut any: Vec<usize> = Vec::new();
    let mut j: usize = 0;
    while j < items.len()
        invariant
            j <= items@.len(),
            keys@.len() <= usize::MAX,
            values@.len() == keys@.len(),
            attributes_read::<T>(keys@, default_handler, items@, j as nat) is Some,
            (attributes_read::<T>(keys@, default_handler, items@, j as nat)->Some_0).1 == any@,
            values_are::<T>(
                values@,
                (attributes_read::<T>(keys@, default_handler, items@, j as nat)->Some_0).0,
            ),
        decreases items@.len() - j,
    {
        let ghost (vs, a0) = attributes_read::<T>(keys@, default_handler, items@, j as nat)->Some_0;
        proof {
            lemma_read_after::<T>(keys@, default_handler, items@, j as nat);
            lemma_read_len::<T>(keys@, default_handler, items@, j as nat);
            if let Ok((at, resolved)) = items@[j as int] {
                lemma_target_in::<T>(keys@, default_handler, at.key@, resolved);
            }
        }
        match &items[j] {
            Err(e) => {
                let err = Error::InvalidAttribute(*e);
                proof {
                    assert(fails_at::<T>(keys@, default_handler, items@, j as int, err));
                    lemma_read_fails_on::<T>(keys@, default_handler, items@, (j + 1) as nat, items@.len());
                }
                return Err(err);
            },
            Ok((a, resolved)) => {
                if !is_xmlns(a.key.as_slice()) {
                    match attribute_target(keys, default_handler, a.key.as_slice(), resolved) {
                        AttributeTarget::Field(p) => {
                            let name = match &keys[p] {
                                Some(k) => to_vec(k.name.as_slice()),
                                None => Vec::new(),
                            };
                            if values[p].is_some() {
                                let err = Error::DuplicateAttribute(name);
                                proof {
                                    assert(fails_at::<T>(keys@, default_handler, items@, j as int, err));
                                    lemma_read_fails_on::<T>(keys@, default_handler, items@, (j + 1) as nat, items@.len());
                                }
                                return Err(err);
                            }
                            match T::deserialize_bytes(a.value.as_slice()) {
                                Ok(v) => {
                                    values.set(p, Some(v));
                                    assert(values_are::<T>(values@, vs.update(p as int, Some(v@))));
                                },
                                Err(err) => {
                                    proof {
                                        assert(fails_at::<T>(keys@, default_handler, items@, j as int, err));
                                        lemma_read_fails_on::<T>(keys@, default_handler, items@, (j + 1) as nat, items@.len());
                                    }
                                    return Err(err);
                                },
                            }
                        },
                        AttributeTarget::Any(_) => {
                            any.push(j);
                        },
                        AttributeTarget::Unexpected => {
                            let attrib = Attribute { key: to_vec(a.key.as_slice()), value: Vec::new() };
                            match raise_unexpected_attrib_checked(&attrib, resolved) {
                                Ok(()) => {},
                                Err(err) => {
                                    proof {
                                        assert(fails_at::<T>(keys@, default_handler, items@, j as int, err));
                                        lemma_read_fails_on::<T>(keys@, default_handler, items@, (j + 1) as nat, items@.len());
                                    }
                                    return Err(err);
                                },
                            }
                        },
                        AttributeTarget::Ignored => {},
                    }
                }
            },
        }
        j = j + 1;
    }
    Ok((values, any))
}

/// The loop keeps one value per declared attribute.
proof fn lemma_read_len<T: DeserializeBytes>(
    keys: Seq<Option<AttributeKey>>,
    default_handler: Option<DefaultAttributeHandler>,
    items: Seq<AttributeItem>,
    n: nat,
)
    requires
        keys.len() <= usize::MAX,
        n <= items.len(),
    ensures
        attributes_read::<T>(keys, default_handler, items, n) matches Some((vs, _)) ==> vs.len()
            == keys.len(),
    decreases n,
{
    if n > 0 {
        lemma_read_len::<T>(keys, default_handler, items, (n - 1) as nat);
        if let Some((v, a)) = attributes_read::<T>(keys, default_handler, items, (n - 1) as nat) {
            let item = items[n - 1];
            if let Ok((at, resolved)) = item {
                lemma_target_in::<T>(keys, default_handler, at.key@, resolved);
            }
        }
    } else {
        assert(Seq::new(keys.len(), |i: int| None::<T::V>).len() == keys.len());
    }
}

/// The field an attribute goes to is a declared attribute.
proof fn lemma_target_in<T>(
    keys: Seq<Option<AttributeKey>>,
    default_handler: Option<DefaultAttributeHandler>,
    raw: Seq<u8>,
    resolved: ResolvedName,
)
    requires
        keys.len() <= usize::MAX,
    ensures
        target_spec(keys, default_handler, raw, resolved) matches AttributeTarget::Field(p) ==> p
            < keys.len(),
{
    if exists|p: int| 0 <= p < keys.len() && #[trigger] named_at(keys, raw, resolved, p) {
        let w = choose|p: int| 0 <= p < keys.len() && #[trigger] named_at(keys, raw, resolved, p);
        assert(exists|p: int|
            0 <= p < keys.len() && #[trigger] named_at(keys, raw, resolved, p) && forall|q: int|
                0 <= q < p ==> !named_at(keys, raw, resolved, q)) by {
            lemma_first_named(keys, raw, resolved, w);
        }
    }
}

/// Some position at or before a named one is the first named one.
proof fn lemma_first_named(keys: Seq<Option<AttributeKey>>, raw: Seq<u8>, resolved: ResolvedName, w: int)
    requires
        0 <= w < keys.len(),
        named_at(keys, raw, resolved, w),
    ensures
        exists|p: int|
            0 <= p < keys.len() && #[trigger] named_at(keys, raw, resolved, p) && forall|q: int|
                0 <= q < p ==> !named_at(keys, raw, resolved, q),
    decreases w,
{
    if exists|q: int| 0 <= q < w && named_at(keys, raw, resolved, q) {
        let q = choose|q: int| 0 <= q < w && named_at(keys, raw, resolved, q);
        lemma_first_named(keys, raw, resolved, q);
    } else {
        assert(forall|q: int| 0 <= q < w ==> !named_at(keys, raw, resolved, q));
    }
}

/// Once an attribute failed, the loop stays failed.
proof fn lemma_read_fails_on<T: DeserializeBytes>(
    keys: Seq<Option<AttributeKey>>,
    default_handler: Option<DefaultAttributeHandler>,
    items: Seq<AttributeItem>,
    m: nat,
    n: nat,
)
    requires
        m <= n,
        attributes_read::<T>(keys, default_handler, items, m) is None,
    ensures
        attributes_read::<T>(keys, default_handler, items, n) is None,
    decreases n - m,
{
    if m < n {
        lemma_read_fails_on::<T>(keys, default_handler, items, m, (n - 1) as nat);
    }
}

/// One more attribute on a state reached by the loop continues from that state.
proof fn lemma_read_after<T: DeserializeBytes>(
    keys: Seq<Option<AttributeKey>>,
    default_handler: Option<DefaultAttributeHandler>,
    items: Seq<AttributeItem>,
    j: nat,
)
    requires
        j < items.len(),
        attributes_read::<T>(keys, default_handler, items, j) is Some,
    ensures
        ({
            let (vs, a) = attributes_read::<T>(keys, default_handler, items, j)->Some_0;
            attributes_read::<T>(keys, default_handler, items, j + 1) == attribute_step::<T>(
                keys,
                default_handler,
                vs,
                a,
                j as int,
                items[j as int],
            )
        }),
{
}

/// The first declared attribute that is required but did not occur, if any.
pub open spec fn first_missing<T>(required: Seq<bool>, values: Seq<Option<T>>) -> Option<int> {
    if exists|p: int| 0 <= p < required.len() && required[p] && #[trigger] values[p] is None {
        Some(
            choose|p: int|
                0 <= p < required.len() && required[p] && #[trigger] values[p] is None && forall|
                    q: int,
                | 0 <= q < p ==> !(required[q] && values[q] is None),
        )
    } else {
        None
    }
}

/// Checks that every declared attribute marked in `required` (required and
/// without default) occurred: the first missing one is
/// [`Error::MissingAttribute`] with its name.
pub fn check_required_attributes<T>(
    keys: &Vec<Option<AttributeKey>>,
    required: &Vec<bool>,
    values: &Vec<Option<T>>,
) -> (r: Result<(), Error>)
    requires
        required@.len() == values@.len(),
        keys@.len() == values@.len(),
    ensures
        match first_missing(required@, values@) {
            None => r is Ok,
            Some(p) => r matches Err(Error::MissingAttribute(n)) && match keys@[p] {
                Some(k) => n@ == k.name@,
                None => n@ == Seq::<u8>::empty(),
            },
        },
{
    let mut p: usize = 0;
    while p < required.len()
        invariant
            p <= required@.len(),
            required@.len() == values@.len(),
            keys@.len() == values@.len(),
            forall|q: int| 0 <= q < p ==> !(required@[q] && (#[trigger] values@[q]) is None),
        decreases required@.len() - p,
    {
        if required[p] && values[p].is_none() {
            proof {
                let c = choose|c: int|
                    0 <= c < required@.len() && required@[c] && #[trigger] values@[c] is None
                        && forall|q: int| 0 <= q < c ==> !(required@[q] && values@[q] is None);
                if c < p {
                    assert(!(required@[c] && values@[c] is None));
                } else if c > p {
                    assert(!(required@[p as int] && values@[p as int] is None));
                }
            }
            let name = match &keys[p] {
                Some(k) => to_vec(k.name.as_slice()),
                None => Vec::new(),
            };
            return Err(Error::MissingAttribute(name));
        }
        p = p + 1;
    }
    proof {
        assert forall|q: int| 0 <= q < required@.len() && required@[q] implies !(#[trigger] values@[q] is None) by {
            assert(!(required@[q] && values@[q] is None));
        }
    }
    Ok(())
}

/// Namespace declarations never reach the declared attributes: an attribute
/// with the key `xmlns` or `xmlns:` and a prefix leaves the values and the
/// `anyAttribute` positions as they are and never fails, whatever it resolves
/// to and whatever the declared attributes are.
pub proof fn lemma_namespace_declarations_pass<T: DeserializeBytes>(
    keys: Seq<Option<AttributeKey>>,
    default_handler: Option<DefaultAttributeHandler>,
    values: Seq<Option<T::V>>,
    any: Seq<usize>,
    j: int,
    a: Attribute,
    resolved: ResolvedName,
)
    requires
        a.key@ == seq![0x78u8, 0x6Du8, 0x6Cu8, 0x6Eu8, 0x73u8] || (a.key@.len() > 6 && a.key@[0]
            == 0x78u8 && a.key@[1] == 0x6Du8 && a.key@[2] == 0x6Cu8 && a.key@[3] == 0x6Eu8
            && a.key@[4] == 0x73u8 && a.key@[5] == 0x3Au8),
    ensures
        attribute_step::<T>(keys, default_handler, values, any, j, Ok((a, resolved))) == Some(
            (values, any),
        ),
{
    let xmlns = seq![0x78u8, 0x6Du8, 0x6Cu8, 0x6Eu8, 0x73u8];
    if a.key@ != xmlns {
        assert(a.key@.subrange(0, 5) =~= xmlns);
    }
    assert(is_xmlns_key(a.key@));
}

} // verus!
