use xsd_parser::attributes::{
    attribute_target, check_required_attributes, finish_attribute, read_attributes, AttributeItem,
    AttributeKey, AttributeTarget,
};
use xsd_parser::event::{Attribute, AttributeError};
use xsd_parser::error::Error;
use xsd_parser::event::{ResolveResult, ResolvedName};
use xsd_parser::render::DefaultAttributeHandler;

fn keys() -> Vec<Option<AttributeKey>> {
    vec![
        Some(AttributeKey { namespace: Some(b"urn:a".to_vec()), name: b"id".to_vec() }),
        None,
        Some(AttributeKey { namespace: None, name: b"lang".to_vec() }),
    ]
}

fn resolved(namespace: ResolveResult, local: &str) -> ResolvedName {
    ResolvedName { namespace, local: local.as_bytes().to_vec() }
}

#[test]
fn namespaced_attribute_is_matched_in_its_namespace() {
    let r = resolved(ResolveResult::Bound(b"urn:a".to_vec()), "id");
    assert_eq!(attribute_target(&keys(), None, b"a:id", &r), AttributeTarget::Field(0));
    let r = resolved(ResolveResult::Bound(b"urn:b".to_vec()), "id");
    assert_eq!(
        attribute_target(&keys(), Some(DefaultAttributeHandler::RaiseUnexpected), b"b:id", &r),
        AttributeTarget::Unexpected
    );
}

#[test]
fn plain_attribute_is_matched_by_local_name() {
    let r = resolved(ResolveResult::Bound(b"urn:x".to_vec()), "lang");
    assert_eq!(attribute_target(&keys(), None, b"x:lang", &r), AttributeTarget::Field(2));
}

#[test]
fn other_attributes_go_to_the_default_handler() {
    let r = resolved(ResolveResult::Unbound, "foo");
    assert_eq!(
        attribute_target(&keys(), Some(DefaultAttributeHandler::CollectAny(1)), b"foo", &r),
        AttributeTarget::Any(1)
    );
    assert_eq!(attribute_target(&keys(), None, b"foo", &r), AttributeTarget::Ignored);
}

#[test]
fn missing_required_attribute_is_reported() {
    let r = finish_attribute::<u32>(None, b"id", true);
    assert!(matches!(r, Err(Error::MissingAttribute(ref n)) if n == b"id"));
    assert!(matches!(finish_attribute::<u32>(None, b"id", false), Ok(None)));
    assert!(matches!(finish_attribute(Some(3u32), b"id", true), Ok(Some(3))));
}

fn item(key: &str, namespace: ResolveResult, local: &str, value: &str) -> AttributeItem {
    Ok((
        Attribute { key: key.as_bytes().to_vec(), value: value.as_bytes().to_vec() },
        resolved(namespace, local),
    ))
}

const XSI: &str = "http://www.w3.org/2001/XMLSchema-instance";

#[test]
fn attribute_loop_reads_declared_attributes() {
    let items = vec![
        item("xmlns:a", ResolveResult::Unbound, "xmlns:a", "urn:a"),
        item("a:id", ResolveResult::Bound(b"urn:a".to_vec()), "id", "7"),
        item("lang", ResolveResult::Unbound, "lang", "3"),
        item("foo", ResolveResult::Unbound, "foo", "x"),
    ];
    let (values, any) = read_attributes::<u32>(&keys(), Some(DefaultAttributeHandler::CollectAny(1)), &items).unwrap();
    assert_eq!(values, vec![Some(7), None, Some(3)]);
    assert_eq!(any, vec![3]);
    assert!(check_required_attributes(&keys(), &vec![true, false, true], &values).is_ok());
    let r = check_required_attributes(&keys(), &vec![true, false, true], &vec![Some(1u32), None, None]);
    assert!(matches!(r, Err(Error::MissingAttribute(ref n)) if n == b"lang"));
}

#[test]
fn attribute_loop_errors() {
    let dup = vec![item("lang", ResolveResult::Unbound, "lang", "1"), item("x:lang", ResolveResult::Unbound, "lang", "2")];
    let r = read_attributes::<u32>(&keys(), None, &dup);
    assert!(matches!(r, Err(Error::DuplicateAttribute(ref n)) if n == b"lang"));
    let bad = vec![item("lang", ResolveResult::Unbound, "lang", "x")];
    assert!(matches!(read_attributes::<u32>(&keys(), None, &bad), Err(Error::InvalidNumber(_))));
    let malformed = vec![Err(AttributeError::Malformed(4)), item("lang", ResolveResult::Unbound, "lang", "1")];
    let r = read_attributes::<u32>(&keys(), None, &malformed);
    assert!(matches!(r, Err(Error::InvalidAttribute(AttributeError::Malformed(4)))));
    let unexpected = vec![item("foo", ResolveResult::Unbound, "foo", "1")];
    let r = read_attributes::<u32>(&keys(), Some(DefaultAttributeHandler::RaiseUnexpected), &unexpected);
    assert!(matches!(r, Err(Error::UnexpectedAttribute(ref k)) if k == b"foo"));
    let nil = vec![item("xsi:nil", ResolveResult::Bound(XSI.as_bytes().to_vec()), "nil", "true")];
    assert!(read_attributes::<u32>(&keys(), Some(DefaultAttributeHandler::RaiseUnexpected), &nil).is_ok());
    assert!(read_attributes::<u32>(&keys(), None, &unexpected).is_ok());
}
