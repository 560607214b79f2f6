use xsd_parser::error::Error;
use xsd_parser::event::{Attribute, AttributeError, BytesStart, DeserializerArtifact, DeserializerEvent, DeserializerOutput, Event, ResolveResult, ResolvedAttribute, ResolvedName};
use xsd_parser::reader::{
    check_start_tag_name, get_dynamic_type_name, init_deserializer_from_start_event,
    init_start_tag_deserializer, is_globally_allowed_attrib, raise_unexpected_attrib,
    raise_unexpected_attrib_checked, read_attrib, resolve_local_name,
};

const XSI: &str = "http://www.w3.org/2001/XMLSchema-instance";

fn name(ns: ResolveResult, local: &str) -> ResolvedName {
    ResolvedName { namespace: ns, local: local.as_bytes().to_vec() }
}

fn tag(n: &str) -> BytesStart {
    BytesStart { name: n.as_bytes().to_vec(), attributes: Vec::new() }
}

#[test]
fn xsi_attributes_are_globally_allowed() {
    for l in ["schemaLocation", "noNamespaceSchemaLocation", "type", "nil"] {
        assert!(is_globally_allowed_attrib(&name(ResolveResult::Bound(XSI.as_bytes().to_vec()), l)));
    }
    assert!(!is_globally_allowed_attrib(&name(ResolveResult::Bound(XSI.as_bytes().to_vec()), "other")));
    assert!(!is_globally_allowed_attrib(&name(ResolveResult::Unbound, "type")));
    assert!(!is_globally_allowed_attrib(&name(ResolveResult::Bound(b"urn:x".to_vec()), "nil")));
}

#[test]
fn local_name_resolution() {
    assert_eq!(resolve_local_name(&name(ResolveResult::Unbound, "a"), b"urn:x"), Some(b"a".to_vec()));
    assert_eq!(resolve_local_name(&name(ResolveResult::Bound(b"urn:x".to_vec()), "a"), b"urn:x"), Some(b"a".to_vec()));
    assert_eq!(resolve_local_name(&name(ResolveResult::Bound(b"urn:y".to_vec()), "a"), b"urn:x"), None);
    assert_eq!(resolve_local_name(&name(ResolveResult::Unknown(b"p".to_vec()), "a"), b"urn:x"), None);
}

#[test]
fn start_tag_names() {
    let e = Event::Start(tag("tns:Foo"));
    let r = name(ResolveResult::Bound(b"urn:t".to_vec()), "Foo");
    assert!(check_start_tag_name(&e, &r, Some(b"urn:t"), b"Foo"));
    assert!(!check_start_tag_name(&e, &r, Some(b"urn:u"), b"Foo"));
    assert!(check_start_tag_name(&e, &r, None, b"Foo"));
    assert!(!check_start_tag_name(&e, &r, None, b"tns:Foo"));
    assert!(!check_start_tag_name(&Event::End(b"tns:Foo".to_vec()), &r, None, b"Foo"));
}

#[test]
fn attributes_are_read_once() {
    let mut store: Option<u32> = None;
    assert!(read_attrib(&mut store, b"size", b"12").is_ok());
    assert_eq!(store, Some(12));
    match read_attrib(&mut store, b"size", b"13") {
        Err(Error::DuplicateAttribute(n)) => assert_eq!(n, b"size".to_vec()),
        _ => panic!(),
    }
    assert_eq!(store, Some(12));
    let mut other: Option<u32> = None;
    assert!(read_attrib(&mut other, b"size", b"x").is_err());
    assert_eq!(other, None);
}

#[test]
fn unexpected_attributes() {
    let a = Attribute { key: b"xsi:nil".to_vec(), value: b"true".to_vec() };
    match raise_unexpected_attrib(&a) {
        Err(Error::UnexpectedAttribute(k)) => assert_eq!(k, b"xsi:nil".to_vec()),
        _ => panic!(),
    }
    assert!(raise_unexpected_attrib_checked(&a, &name(ResolveResult::Bound(XSI.as_bytes().to_vec()), "nil")).is_ok());
    assert!(raise_unexpected_attrib_checked(&a, &name(ResolveResult::Unbound, "nil")).is_err());
}

#[test]
fn dynamic_type_names() {
    let e = Event::Start(tag("tns:Shape"));
    let attrs = vec![
        Ok(ResolvedAttribute { name: name(ResolveResult::Bound(b"urn:x".to_vec()), "type"), value: b"Wrong".to_vec() }),
        Ok(ResolvedAttribute { name: name(ResolveResult::Bound(XSI.as_bytes().to_vec()), "type"), value: b"tns:Circle".to_vec() }),
        Ok(ResolvedAttribute { name: name(ResolveResult::Unbound, "type"), value: b"Later".to_vec() }),
    ];
    assert_eq!(get_dynamic_type_name(&e, &attrs).unwrap(), Some(b"tns:Circle".to_vec()));
    assert_eq!(get_dynamic_type_name(&e, &Vec::new()).unwrap(), Some(b"tns:Shape".to_vec()));
    assert_eq!(get_dynamic_type_name(&Event::Text(b"x".to_vec()), &attrs).unwrap(), None);
}

#[test]
fn unreadable_attribute_before_type_is_an_error() {
    let e = Event::Start(tag("Foo"));
    let a = || Ok(ResolvedAttribute { name: name(ResolveResult::Unbound, "a"), value: b"1".to_vec() });
    let attrs = vec![a(), Err(AttributeError::Duplicated(5, 11))];
    let r = get_dynamic_type_name(&e, &attrs);
    assert!(matches!(r, Err(Error::InvalidAttribute(AttributeError::Duplicated(5, 11)))));
    let attrs = vec![a(), Err(AttributeError::Malformed(7))];
    assert!(matches!(get_dynamic_type_name(&e, &attrs), Err(Error::InvalidAttribute(AttributeError::Malformed(7)))));
    let attrs = vec![
        Ok(ResolvedAttribute { name: name(ResolveResult::Unbound, "type"), value: b"Bar".to_vec() }),
        Err(AttributeError::Malformed(20)),
    ];
    assert_eq!(get_dynamic_type_name(&e, &attrs).unwrap(), Some(b"Bar".to_vec()));
}

#[test]
fn start_tag_deserializer_is_started_only_for_matching_tags() {
    let r = name(ResolveResult::Unbound, "Foo");
    let out: DeserializerOutput<u32, u8> = init_start_tag_deserializer(Event::Start(tag("Foo")), &r, None, b"Foo", true, |_e| {
        Ok(DeserializerOutput { artifact: DeserializerArtifact::Data(1), event: DeserializerEvent::Consumed, allow_any: false })
    })
    .unwrap();
    assert!(matches!(out.artifact, DeserializerArtifact::Data(1)));
    let out: DeserializerOutput<u32, u8> = init_start_tag_deserializer(Event::Start(tag("Bar")), &r, None, b"Foo", true, |_e| {
        Ok(DeserializerOutput { artifact: DeserializerArtifact::Data(1), event: DeserializerEvent::Consumed, allow_any: false })
    })
    .unwrap();
    assert!(matches!(out.artifact, DeserializerArtifact::Nothing));
    assert!(out.allow_any);
    assert!(matches!(out.event, DeserializerEvent::Continue(Event::Start(_))));
}

#[test]
fn deserializer_from_start_event() {
    let out: DeserializerOutput<u32, u8> = init_deserializer_from_start_event(Event::Start(tag("a")), |_b| Ok(3u8), |d| Ok(d as u32 * 2)).unwrap();
    assert!(matches!(out.artifact, DeserializerArtifact::Deserializer(3)));
    let out: DeserializerOutput<u32, u8> = init_deserializer_from_start_event(Event::Empty(tag("a")), |_b| Ok(3u8), |d| Ok(d as u32 * 2)).unwrap();
    assert!(matches!(out.artifact, DeserializerArtifact::Data(6)));
    let out: DeserializerOutput<u32, u8> = init_deserializer_from_start_event(Event::Eof, |_b| Ok(3u8), |d| Ok(d as u32 * 2)).unwrap();
    assert!(matches!(out.artifact, DeserializerArtifact::Nothing));
    assert!(matches!(out.event, DeserializerEvent::Continue(Event::Eof)));
}
