use xsd_parser::dynamic::{dynamic_init, map_derived_output, select_derived_type, DerivedTypeName, DynamicInit};
use xsd_parser::event::{BytesStart, DeserializerArtifact, DeserializerEvent, DeserializerOutput, Event};
use xsd_parser::event::{ResolveResult, ResolvedName};

fn derived() -> Vec<DerivedTypeName> {
    vec![
        DerivedTypeName { namespace: Some(b"urn:a".to_vec()), name: b"Car".to_vec() },
        DerivedTypeName { namespace: None, name: b"Bike".to_vec() },
    ]
}

fn resolved(namespace: ResolveResult, local: &str) -> ResolvedName {
    ResolvedName { namespace, local: local.as_bytes().to_vec() }
}

#[test]
fn derived_type_is_found_in_its_namespace() {
    let r = resolved(ResolveResult::Bound(b"urn:a".to_vec()), "Car");
    assert_eq!(select_derived_type(b"a:Car", &r, &derived()), Some(0));
}

#[test]
fn unbound_name_matches_namespaced_type_by_local_name() {
    let r = resolved(ResolveResult::Unbound, "Car");
    assert_eq!(select_derived_type(b"Car", &r, &derived()), Some(0));
}

#[test]
fn type_without_namespace_matches_raw_name() {
    let r = resolved(ResolveResult::Unbound, "Bike");
    assert_eq!(select_derived_type(b"Bike", &r, &derived()), Some(1));
}

#[test]
fn unknown_type_is_not_selected() {
    let r = resolved(ResolveResult::Bound(b"urn:b".to_vec()), "Car");
    assert_eq!(select_derived_type(b"x:Car", &r, &derived()), None);
    let r = resolved(ResolveResult::Unknown(b"x".to_vec()), "Car");
    assert_eq!(select_derived_type(b"x:Car", &r, &derived()), None);
}

fn start() -> Event {
    Event::Start(BytesStart { name: b"a:Car".to_vec(), attributes: Vec::new() })
}

#[test]
fn dynamic_type_starts_the_named_derived_type() {
    let r = resolved(ResolveResult::Bound(b"urn:a".to_vec()), "Car");
    let init: DynamicInit<u32, u8> = dynamic_init(start(), Some(b"a:Car".to_vec()), &r, &derived());
    assert!(matches!(init, DynamicInit::Start(0, Event::Start(_))));
    let r = resolved(ResolveResult::Unbound, "Plane");
    let init: DynamicInit<u32, u8> = dynamic_init(start(), Some(b"Plane".to_vec()), &r, &derived());
    assert!(matches!(init, DynamicInit::Answer(DeserializerOutput { artifact: DeserializerArtifact::Nothing, event: DeserializerEvent::Break(Event::Start(_)), allow_any: false })));
    let init: DynamicInit<u32, u8> = dynamic_init(Event::Text(b"t".to_vec()), None, &r, &derived());
    assert!(matches!(init, DynamicInit::Answer(DeserializerOutput { artifact: DeserializerArtifact::Nothing, event: DeserializerEvent::Continue(Event::Text(_)), allow_any: false })));
}

#[test]
fn derived_answers_become_the_dynamic_answers() {
    let out: DeserializerOutput<u8, u8> = DeserializerOutput { artifact: DeserializerArtifact::Data(3), event: DeserializerEvent::Consumed, allow_any: true };
    let m: DeserializerOutput<Box<u8>, (usize, u8)> = map_derived_output(out, Box::new, |d| (1, d));
    assert!(matches!(m.artifact, DeserializerArtifact::Data(ref b) if **b == 3));
    assert!(m.allow_any);
    let out: DeserializerOutput<u8, u8> = DeserializerOutput { artifact: DeserializerArtifact::Deserializer(7), event: DeserializerEvent::Consumed, allow_any: false };
    let m: DeserializerOutput<Box<u8>, (usize, u8)> = map_derived_output(out, Box::new, |d| (1, d));
    assert!(matches!(m.artifact, DeserializerArtifact::Deserializer((1, 7))));
}
