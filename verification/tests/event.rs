use xsd_parser::event::{DeserializerArtifact, DeserializerEvent, ElementHandlerOutput, Event};

fn end() -> Event {
    Event::End(b"a".to_vec())
}

#[test]
fn handler_output_from_event() {
    assert!(matches!(ElementHandlerOutput::from_event(DeserializerEvent::Continue(end()), true), ElementHandlerOutput::Continue { event: Event::End(_), allow_any: true }));
    assert!(matches!(
        ElementHandlerOutput::from_event(DeserializerEvent::Continue(Event::Text(vec![])), false),
        ElementHandlerOutput::Break { event: DeserializerEvent::Continue(Event::Text(_)), allow_any: false }
    ));
    assert!(matches!(ElementHandlerOutput::from_event(DeserializerEvent::Consumed, false), ElementHandlerOutput::Break { event: DeserializerEvent::Consumed, .. }));
    assert!(matches!(ElementHandlerOutput::from_event(DeserializerEvent::Break(end()), false), ElementHandlerOutput::Break { event: DeserializerEvent::Break(_), .. }));
}

#[test]
fn handler_output_from_event_end() {
    assert!(matches!(ElementHandlerOutput::from_event_end(DeserializerEvent::Continue(end()), false), ElementHandlerOutput::Continue { .. }));
    assert!(matches!(
        ElementHandlerOutput::from_event_end(DeserializerEvent::Continue(Event::Eof), false),
        ElementHandlerOutput::Break { event: DeserializerEvent::Continue(Event::Eof), .. }
    ));
    assert!(matches!(ElementHandlerOutput::return_to_root(Event::Eof, true), ElementHandlerOutput::Break { event: DeserializerEvent::Break(Event::Eof), allow_any: true }));
    assert!(matches!(ElementHandlerOutput::continue_(Event::Eof, true), ElementHandlerOutput::Continue { event: Event::Eof, allow_any: true }));
}

#[test]
fn artifacts() {
    let a: DeserializerArtifact<u32, u8> = DeserializerArtifact::from_data(Some(4));
    assert!(matches!(a.into_parts(), (Some(4), None)));
    let a: DeserializerArtifact<u32, u8> = DeserializerArtifact::from_deserializer(Some(2));
    assert!(!a.is_none());
    let m: DeserializerArtifact<u64, u16> = a.map(|x| x as u64, |d| d as u16 + 1);
    assert!(matches!(m, DeserializerArtifact::Deserializer(3)));
    let a: DeserializerArtifact<u32, u8> = DeserializerArtifact::from_data(None);
    assert!(a.is_none());
    assert!(DeserializerEvent::Consumed.into_event().is_none());
    assert!(matches!(DeserializerEvent::Break(Event::Eof).into_event(), Some(Event::Eof)));
}
