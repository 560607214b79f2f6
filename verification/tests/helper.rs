use xsd_parser::error::Error;
use xsd_parser::content::ContentDeserializer;
use xsd_parser::text::{Text, TextDeserializer};
use xsd_parser::event::{BytesStart, DeserializerArtifact, DeserializerEvent, DeserializerOutput, Event};
use xsd_parser::helper::DeserializeHelper;

fn start() -> Event {
    Event::Start(BytesStart { name: b"a".to_vec(), attributes: Vec::new() })
}

fn output(artifact: DeserializerArtifact<u32, u8>, event: DeserializerEvent, allow_any: bool) -> Result<DeserializerOutput<u32, u8>, Error> {
    Ok(DeserializerOutput { artifact, event, allow_any })
}

#[test]
fn events_pass_without_skip() {
    let mut h: DeserializeHelper<u32, u8> = DeserializeHelper::new();
    assert!(matches!(h.handle_skip(start()), Some(Event::Start(_))));
    assert!(matches!(h.handle_skip(Event::Text(b"x".to_vec())), Some(Event::Text(_))));
}

#[test]
fn unexpected_start_is_skipped_when_any_is_allowed() {
    let mut h: DeserializeHelper<u32, u8> = DeserializeHelper::new();
    let r = h.handle_output(output(DeserializerArtifact::Deserializer(7), DeserializerEvent::Continue(start()), true));
    assert!(matches!(r, Ok(None)));
    assert_eq!(h.take_deserializer(), Some(7));
    // <a> <b/> <c> text </c> </a> : all swallowed, the skip ends at </a>
    assert!(h.handle_skip(Event::Empty(BytesStart { name: b"b".to_vec(), attributes: Vec::new() })).is_none());
    assert!(h.handle_skip(start()).is_none());
    assert!(h.handle_skip(Event::Text(b"t".to_vec())).is_none());
    assert!(h.handle_skip(Event::End(b"c".to_vec())).is_none());
    assert!(h.handle_skip(Event::End(b"a".to_vec())).is_none());
    assert!(matches!(h.handle_skip(Event::Text(b"after".to_vec())), Some(Event::Text(_))));
}

#[test]
fn eof_passes_while_skipping() {
    let mut h: DeserializeHelper<u32, u8> = DeserializeHelper::new();
    let _ = h.handle_output(output(DeserializerArtifact::Nothing, DeserializerEvent::Break(start()), true));
    assert!(matches!(h.handle_skip(Event::Eof), Some(Event::Eof)));
    assert!(h.handle_skip(Event::End(b"a".to_vec())).is_none());
    assert!(matches!(h.handle_skip(Event::Eof), Some(Event::Eof)));
}

#[test]
fn unexpected_event_is_rejected() {
    let mut h: DeserializeHelper<u32, u8> = DeserializeHelper::new();
    let r = h.handle_output(output(DeserializerArtifact::Nothing, DeserializerEvent::Continue(start()), false));
    assert!(matches!(r, Err(Error::UnexpectedEvent(Event::Start(_)))));
}

#[test]
fn ignorable_events_are_ignored() {
    let mut h: DeserializeHelper<u32, u8> = DeserializeHelper::new();
    for e in [Event::Text(b"x".to_vec()), Event::Comment(b"c".to_vec()), Event::Decl(b"d".to_vec()), Event::PI(b"p".to_vec())] {
        let r = h.handle_output(output(DeserializerArtifact::Nothing, DeserializerEvent::Continue(e), false));
        assert!(matches!(r, Ok(None)));
    }
}

#[test]
fn data_is_returned() {
    let mut h: DeserializeHelper<u32, u8> = DeserializeHelper::new();
    let r = h.handle_output(output(DeserializerArtifact::Data(5), DeserializerEvent::Consumed, false));
    assert!(matches!(r, Ok(Some(5))));
    assert_eq!(h.take_deserializer(), None);
}

#[test]
fn errors_are_passed_on() {
    let mut h: DeserializeHelper<u32, u8> = DeserializeHelper::new();
    let r = h.handle_output(Err(Error::MissingContent));
    assert!(matches!(r, Err(Error::MissingContent)));
}

#[test]
fn end_tag_with_allow_any_is_dropped_without_skip() {
    let mut h: DeserializeHelper<u32, u8> = DeserializeHelper::new();
    let r = h.handle_output(output(DeserializerArtifact::Nothing, DeserializerEvent::Continue(Event::End(b"z".to_vec())), true));
    assert!(matches!(r, Ok(None)));
    assert!(matches!(h.handle_skip(start()), Some(Event::Start(_))));
}

#[test]
fn content_value_is_read_through_the_helper() {
    let mut h: DeserializeHelper<u32, ContentDeserializer<u32>> = DeserializeHelper::new();
    assert!(matches!(h.handle_event(Event::Decl(b"xml".to_vec())), Ok(None)));
    assert!(matches!(h.handle_event(start()), Ok(None)));
    assert!(matches!(h.handle_event(Event::Text(b" 42 ".to_vec())), Ok(None)));
    assert!(matches!(h.handle_event(Event::End(b"a".to_vec())), Ok(Some(42))));
}

#[test]
fn text_value_is_read_through_the_helper() {
    let mut h: DeserializeHelper<Text, TextDeserializer> = DeserializeHelper::new();
    assert!(matches!(h.handle_event(Event::Text(b"a &amp; b".to_vec())), Ok(None)));
    let r = h.handle_event(Event::End(b"x".to_vec()));
    assert!(matches!(r, Err(Error::UnexpectedEvent(Event::End(_)))));
}

#[test]
fn failing_deserializer_leaves_nothing_pending() {
    let mut h: DeserializeHelper<u32, ContentDeserializer<u32>> = DeserializeHelper::new();
    assert!(matches!(h.handle_event(start()), Ok(None)));
    assert!(matches!(h.handle_event(Event::Text(b"x1".to_vec())), Ok(None)));
    assert!(matches!(h.handle_event(Event::End(b"a".to_vec())), Err(Error::InvalidNumber(_))));
    assert!(h.take_deserializer().is_none());
}
