use xsd_parser::content::ContentDeserializer;
use xsd_parser::error::Error;
use xsd_parser::event::{
    BytesStart, DeserializerArtifact, DeserializerEvent, DeserializerOutput, ElementHandlerOutput,
    Event,
};
use xsd_parser::handlers::{
    check_complete, content_next_step, finish_content, finish_variant, handle_content, handle_sequence_field,
    handle_variant, store_content, store_value, ChoiceState, ContentState, ContentStep,
    ElementOccurs, SequenceState, content_exit, ContentExit,
};
use xsd_parser::render::ComplexDataContent;
use xsd_parser::render::{MaxOccurs, Occurs};

type D = ContentDeserializer<u32>;

fn start() -> Event {
    Event::Start(BytesStart { name: b"a".to_vec(), attributes: Vec::new() })
}

fn occurs(occurs: Occurs, min_occurs: usize, max_occurs: MaxOccurs) -> ElementOccurs {
    ElementOccurs { occurs, min_occurs, max_occurs }
}

fn single() -> ElementOccurs {
    occurs(Occurs::Single, 1, MaxOccurs::Bounded(1))
}

fn list(max: Option<usize>) -> ElementOccurs {
    let max = match max {
        Some(m) => MaxOccurs::Bounded(m),
        None => MaxOccurs::Unbounded,
    };
    occurs(Occurs::DynamicList, 1, max)
}

fn nothing(event: DeserializerEvent) -> DeserializerOutput<u32, D> {
    DeserializerOutput { artifact: DeserializerArtifact::Nothing, event, allow_any: false }
}

fn data(v: u32, event: DeserializerEvent) -> DeserializerOutput<u32, D> {
    DeserializerOutput { artifact: DeserializerArtifact::Data(v), event, allow_any: false }
}

/// A content deserializer of `u32` that has read `text` so far.
fn pending(text: &str) -> D {
    let out = D::init(start()).unwrap();
    let d = match out.artifact {
        DeserializerArtifact::Deserializer(d) => d,
        _ => panic!("a start tag opens the content"),
    };
    match d.next(Event::Text(text.as_bytes().to_vec())).unwrap().artifact {
        DeserializerArtifact::Deserializer(d) => d,
        _ => panic!("text is gathered"),
    }
}

fn deserializer(text: &str, event: DeserializerEvent) -> DeserializerOutput<u32, D> {
    DeserializerOutput {
        artifact: DeserializerArtifact::Deserializer(pending(text)),
        event,
        allow_any: false,
    }
}

#[test]
fn second_value_of_single_element_is_refused() {
    let mut values = vec![1u32];
    let r = store_value(Occurs::Single, b"el", &mut values, 2);
    assert!(matches!(r, Err(Error::DuplicateElement(ref n)) if n == b"el"));
    assert_eq!(values, vec![1]);
    let mut values = vec![1u32];
    assert!(store_value(Occurs::DynamicList, b"el", &mut values, 2).is_ok());
    assert_eq!(values, vec![1, 2]);
}

#[test]
fn second_content_is_refused() {
    let mut values = vec![1u32];
    assert!(matches!(store_content(Occurs::Optional, &mut values, 2), Err(Error::DuplicateContent)));
    assert_eq!(values, vec![1]);
}

#[test]
fn incomplete_values_are_reported() {
    let none: Vec<u32> = Vec::new();
    assert!(matches!(check_complete(Occurs::Single, b"el", &none), Err(Error::MissingElement(ref n)) if n == b"el"));
    assert!(check_complete(Occurs::Optional, b"el", &none).is_ok());
    let r = check_complete(Occurs::StaticList(2), b"el", &vec![1u32]);
    assert!(matches!(r, Err(Error::InsufficientSize { min: 2, max: 2, actual: 1 })));
    assert!(check_complete(Occurs::StaticList(2), b"el", &vec![1u32, 2]).is_ok());
}

#[test]
fn empty_variant_falls_back_to_init() {
    let mut fallback: Option<D> = None;
    let r = handle_variant(false, single(), b"el", Vec::new(), nothing(DeserializerEvent::Continue(start())), &mut fallback);
    assert!(matches!(r, Ok((ChoiceState::Init, ElementHandlerOutput::Continue { event: Event::Start(_), .. }))));
}

#[test]
fn optional_variant_without_start_breaks() {
    let mut fallback: Option<D> = None;
    let info = occurs(Occurs::Optional, 0, MaxOccurs::Bounded(1));
    let r = handle_variant(false, info, b"el", Vec::new(), nothing(DeserializerEvent::Continue(start())), &mut fallback);
    assert!(matches!(r, Ok((ChoiceState::Variant(ref v, None), ElementHandlerOutput::Break { event: DeserializerEvent::Continue(_), .. })) if v.is_empty()));
}

#[test]
fn variant_resumes_fallback_without_start() {
    let mut fallback = Some(pending("3"));
    let r = handle_variant(false, list(None), b"el", vec![1], nothing(DeserializerEvent::Consumed), &mut fallback);
    assert!(matches!(r, Ok((ChoiceState::Variant(ref v, Some(_)), ElementHandlerOutput::Break { event: DeserializerEvent::Consumed, .. })) if v == &vec![1]));
    assert!(fallback.is_none());
}

#[test]
fn single_value_finishes_the_choice() {
    let mut fallback: Option<D> = None;
    let r = handle_variant(false, single(), b"el", Vec::new(), data(5, DeserializerEvent::Consumed), &mut fallback);
    assert!(matches!(r, Ok((ChoiceState::Done(ref v), ElementHandlerOutput::Break { event: DeserializerEvent::Consumed, .. })) if v == &vec![5]));
}

#[test]
fn element_choice_keeps_the_variant_open() {
    let mut fallback: Option<D> = None;
    let r = handle_variant(true, single(), b"el", Vec::new(), data(5, DeserializerEvent::Consumed), &mut fallback);
    assert!(matches!(r, Ok((ChoiceState::Variant(ref v, None), ElementHandlerOutput::Break { .. })) if v == &vec![5]));
}

#[test]
fn bounded_list_finishes_at_its_bound() {
    let mut fallback: Option<D> = None;
    let r = handle_variant(false, list(Some(2)), b"el", Vec::new(), data(1, DeserializerEvent::Continue(start())), &mut fallback);
    assert!(matches!(r, Ok((ChoiceState::Variant(ref v, None), ElementHandlerOutput::Continue { .. })) if v == &vec![1]));
    let r = handle_variant(false, list(Some(2)), b"el", vec![1], data(2, DeserializerEvent::Continue(start())), &mut fallback);
    assert!(matches!(r, Ok((ChoiceState::Done(ref v), ElementHandlerOutput::Break { event: DeserializerEvent::Continue(_), .. })) if v == &vec![1, 2]));
}

#[test]
fn fallback_value_is_stored_first() {
    let mut fallback = Some(pending("7"));
    let r = handle_variant(false, list(None), b"el", vec![1], data(8, DeserializerEvent::Consumed), &mut fallback);
    assert!(matches!(r, Ok((ChoiceState::Variant(ref v, None), _)) if v == &vec![1, 7, 8]));
    assert!(fallback.is_none());
}

#[test]
fn failing_fallback_fails_the_handler() {
    let mut fallback = Some(pending("x"));
    let r = handle_variant(false, list(None), b"el", vec![1], data(8, DeserializerEvent::Consumed), &mut fallback);
    assert!(matches!(r, Err(Error::InvalidNumber(_))));
}

#[test]
fn unbounded_list_leaves_deserializer_as_fallback() {
    let mut fallback: Option<D> = None;
    let r = handle_variant(false, list(None), b"el", vec![1], deserializer("4", DeserializerEvent::Continue(start())), &mut fallback);
    assert!(matches!(r, Ok((ChoiceState::Variant(ref v, None), ElementHandlerOutput::Continue { .. })) if v == &vec![1]));
    assert!(fallback.is_some());
}

#[test]
fn single_element_keeps_deserializer_until_end() {
    let mut fallback: Option<D> = None;
    let r = handle_variant(false, single(), b"el", Vec::new(), deserializer("4", DeserializerEvent::Continue(start())), &mut fallback);
    assert!(matches!(r, Ok((ChoiceState::Variant(_, Some(_)), ElementHandlerOutput::Break { event: DeserializerEvent::Continue(Event::Start(_)), .. }))));
    let r = handle_variant(false, single(), b"el", Vec::new(), deserializer("4", DeserializerEvent::Continue(Event::End(b"a".to_vec()))), &mut fallback);
    assert!(matches!(r, Ok((ChoiceState::Variant(_, Some(_)), ElementHandlerOutput::Continue { event: Event::End(_), .. }))));
    assert!(fallback.is_none());
}

#[test]
fn full_bounded_list_keeps_deserializer() {
    let mut fallback: Option<D> = None;
    let r = handle_variant(false, list(Some(2)), b"el", vec![1], deserializer("4", DeserializerEvent::Continue(start())), &mut fallback);
    assert!(matches!(r, Ok((ChoiceState::Variant(ref v, Some(_)), ElementHandlerOutput::Break { .. })) if v == &vec![1]));
    assert!(fallback.is_none());
}

#[test]
fn duplicate_variant_value_is_refused() {
    let mut fallback: Option<D> = None;
    let r = handle_variant(true, single(), b"el", vec![1], data(2, DeserializerEvent::Consumed), &mut fallback);
    assert!(matches!(r, Err(Error::DuplicateElement(ref n)) if n == b"el"));
}

#[test]
fn sequence_moves_past_missing_optional_field() {
    let mut values: Vec<u32> = Vec::new();
    let info = occurs(Occurs::Optional, 0, MaxOccurs::Bounded(1));
    let st = handle_sequence_field(info, b"el", &mut values, nothing(DeserializerEvent::Continue(start()))).unwrap();
    assert!(matches!(st.state, SequenceState::Next));
    assert!(matches!(st.fallback, Some(None)));
    assert!(matches!(st.output, ElementHandlerOutput::Continue { .. }));
}

#[test]
fn sequence_breaks_at_missing_required_field() {
    let mut values: Vec<u32> = Vec::new();
    let st = handle_sequence_field(single(), b"el", &mut values, nothing(DeserializerEvent::Continue(start()))).unwrap();
    assert!(matches!(st.state, SequenceState::Field(None)));
    assert!(st.fallback.is_none());
    assert!(matches!(st.output, ElementHandlerOutput::Break { event: DeserializerEvent::Continue(_), .. }));
}

#[test]
fn sequence_stays_at_list_below_bound() {
    let mut values: Vec<u32> = Vec::new();
    let st = handle_sequence_field(list(Some(2)), b"el", &mut values, data(1, DeserializerEvent::Consumed)).unwrap();
    assert!(matches!(st.state, SequenceState::Field(None)));
    assert!(matches!(st.output, ElementHandlerOutput::Break { event: DeserializerEvent::Consumed, .. }));
    let st = handle_sequence_field(list(Some(2)), b"el", &mut values, data(2, DeserializerEvent::Consumed)).unwrap();
    assert!(matches!(st.state, SequenceState::Next));
    assert_eq!(values, vec![1, 2]);
}

#[test]
fn sequence_field_deserializer_becomes_fallback() {
    let mut values: Vec<u32> = Vec::new();
    let st = handle_sequence_field(single(), b"el", &mut values, deserializer("1", DeserializerEvent::Continue(start()))).unwrap();
    assert!(matches!(st.state, SequenceState::Next));
    assert!(matches!(st.fallback, Some(Some(_))));
    let st = handle_sequence_field(single(), b"el", &mut values, deserializer("1", DeserializerEvent::Consumed)).unwrap();
    assert!(matches!(st.state, SequenceState::Field(Some(_))));
    assert!(st.fallback.is_none());
}

#[test]
fn content_without_start_resumes_fallback() {
    let mut values: Vec<u32> = Vec::new();
    let mut fallback = Some(ContentState::Content(pending("2")));
    let r = handle_content(false, list(None), &mut values, nothing(DeserializerEvent::Consumed), &mut fallback);
    assert!(matches!(r, Ok((ContentState::Content(_), ElementHandlerOutput::Break { .. }))));
    let mut fallback: Option<ContentState<D>> = None;
    let r = handle_content(false, list(None), &mut values, nothing(DeserializerEvent::Consumed), &mut fallback);
    assert!(matches!(r, Ok((ContentState::Next, ElementHandlerOutput::Break { .. }))));
}

#[test]
fn single_content_is_done() {
    let mut values: Vec<u32> = Vec::new();
    let mut fallback: Option<ContentState<D>> = None;
    let r = handle_content(false, single(), &mut values, data(3, DeserializerEvent::Consumed), &mut fallback);
    assert!(matches!(r, Ok((ContentState::Done, ElementHandlerOutput::Break { .. }))));
    assert_eq!(values, vec![3]);
    let r = handle_content(false, single(), &mut values, data(4, DeserializerEvent::Consumed), &mut fallback);
    assert!(matches!(r, Err(Error::DuplicateContent)));
}

#[test]
fn content_fallback_is_finished_first() {
    let mut values: Vec<u32> = vec![1];
    let mut fallback = Some(ContentState::Content(pending("2")));
    let r = handle_content(false, list(Some(3)), &mut values, data(3, DeserializerEvent::Consumed), &mut fallback);
    assert!(matches!(r, Ok((ContentState::Done, _))));
    assert_eq!(values, vec![1, 2, 3]);
}

#[test]
fn content_list_can_have_more() {
    let mut values: Vec<u32> = vec![1];
    let mut fallback: Option<ContentState<D>> = None;
    let r = handle_content(false, list(Some(3)), &mut values, deserializer("2", DeserializerEvent::Continue(start())), &mut fallback);
    assert!(matches!(r, Ok((ContentState::Next, ElementHandlerOutput::Continue { .. }))));
    assert!(fallback.is_some());
}

#[test]
fn content_round_starts_a_content_deserializer() {
    let mut values: Vec<u32> = Vec::new();
    let mut fallback: Option<ContentState<D>> = None;
    let (st, step) = content_next_step(false, single(), ContentState::Init, &mut values, &mut fallback, start()).unwrap();
    assert!(matches!(st, ContentState::Content(_)));
    assert!(matches!(step, ContentStep::Break(DeserializerEvent::Consumed, false)));
    assert!(fallback.is_none());
}

#[test]
fn content_round_returns_to_fallback_state() {
    let mut values: Vec<u32> = Vec::new();
    let mut fallback: Option<ContentState<D>> = None;
    let (st, step) = content_next_step(false, single(), ContentState::Init, &mut values, &mut fallback, Event::Text(b"t".to_vec())).unwrap();
    assert!(matches!(st, ContentState::Init));
    assert!(matches!(step, ContentStep::Break(DeserializerEvent::Continue(Event::Text(_)), false)));
}

#[test]
fn content_round_finishes_single_content() {
    let mut values: Vec<u32> = Vec::new();
    let mut fallback: Option<ContentState<D>> = None;
    let state = ContentState::Content(pending("5"));
    let (st, step) = content_next_step(false, single(), state, &mut values, &mut fallback, Event::End(b"a".to_vec())).unwrap();
    assert!(matches!(st, ContentState::Done));
    assert!(matches!(step, ContentStep::Break(DeserializerEvent::Consumed, false)));
    assert_eq!(values, vec![5]);
}

#[test]
fn end_tag_ends_the_type() {
    let mut values: Vec<u32> = Vec::new();
    let mut fallback: Option<ContentState<D>> = None;
    let (st, step) = content_next_step(true, single(), ContentState::Next, &mut values, &mut fallback, Event::End(b"t".to_vec())).unwrap();
    assert!(matches!(st, ContentState::Next));
    assert!(matches!(step, ContentStep::End(DeserializerEvent::Consumed)));
    let (_, step) = content_next_step(false, single(), ContentState::Next, &mut values, &mut fallback, Event::End(b"t".to_vec())).unwrap();
    assert!(matches!(step, ContentStep::End(DeserializerEvent::Continue(Event::End(_)))));
}

#[test]
fn finished_type_hands_events_back() {
    let mut values: Vec<u32> = vec![1];
    let mut fallback: Option<ContentState<D>> = None;
    let (st, step) = content_next_step(false, single(), ContentState::Done, &mut values, &mut fallback, start()).unwrap();
    assert!(matches!(st, ContentState::Done));
    assert!(matches!(step, ContentStep::Break(DeserializerEvent::Continue(Event::Start(_)), false)));
}

#[test]
fn content_is_checked_when_finished() {
    let none: Vec<u32> = Vec::new();
    assert!(matches!(finish_content::<u32, D>(Occurs::Single, none, None), Err(Error::MissingContent)));
    let r = finish_content::<u32, D>(Occurs::StaticList(2), vec![1], None);
    assert!(matches!(r, Err(Error::InsufficientSize { min: 2, max: 2, actual: 1 })));
    let r = finish_content(Occurs::StaticList(2), vec![1], Some(pending("3")));
    assert_eq!(r.unwrap(), vec![1, 3]);
}

#[test]
fn variant_is_finished_with_its_pending_value() {
    let none: Vec<u32> = Vec::new();
    let r = finish_variant::<u32, D>(Occurs::Single, b"el", none, None);
    assert!(matches!(r, Err(Error::MissingElement(ref n)) if n == b"el"));
    let r = finish_variant(Occurs::Optional, b"el", Vec::new(), Some(pending("4")));
    assert_eq!(r.unwrap(), vec![4]);
    let r = finish_variant(Occurs::Single, b"el", vec![1], Some(pending("4")));
    assert!(matches!(r, Err(Error::DuplicateElement(_))));
}

#[test]
fn content_loop_ends_with_value_only_in_done_state() {
    let bounded = ComplexDataContent { is_simple: false, occurs: Occurs::DynamicList, max_occurs: MaxOccurs::Bounded(2) };
    assert_eq!(content_exit::<D>(bounded, false, &ContentState::Done), ContentExit::Finish);
    assert_eq!(content_exit::<D>(bounded, false, &ContentState::Next), ContentExit::Keep);
    assert_eq!(content_exit::<D>(bounded, true, &ContentState::Done), ContentExit::Keep);
    let unbounded = ComplexDataContent { is_simple: false, occurs: Occurs::DynamicList, max_occurs: MaxOccurs::Unbounded };
    assert_eq!(content_exit::<D>(unbounded, false, &ContentState::Done), ContentExit::Keep);
}
