//! The element handlers of generated deserializers: what the code that the
//! renderer emits for one element of a choice or of a sequence, or for the
//! complex content of a type, does with the answer of the child's own
//! deserializer. Each handler keeps the values read so far, decides the next
//! state, and tells its caller whether to go on with the event or to break.

use vstd::prelude::*;

use crate::bytes::to_vec;
use crate::deserializer::Deserializer;
use crate::error::Error;
use crate::event::{
    output_from_event, output_from_event_end, DeserializerArtifact, DeserializerEvent,
    DeserializerOutput, ElementHandlerOutput, Event,
};
use crate::render::{
    ComplexDataContent, data_handler, deserializer_handler, fallback_check, DataHandler, DeserializerHandler,
    FallbackCheck, MaxOccurs, Occurs,
};

verus! {

/// What a generated deserializer knows of how often one of its elements occurs.
#[derive(Debug, Clone, Copy)]
pub struct ElementOccurs {
    pub occurs: Occurs,
    pub min_occurs: usize,
    pub max_occurs: MaxOccurs,
}

/// The element keeps at most one value (in an `Option`) rather than a list.
pub open spec fn single_valued(occurs: Occurs) -> bool {
    occurs is Single || occurs is Optional
}

/// What storing one more value into `values` gives: an element that keeps at
/// most one value refuses a second one, a list takes any number.
pub open spec fn stored<V>(occurs: Occurs, values: Seq<V>, value: V) -> Option<Seq<V>> {
    if single_valued(occurs) && values.len() > 0 {
        None
    } else {
        Some(values.push(value))
    }
}

/// Stores a finished value of the element named `name`. A second value of an
/// element that occurs at most once is refused with
/// [`Error::DuplicateElement`] and leaves the values unchanged.
pub fn store_value<V>(occurs: Occurs, name: &[u8], values: &mut Vec<V>, value: V) -> (r: Result<
    (),
    Error,
>)
    ensures
        match stored(occurs, old(values)@, value) {
            Some(s) => r is Ok && final(values)@ == s,
            None => final(values)@ == old(values)@ && (r matches Err(Error::DuplicateElement(n))
                && n@ == name@),
        },
{
    let single = match occurs {
        Occurs::Single | Occurs::Optional => true,
        _ => false,
    };
    if single && values.len() > 0 {
        return Err(Error::DuplicateElement(to_vec(name)));
    }
    values.push(value);
    Ok(())
}

/// The values of a finished element are complete: a required single value is
/// present, and a fixed size list has exactly its size.
pub open spec fn complete(occurs: Occurs, len: nat) -> bool {
    match occurs {
        Occurs::Single => len > 0,
        Occurs::StaticList(n) => len == n,
        _ => true,
    }
}

/// Checks that the values of the finished element named `name` are complete:
/// a missing required value is [`Error::MissingElement`], a fixed size list
/// of another length is [`Error::InsufficientSize`] with that size as bounds.
pub fn check_complete<V>(occurs: Occurs, name: &[u8], values: &Vec<V>) -> (r: Result<(), Error>)
    ensures
        r is Ok <==> complete(occurs, values@.len()),
        occurs is Single && values@.len() == 0 ==> (r matches Err(Error::MissingElement(n)) && n@
            == name@),
        match occurs {
            Occurs::StaticList(sz) => values@.len() != sz ==> r == Err::<(), Error>(
                Error::InsufficientSize { min: sz, max: sz, actual: values.len() },
            ),
            _ => true,
        },
{
    match occurs {
        Occurs::Single => {
            if values.len() == 0 {
                return Err(Error::MissingElement(to_vec(name)));
            }
        },
        Occurs::StaticList(sz) => {
            if values.len() != sz {
                return Err(Error::InsufficientSize { min: sz, max: sz, actual: values.len() });
            }
        },
        _ => {},
    }
    Ok(())
}

/// The state of a generated choice deserializer as far as one of its
/// variants goes.
#[derive(Debug)]
pub enum ChoiceState<V, D> {
    /// Nothing read yet: every variant is still possible.
    Init,
    /// Reading the variant: the values read so far and the deserializer of a
    /// value that is not finished yet.
    Variant(Vec<V>, Option<D>),
    /// The variant is finished with these values.
    Done(Vec<V>),
}

/// Whether a choice falls back to its start state when the variant's element
/// does not start: while a single element has no value, or a list with a
/// lower bound is empty.
pub open spec fn falls_back_to_init(info: ElementOccurs, len: nat) -> bool {
    match info.occurs {
        Occurs::Single => len == 0,
        Occurs::DynamicList | Occurs::StaticList(_) => info.min_occurs > 0 && len == 0,
        _ => false,
    }
}

/// The finished values of a variant that holds `values`: complete values are
/// kept, a missing required value is [`Error::MissingElement`], and a fixed
/// size list of another length is [`Error::InsufficientSize`].
pub open spec fn variant_finished<V>(
    occurs: Occurs,
    name: Seq<u8>,
    values: Seq<V>,
    r: Result<Vec<V>, Error>,
) -> bool {
    &&& r is Ok <==> complete(occurs, values.len())
    &&& r matches Ok(v) ==> v@ == values
    &&& occurs is Single && values.len() == 0 ==> (r matches Err(Error::MissingElement(n)) && n@
        == name)
    &&& match occurs {
        Occurs::StaticList(sz) => values.len() != sz ==> r == Err::<Vec<V>, Error>(
            Error::InsufficientSize { min: sz, max: sz, actual: values.len() as usize },
        ),
        _ => true,
    }
}

/// Finishes a variant: the value of a pending deserializer is finished and
/// stored, then the values must be complete. An error of the pending
/// deserializer, or a second value where one is allowed, is passed on.
pub fn finish_variant<V, D: Deserializer<V>>(
    occurs: Occurs,
    name: &[u8],
    values: Vec<V>,
    deserializer: Option<D>,
) -> (r: Result<Vec<V>, Error>)
    ensures
        match deserializer {
            None => variant_finished(occurs, name@, values@, r),
            Some(d) => exists|fr: Result<V, Error>|
                #[trigger] d.finish_ensures(fr) && match fr {
                    Err(e) => r == Err::<Vec<V>, Error>(e),
                    Ok(x) => match stored(occurs, values@, x) {
                        None => r matches Err(Error::DuplicateElement(n)) && n@ == name@,
                        Some(s) => variant_finished(occurs, name@, s, r),
                    },
                },
        },
{
    let ghost start = values@;
    let mut values = values;
    if let Some(d) = deserializer {
        let fr = d.finish();
        let ghost answer = fr;
        assert(d.finish_ensures(answer));
        let value = fr?;
        let ghost x = value;
        store_value(occurs, name, &mut values, value)?;
        assert(stored(occurs, start, x) == Some(values@));
    }
    check_complete(occurs, name, &values)?;
    Ok(values)
}

/// A list element may start another value next to a pending one: it has no
/// upper bound, or the values with the pending one stay below it.
pub open spec fn can_have_more(max_occurs: MaxOccurs, len: nat) -> bool {
    match max_occurs {
        MaxOccurs::Unbounded => true,
        MaxOccurs::Bounded(max) => len + 1 < max,
    }
}

/// What the handler of a choice variant answers to finished data, once the
/// values `s` include it: an element that occurs once, or a list that reached
/// its upper bound, finishes the choice (when the choice is not an element
/// itself) and breaks; otherwise the variant stays open for the next value.
pub open spec fn variant_data_answer<V, D>(
    represents_element: bool,
    info: ElementOccurs,
    s: Seq<V>,
    event: DeserializerEvent,
    allow_any: bool,
    r: Result<(ChoiceState<V, D>, ElementHandlerOutput), Error>,
) -> bool {
    let finishes = !represents_element && (single_valued(info.occurs) || (
    info.max_occurs matches MaxOccurs::Bounded(max) && s.len() >= max));
    if !finishes {
        r matches Ok((ChoiceState::Variant(vs, None), out)) && vs@ == s && out == output_from_event(
            event,
            allow_any,
        )
    } else if complete(info.occurs, s.len()) {
        r matches Ok((ChoiceState::Done(vs), out)) && vs@ == s && out == (ElementHandlerOutput::Break {
            event,
            allow_any,
        })
    } else {
        r is Err
    }
}

/// What the handler of a choice variant answers to a deserializer that is not
/// finished: an element that occurs once keeps it and goes on only with an end
/// tag; a list that can have more values goes on with any tag, leaving the
/// deserializer as fallback; otherwise the deserializer is kept.
pub open spec fn variant_deserializer_answer<V, D>(
    info: ElementOccurs,
    values: Seq<V>,
    d: D,
    event: DeserializerEvent,
    allow_any: bool,
    r: Result<(ChoiceState<V, D>, ElementHandlerOutput), Error>,
    fallback: Option<D>,
) -> bool {
    let more = !single_valued(info.occurs) && can_have_more(info.max_occurs, values.len());
    let out = if more {
        output_from_event(event, allow_any)
    } else {
        output_from_event_end(event, allow_any)
    };
    if more && out is Continue {
        &&& r matches Ok((ChoiceState::Variant(vs, None), o)) && vs@ == values && o == out
        &&& fallback == Some(d)
    } else {
        &&& r matches Ok((ChoiceState::Variant(vs, Some(x)), o)) && vs@ == values && x == d && o == out
        &&& fallback is None
    }
}

fn variant_answer<V, D>(
    represents_element: bool,
    info: ElementOccurs,
    name: &[u8],
    values: Vec<V>,
    artifact: DeserializerArtifact<V, D>,
    event: DeserializerEvent,
    allow_any: bool,
    fallback: &mut Option<D>,
) -> (r: Result<(ChoiceState<V, D>, ElementHandlerOutput), Error>)
    requires
        !(info.occurs is Absent),
        !(artifact is Nothing),
        *old(fallback) is None,
    ensures
        artifact matches DeserializerArtifact::Data(x) ==> match stored(info.occurs, values@, x) {
            None => r matches Err(Error::DuplicateElement(n)) && n@ == name@,
            Some(s) => variant_data_answer(represents_element, info, s, event, allow_any, r),
        },
        artifact matches DeserializerArtifact::Data(x) ==> *final(fallback) is None,
        artifact matches DeserializerArtifact::Deserializer(d) ==> variant_deserializer_answer(
            info,
            values@,
            d,
            event,
            allow_any,
            r,
            *final(fallback),
        ),
{
    let mut values = values;
    match artifact {
        DeserializerArtifact::Data(data) => {
            store_value(info.occurs, name, &mut values, data)?;
            let finishes = match data_handler(represents_element, info.occurs, info.max_occurs) {
                DataHandler::Finish => true,
                DataHandler::FinishAtMax(max) => values.len() >= max,
                DataHandler::Continue => false,
            };
            if finishes {
                check_complete(info.occurs, name, &values)?;
                Ok((ChoiceState::Done(values), ElementHandlerOutput::Break { event, allow_any }))
            } else {
                Ok((ChoiceState::Variant(values, None), ElementHandlerOutput::from_event(event, allow_any)))
            }
        },
        DeserializerArtifact::Deserializer(d) => {
            let more = match deserializer_handler(info.occurs, info.max_occurs) {
                DeserializerHandler::AwaitEnd => false,
                DeserializerHandler::MoreBelowMax(max) => values.len().saturating_add(1) < max,
                DeserializerHandler::More => true,
            };
            let out = if more {
                ElementHandlerOutput::from_event(event, allow_any)
            } else {
                ElementHandlerOutput::from_event_end(event, allow_any)
            };
            let goes_on = match out {
                ElementHandlerOutput::Continue { .. } => true,
                _ => false,
            };
            if more && goes_on {
                *fallback = Some(d);
                Ok((ChoiceState::Variant(values, None), out))
            } else {
                Ok((ChoiceState::Variant(values, Some(d)), out))
            }
        },
        DeserializerArtifact::Nothing => vstd::pervasive::unreached(),
    }
}

/// Within the upper bound `max` of a list: the values read so far stay below
/// it, also with the value of a kept deserializer, and with that of a
/// fallback deserializer strictly below it.
pub open spec fn within_bound(max: nat, len: nat, kept: bool, fallback: bool) -> bool {
    &&& len < max
    &&& kept ==> len + 1 <= max
    &&& fallback ==> len + 1 < max
}

/// A choice state keeps the variant's list within its upper bound `max`; a
/// finished variant holds at most `max` values.
pub open spec fn choice_within_bound<V, D>(max: nat, state: ChoiceState<V, D>, fallback: bool) -> bool {
    match state {
        ChoiceState::Init => !fallback,
        ChoiceState::Variant(vs, kept) => within_bound(max, vs@.len(), kept is Some, fallback),
        ChoiceState::Done(vs) => vs@.len() <= max,
    }
}

/// The handler of a choice variant for the answer `output` of the element's
/// deserializer, with the `values` read so far and the `fallback` deserializer
/// an earlier call left.
///
/// Without an artifact the event did not start the element: the variant keeps
/// the fallback deserializer, or the choice falls back to its start and goes on
/// with the event while the variant holds no value (see
/// [`falls_back_to_init`]); otherwise it breaks. With an artifact, a fallback
/// deserializer is finished and its value stored first, then the data or the
/// deserializer is handled. A choice that is not an element itself keeps a
/// list with an upper bound within it (see [`choice_within_bound`]).
pub fn handle_variant<V, D: Deserializer<V>>(
    represents_element: bool,
    info: ElementOccurs,
    name: &[u8],
    values: Vec<V>,
    output: DeserializerOutput<V, D>,
    fallback: &mut Option<D>,
) -> (r: Result<(ChoiceState<V, D>, ElementHandlerOutput), Error>)
    requires
        !(info.occurs is Absent),
    ensures
        output.artifact is Nothing ==> *final(fallback) is None,
        output.artifact is Nothing ==> match *old(fallback) {
            Some(d) => r matches Ok((ChoiceState::Variant(vs, Some(x)), out)) && vs@ == values@ && x
                == d && out == (ElementHandlerOutput::Break {
                event: output.event,
                allow_any: output.allow_any,
            }),
            None => if falls_back_to_init(info, values@.len()) {
                r matches Ok((ChoiceState::Init, out)) && out == output_from_event(
                    output.event,
                    output.allow_any,
                )
            } else {
                r matches Ok((ChoiceState::Variant(vs, None), out)) && vs@ == values@ && out == (
                ElementHandlerOutput::Break { event: output.event, allow_any: output.allow_any })
            },
        },
        !(output.artifact is Nothing) && *old(fallback) is None ==> variant_answered(
            represents_element,
            info,
            name@,
            values@,
            output,
            r,
            *final(fallback),
        ),
        !(output.artifact is Nothing) ==> match *old(fallback) {
            None => true,
            Some(d) => exists|fr: Result<V, Error>|
                #[trigger] d.finish_ensures(fr) && match fr {
                    Err(e) => r == Err::<(ChoiceState<V, D>, ElementHandlerOutput), Error>(e),
                    Ok(x) => match stored(info.occurs, values@, x) {
                        None => r matches Err(Error::DuplicateElement(n)) && n@ == name@,
                        Some(s) => variant_answered(
                            represents_element,
                            info,
                            name@,
                            s,
                            output,
                            r,
                            *final(fallback),
                        ),
                    },
                },
        },
        !represents_element && !single_valued(info.occurs) ==> match info.max_occurs {
            MaxOccurs::Bounded(m) => within_bound(m as nat, values@.len(), false, old(fallback).is_some())
                ==> (r matches Ok((st, _)) ==> choice_within_bound(m as nat, st, final(fallback).is_some())),
            MaxOccurs::Unbounded => true,
        },
{
    let DeserializerOutput { artifact, event, allow_any } = output;
    if artifact.is_none() {
        let state = match fallback.take() {
            None => {
                let empty = match fallback_check(info.occurs, info.min_occurs) {
                    Some(FallbackCheck::NoValue) | Some(FallbackCheck::EmptyList) => values.len()
                        == 0,
                    None => false,
                };
                if empty {
                    return Ok((ChoiceState::Init, ElementHandlerOutput::from_event(event, allow_any)));
                }
                ChoiceState::Variant(values, None)
            },
            Some(d) => ChoiceState::Variant(values, Some(d)),
        };
        return Ok((state, ElementHandlerOutput::break_(event, allow_any)));
    }
    let ghost start = values@;
    let mut values = values;
    if let Some(d) = fallback.take() {
        let fr = d.finish();
        let ghost answer = fr;
        assert(d.finish_ensures(answer));
        let value = fr?;
        let ghost x = value;
        store_value(info.occurs, name, &mut values, value)?;
        assert(stored(info.occurs, start, x) == Some(values@));
    }
    variant_answer(represents_element, info, name, values, artifact, event, allow_any, fallback)
}

/// The handler of a choice variant answered `r` to `output` with the values
/// `values` (those read before plus the value of a finished fallback).
pub open spec fn variant_answered<V, D>(
    represents_element: bool,
    info: ElementOccurs,
    name: Seq<u8>,
    values: Seq<V>,
    output: DeserializerOutput<V, D>,
    r: Result<(ChoiceState<V, D>, ElementHandlerOutput), Error>,
    fallback: Option<D>,
) -> bool {
    match output.artifact {
        DeserializerArtifact::Data(x) => {
            &&& fallback is None
            &&& match stored(info.occurs, values, x) {
                None => r matches Err(Error::DuplicateElement(n)) && n@ == name,
                Some(s) => variant_data_answer(
                    represents_element,
                    info,
                    s,
                    output.event,
                    output.allow_any,
                    r,
                ),
            }
        },
        DeserializerArtifact::Deserializer(d) => variant_deserializer_answer(
            info,
            values,
            d,
            output.event,
            output.allow_any,
            r,
            fallback,
        ),
        DeserializerArtifact::Nothing => false,
    }
}

/// Where a sequence deserializer stands after the handler of one of its fields.
#[derive(Debug)]
pub enum SequenceState<D> {
    /// At the field, with the deserializer of a value that is not finished yet.
    Field(Option<D>),
    /// Moved on to the next field (or finished after the last one).
    Next,
}

/// The outcome of the handler of a sequence field.
#[derive(Debug)]
pub struct SequenceStep<D> {
    /// The new state of the sequence deserializer.
    pub state: SequenceState<D>,
    /// The state this field offers as fallback, for the case that no later
    /// field takes the event: the field with the deserializer it holds, if any.
    /// It is set only where no fallback is set yet.
    pub fallback: Option<Option<D>>,
    /// Whether the sequence goes on with the event or breaks.
    pub output: ElementHandlerOutput,
}

/// Whether a field that did not start lets the sequence move on: when it may
/// be missing, or it holds enough values already.
pub open spec fn field_may_end(info: ElementOccurs, len: nat) -> bool {
    ||| info.min_occurs == 0
    ||| info.occurs is Optional
    ||| (info.occurs is Single && len > 0)
    ||| ((info.occurs is DynamicList || info.occurs is StaticList) && len >= info.min_occurs)
}

/// A field that did not start lets the sequence move on exactly when it holds
/// enough values: a list once it holds `min_occurs` values, a single field
/// once it holds its value or when it may be missing, an optional field always.
pub proof fn lemma_field_may_end_counts(info: ElementOccurs, len: nat)
    ensures
        (info.occurs is DynamicList || info.occurs is StaticList) ==> (field_may_end(info, len)
            <==> len >= info.min_occurs),
        info.occurs is Single ==> (field_may_end(info, len) <==> (info.min_occurs == 0 || len >= 1)),
        info.occurs is Optional ==> field_may_end(info, len),
{
}

/// Whether the sequence stays at a list field with `len` values for another one.
pub open spec fn field_stays(info: ElementOccurs, len: nat) -> bool {
    !single_valued(info.occurs) && match info.max_occurs {
        MaxOccurs::Unbounded => true,
        MaxOccurs::Bounded(max) => len < max,
    }
}

/// A sequence step keeps a list field with the upper bound `max` within it:
/// at the field as a choice does (see [`within_bound`]), and after moving on
/// with at most `max` values, counting the value of a fallback deserializer.
pub open spec fn sequence_within_bound<D>(max: nat, len: nat, st: SequenceStep<D>) -> bool {
    let pending_fallback = st.fallback matches Some(Some(_));
    match st.state {
        SequenceState::Field(kept) => within_bound(max, len, kept is Some, pending_fallback),
        SequenceState::Next => len + (if pending_fallback {
            1int
        } else {
            0int
        }) <= max,
    }
}

/// The handler of a sequence field for the answer `output` of the field's
/// deserializer, with the field's `values`. A fallback that an earlier handler
/// left is finished by the caller before it hands over data or a deserializer.
///
/// Without an artifact the field did not start: the sequence moves on to the
/// next field, offering this field as fallback, when the field may end (see
/// [`field_may_end`]), and breaks at the field otherwise. Data is stored, and
/// the sequence stays at a list field below its upper bound and moves on
/// otherwise. A deserializer that breaks is kept at the field; one that goes
/// on becomes the fallback while the sequence stays at a list field that can
/// have more values, or moves on. A list field with an upper bound entered
/// below it is kept within it (see [`sequence_within_bound`]).
pub fn handle_sequence_field<V, D>(
    info: ElementOccurs,
    name: &[u8],
    values: &mut Vec<V>,
    output: DeserializerOutput<V, D>,
) -> (r: Result<SequenceStep<D>, Error>)
    requires
        !(info.occurs is Absent),
    ensures
        output.artifact is Nothing ==> final(values)@ == old(values)@,
        output.artifact is Nothing && (info.occurs is DynamicList || info.occurs is StaticList)
            ==> (r matches Ok(st) && (st.state is Next <==> old(values)@.len() >= info.min_occurs)),
        output.artifact is Nothing ==> if field_may_end(info, old(values)@.len()) {
            r matches Ok(st) && st.state is Next && st.fallback == Some(None::<D>) && st.output
                == output_from_event(output.event, output.allow_any)
        } else {
            r matches Ok(st) && st.state == SequenceState::<D>::Field(None) && st.fallback is None
                && st.output == (ElementHandlerOutput::Break {
                event: output.event,
                allow_any: output.allow_any,
            })
        },
        output.artifact matches DeserializerArtifact::Data(x) ==> match stored(
            info.occurs,
            old(values)@,
            x,
        ) {
            None => final(values)@ == old(values)@ && (r matches Err(Error::DuplicateElement(n))
                && n@ == name@),
            Some(s) => {
                &&& final(values)@ == s
                &&& r matches Ok(st)
                &&& st.state == if field_stays(info, s.len()) {
                    SequenceState::<D>::Field(None)
                } else {
                    SequenceState::<D>::Next
                }
                &&& st.fallback is None
                &&& st.output == output_from_event(output.event, output.allow_any)
            },
        },
        output.artifact matches DeserializerArtifact::Deserializer(d) ==> {
            &&& final(values)@ == old(values)@
            &&& r matches Ok(st)
            &&& st.output == output_from_event(output.event, output.allow_any)
            &&& if st.output is Continue {
                &&& st.fallback == Some(Some(d))
                &&& st.state == if field_stays(info, old(values)@.len() + 1) {
                    SequenceState::<D>::Field(None)
                } else {
                    SequenceState::<D>::Next
                }
            } else {
                st.state == SequenceState::Field(Some(d)) && st.fallback is None
            }
        },
        !single_valued(info.occurs) ==> match info.max_occurs {
            MaxOccurs::Bounded(m) => old(values)@.len() < m ==> (r matches Ok(st)
                ==> sequence_within_bound(m as nat, final(values)@.len(), st)),
            MaxOccurs::Unbounded => true,
        },
{
    let DeserializerOutput { artifact, event, allow_any } = output;
    match artifact {
        DeserializerArtifact::Nothing => {
            let may_end = info.min_occurs == 0 || match info.occurs {
                Occurs::Optional => true,
                Occurs::Single => values.len() > 0,
                _ => values.len() >= info.min_occurs,
            };
            if may_end {
                Ok(
                    SequenceStep {
                        state: SequenceState::Next,
                        fallback: Some(None),
                        output: ElementHandlerOutput::from_event(event, allow_any),
                    },
                )
            } else {
                Ok(
                    SequenceStep {
                        state: SequenceState::Field(None),
                        fallback: None,
                        output: ElementHandlerOutput::break_(event, allow_any),
                    },
                )
            }
        },
        DeserializerArtifact::Data(data) => {
            store_value(info.occurs, name, values, data)?;
            let stays = stays_at_field(info, values.len());
            let state = if stays {
                SequenceState::Field(None)
            } else {
                SequenceState::Next
            };
            Ok(
                SequenceStep {
                    state,
                    fallback: None,
                    output: ElementHandlerOutput::from_event(event, allow_any),
                },
            )
        },
        DeserializerArtifact::Deserializer(d) => {
            let out = ElementHandlerOutput::from_event(event, allow_any);
            match out {
                ElementHandlerOutput::Continue { .. } => {
                    let stays = stays_at_field(info, values.len().saturating_add(1));
                    let state = if stays {
                        SequenceState::Field(None)
                    } else {
                        SequenceState::Next
                    };
                    Ok(SequenceStep { state, fallback: Some(Some(d)), output: out })
                },
                ElementHandlerOutput::Break { .. } => {
                    Ok(
                        SequenceStep {
                            state: SequenceState::Field(Some(d)),
                            fallback: None,
                            output: out,
                        },
                    )
                },
            }
        },
    }
}

fn stays_at_field(info: ElementOccurs, len: usize) -> (r: bool)
    ensures
        r == field_stays(info, len as nat),
{
    match (info.occurs, info.max_occurs) {
        (Occurs::Single, _) | (Occurs::Optional, _) => false,
        (_, MaxOccurs::Bounded(max)) => len < max,
        _ => true,
    }
}

/// The state of the deserializer of a type with complex content.
#[derive(Debug)]
pub enum ContentState<D> {
    /// Nothing read yet.
    Init,
    /// Ready for the next content value.
    Next,
    /// Reading a content value with the given deserializer.
    Content(D),
    /// The content is complete.
    Done,
}

/// Stores a finished content value: content that occurs at most once refuses
/// a second value with [`Error::DuplicateContent`] and is left unchanged.
pub fn store_content<V>(occurs: Occurs, values: &mut Vec<V>, value: V) -> (r: Result<(), Error>)
    ensures
        match stored(occurs, old(values)@, value) {
            Some(s) => r is Ok && final(values)@ == s,
            None => final(values)@ == old(values)@ && r matches Err(Error::DuplicateContent),
        },
{
    let single = match occurs {
        Occurs::Single | Occurs::Optional => true,
        _ => false,
    };
    if single && values.len() > 0 {
        return Err(Error::DuplicateContent);
    }
    values.push(value);
    Ok(())
}

/// What the content handler answers to finished data, once the `len` values
/// include it: content that occurs once, or a list that reached its upper
/// bound, is done and breaks (when the type is not an element itself);
/// otherwise the type is ready for the next value.
pub open spec fn content_data_answer<D>(
    represents_element: bool,
    info: ElementOccurs,
    len: nat,
    event: DeserializerEvent,
    allow_any: bool,
    r: Result<(ContentState<D>, ElementHandlerOutput), Error>,
) -> bool {
    let finishes = !represents_element && (single_valued(info.occurs) || (
    info.max_occurs matches MaxOccurs::Bounded(max) && len >= max));
    if finishes {
        r == Ok::<(ContentState<D>, ElementHandlerOutput), Error>(
            (ContentState::Done, ElementHandlerOutput::Break { event, allow_any }),
        )
    } else {
        r == Ok::<(ContentState<D>, ElementHandlerOutput), Error>(
            (ContentState::Next, output_from_event(event, allow_any)),
        )
    }
}

/// What the content handler answers to a deserializer that is not finished,
/// as a choice variant does (see [`variant_deserializer_answer`]).
pub open spec fn content_deserializer_answer<D>(
    info: ElementOccurs,
    len: nat,
    d: D,
    event: DeserializerEvent,
    allow_any: bool,
    r: Result<(ContentState<D>, ElementHandlerOutput), Error>,
    fallback: Option<ContentState<D>>,
) -> bool {
    let more = !single_valued(info.occurs) && can_have_more(info.max_occurs, len);
    let out = if more {
        output_from_event(event, allow_any)
    } else {
        output_from_event_end(event, allow_any)
    };
    if more && out is Continue {
        r == Ok::<(ContentState<D>, ElementHandlerOutput), Error>((ContentState::Next, out))
            && fallback == Some(ContentState::Content(d))
    } else {
        r == Ok::<(ContentState<D>, ElementHandlerOutput), Error>((ContentState::Content(d), out))
            && fallback is None
    }
}

/// The fallback holds a content deserializer.
pub open spec fn pending_content<D>(fallback: Option<ContentState<D>>) -> bool {
    fallback matches Some(ContentState::Content(_))
}

/// A content state keeps a content list within its upper bound `max`, as a
/// choice state does (see [`choice_within_bound`]).
pub open spec fn content_within_bound<D>(max: nat, len: nat, state: ContentState<D>, fallback: bool) -> bool {
    match state {
        ContentState::Init | ContentState::Next => within_bound(max, len, false, fallback),
        ContentState::Content(_) => within_bound(max, len, true, fallback),
        ContentState::Done => len <= max,
    }
}

/// The handler of the complex content of a type for the answer `output` of the
/// content's deserializer, with the content `values` read so far and the
/// `fallback` state that the deserializer or an earlier call left.
///
/// Without an artifact the content did not start: the type returns to the
/// fallback state, or is ready for the next value, and breaks. With an
/// artifact, the deserializer of a fallback state is finished and its value
/// stored first;
/// then data is stored (see [`content_data_answer`]) or the deserializer is
/// handled (see [`content_deserializer_answer`]). Content of a type that is not
/// an element itself is kept within an upper bound (see [`content_within_bound`]).
pub fn handle_content<V, D: Deserializer<V>>(
    represents_element: bool,
    info: ElementOccurs,
    values: &mut Vec<V>,
    output: DeserializerOutput<V, D>,
    fallback: &mut Option<ContentState<D>>,
) -> (r: Result<(ContentState<D>, ElementHandlerOutput), Error>)
    requires
        !(info.occurs is Absent),
    ensures
        content_handled(
            represents_element,
            info,
            old(values)@,
            *old(fallback),
            output,
            final(values)@,
            *final(fallback),
            r,
        ),
        !represents_element && !single_valued(info.occurs) ==> match info.max_occurs {
            MaxOccurs::Bounded(m) => within_bound(
                m as nat,
                old(values)@.len(),
                false,
                pending_content(*old(fallback)),
            ) ==> (r matches Ok((st, _)) ==> content_within_bound(
                m as nat,
                final(values)@.len(),
                st,
                pending_content(*final(fallback)),
            )),
            MaxOccurs::Unbounded => true,
        },
{
    let DeserializerOutput { artifact, event, allow_any } = output;
    if artifact.is_none() {
        let state = match fallback.take() {
            Some(st) => st,
            None => ContentState::Next,
        };
        return Ok((state, ElementHandlerOutput::break_(event, allow_any)));
    }
    let ghost start = values@;
    if let Some(ContentState::Content(d)) = fallback.take() {
        let fr = d.finish();
        let ghost answer = fr;
        assert(d.finish_ensures(answer));
        let value = fr?;
        let ghost x = value;
        store_content(info.occurs, values, value)?;
        assert(stored(info.occurs, start, x) == Some(values@));
    }
    match artifact {
        DeserializerArtifact::Data(data) => {
            store_content(info.occurs, values, data)?;
            let finishes = match data_handler(represents_element, info.occurs, info.max_occurs) {
                DataHandler::Finish => true,
                DataHandler::FinishAtMax(max) => values.len() >= max,
                DataHandler::Continue => false,
            };
            if finishes {
                Ok((ContentState::Done, ElementHandlerOutput::Break { event, allow_any }))
            } else {
                Ok((ContentState::Next, ElementHandlerOutput::from_event(event, allow_any)))
            }
        },
        DeserializerArtifact::Deserializer(d) => {
            let more = match deserializer_handler(info.occurs, info.max_occurs) {
                DeserializerHandler::AwaitEnd => false,
                DeserializerHandler::MoreBelowMax(max) => values.len().saturating_add(1) < max,
                DeserializerHandler::More => true,
            };
            let out = if more {
                ElementHandlerOutput::from_event(event, allow_any)
            } else {
                ElementHandlerOutput::from_event_end(event, allow_any)
            };
            let goes_on = match out {
                ElementHandlerOutput::Continue { .. } => true,
                _ => false,
            };
            if more && goes_on {
                *fallback = Some(ContentState::Content(d));
                Ok((ContentState::Next, out))
            } else {
                Ok((ContentState::Content(d), out))
            }
        },
        DeserializerArtifact::Nothing => vstd::pervasive::unreached(),
    }
}

/// What [`handle_content`] does: from the content `values` and the `fallback`
/// state to `after` and `fallback_after`, answering `r` to `output`.
pub open spec fn content_handled<V, D: Deserializer<V>>(
    represents_element: bool,
    info: ElementOccurs,
    values: Seq<V>,
    fallback: Option<ContentState<D>>,
    output: DeserializerOutput<V, D>,
    after: Seq<V>,
    fallback_after: Option<ContentState<D>>,
    r: Result<(ContentState<D>, ElementHandlerOutput), Error>,
) -> bool {
    if output.artifact is Nothing {
        &&& after == values
        &&& fallback_after is None
        &&& r == Ok::<(ContentState<D>, ElementHandlerOutput), Error>(
            (
                match fallback {
                    Some(st) => st,
                    None => ContentState::Next,
                },
                ElementHandlerOutput::Break { event: output.event, allow_any: output.allow_any },
            ),
        )
    } else if !pending_content(fallback) {
        content_answered(represents_element, info, values, output, after, r, fallback_after)
    } else {
        match fallback {
            Some(ContentState::Content(d)) => exists|fr: Result<V, Error>|
                #[trigger] d.finish_ensures(fr) && match fr {
                    Err(e) => after == values && r == Err::<
                        (ContentState<D>, ElementHandlerOutput),
                        Error,
                    >(e),
                    Ok(x) => match stored(info.occurs, values, x) {
                        None => after == values && r matches Err(Error::DuplicateContent),
                        Some(s) => content_answered(
                            represents_element,
                            info,
                            s,
                            output,
                            after,
                            r,
                            fallback_after,
                        ),
                    },
                },
            _ => false,
        }
    }
}

/// The content handler answered `r` to `output`, from the content `values`
/// (those read before plus the value of a finished fallback) to `after`.
pub open spec fn content_answered<V, D>(
    represents_element: bool,
    info: ElementOccurs,
    values: Seq<V>,
    output: DeserializerOutput<V, D>,
    after: Seq<V>,
    r: Result<(ContentState<D>, ElementHandlerOutput), Error>,
    fallback: Option<ContentState<D>>,
) -> bool {
    match output.artifact {
        DeserializerArtifact::Data(x) => {
            &&& fallback is None
            &&& match stored(info.occurs, values, x) {
                None => after == values && r matches Err(Error::DuplicateContent),
                Some(s) => after == s && content_data_answer(
                    represents_element,
                    info,
                    s.len(),
                    output.event,
                    output.allow_any,
                    r,
                ),
            }
        },
        DeserializerArtifact::Deserializer(d) => after == values && content_deserializer_answer(
            info,
            values.len(),
            d,
            output.event,
            output.allow_any,
            r,
            fallback,
        ),
        DeserializerArtifact::Nothing => false,
    }
}

/// What one round of the `next` loop of a type with complex content ends in.
#[derive(Debug)]
pub enum ContentStep {
    /// Go on with this event.
    Continue(Event),
    /// Leave the loop, handing back this event and whether any element is allowed.
    Break(DeserializerEvent, bool),
    /// The end tag finishes the type; this event is handed back with the value.
    End(DeserializerEvent),
}

/// A round of a type with complex content that handed the event to a content
/// deserializer which answered `ret`: an error is passed on with the content
/// and the fallback as they were; an answer goes through
/// [`handle_content`], whose answer ends the round (see [`step_of`]).
pub open spec fn content_stepped<V, D: Deserializer<V>>(
    represents_element: bool,
    info: ElementOccurs,
    values: Seq<V>,
    fallback: Option<ContentState<D>>,
    ret: Result<DeserializerOutput<V, D>, Error>,
    after: Seq<V>,
    fallback_after: Option<ContentState<D>>,
    r: Result<(ContentState<D>, ContentStep), Error>,
) -> bool {
    match ret {
        Err(e) => {
            &&& r == Err::<(ContentState<D>, ContentStep), Error>(e)
            &&& after == values
            &&& fallback_after == fallback
        },
        Ok(o) => exists|hr: Result<(ContentState<D>, ElementHandlerOutput), Error>|
            #[trigger] content_handled(
                represents_element,
                info,
                values,
                fallback,
                o,
                after,
                fallback_after,
                hr,
            ) && r == step_of(hr),
    }
}

/// The end of a round that the answer `hr` of the content handler gives.
pub open spec fn step_of<D>(hr: Result<(ContentState<D>, ElementHandlerOutput), Error>) -> Result<
    (ContentState<D>, ContentStep),
    Error,
> {
    match hr {
        Ok((st, ElementHandlerOutput::Break { event, allow_any })) => Ok(
            (st, ContentStep::Break(event, allow_any)),
        ),
        Ok((st, ElementHandlerOutput::Continue { event, .. })) => Ok((st, ContentStep::Continue(event))),
        Err(e) => Err(e),
    }
}

fn step_from<D>(hr: Result<(ContentState<D>, ElementHandlerOutput), Error>) -> (r: Result<
    (ContentState<D>, ContentStep),
    Error,
>)
    ensures
        r == step_of(hr),
{
    match hr {
        Ok((st, ElementHandlerOutput::Break { event, allow_any })) => Ok(
            (st, ContentStep::Break(event, allow_any)),
        ),
        Ok((st, ElementHandlerOutput::Continue { event, .. })) => Ok((st, ContentStep::Continue(event))),
        Err(e) => Err(e),
    }
}

/// The fallback after `state` is offered as fallback where none is set.
pub open spec fn kept_or<D>(fallback: Option<ContentState<D>>, state: ContentState<D>) -> Option<
    ContentState<D>,
> {
    match fallback {
        Some(f) => Some(f),
        None => Some(state),
    }
}

/// One round of the `next` loop of a type with complex content, in `state`
/// with `event`. A pending content deserializer gets the event. Otherwise an
/// end tag ends the type (it is consumed when the type is an element and
/// handed back otherwise), a finished type hands the event back, and a type
/// ready for content offers the event to a new content deserializer, keeping
/// its state as fallback where none is set. The answer of the content
/// deserializer goes through [`handle_content`].
pub fn content_next_step<V, D: Deserializer<V>>(
    represents_element: bool,
    info: ElementOccurs,
    state: ContentState<D>,
    values: &mut Vec<V>,
    fallback: &mut Option<ContentState<D>>,
    event: Event,
) -> (r: Result<(ContentState<D>, ContentStep), Error>)
    requires
        !(info.occurs is Absent),
    ensures
        state matches ContentState::Content(d) ==> exists|ret: Result<DeserializerOutput<V, D>, Error>|
            #[trigger] d.next_ensures(event, ret) && content_stepped(
                represents_element,
                info,
                old(values)@,
                *old(fallback),
                ret,
                final(values)@,
                *final(fallback),
                r,
            ),
        !(state is Content) && event is End ==> {
            &&& final(values)@ == old(values)@
            &&& *final(fallback) == *old(fallback)
            &&& r == Ok::<(ContentState<D>, ContentStep), Error>(
                (
                    state,
                    ContentStep::End(
                        if represents_element {
                            DeserializerEvent::Consumed
                        } else {
                            DeserializerEvent::Continue(event)
                        },
                    ),
                ),
            )
        },
        state is Done && !(event is End) ==> {
            &&& final(values)@ == old(values)@
            &&& *final(fallback) == *old(fallback)
            &&& r == Ok::<(ContentState<D>, ContentStep), Error>(
                (ContentState::Done, ContentStep::Break(DeserializerEvent::Continue(event), false)),
            )
        },
        (state is Init || state is Next) && !(event is End) ==> exists|
            ret: Result<DeserializerOutput<V, D>, Error>,
        |
            #[trigger] D::init_ensures(event, ret) && content_stepped(
                represents_element,
                info,
                old(values)@,
                kept_or(*old(fallback), state),
                ret,
                final(values)@,
                *final(fallback),
                r,
            ),
{
    match state {
        ContentState::Content(d) => {
            let ret = d.next(event);
            let ghost answer = ret;
            assert(d.next_ensures(event, answer));
            let output = ret?;
            let ghost o = output;
            let ghost before = values@;
            let ghost fb = *fallback;
            let hr = handle_content(represents_element, info, values, output, fallback);
            assert(content_handled(represents_element, info, before, fb, o, values@, *fallback, hr));
            step_from(hr)
        },
        st => {
            let is_end = match event {
                Event::End(_) => true,
                _ => false,
            };
            if is_end {
                let back = if represents_element {
                    DeserializerEvent::Consumed
                } else {
                    DeserializerEvent::Continue(event)
                };
                return Ok((st, ContentStep::End(back)));
            }
            match st {
                ContentState::Done => Ok(
                    (ContentState::Done, ContentStep::Break(DeserializerEvent::Continue(event), false)),
                ),
                st => {
                    if fallback.is_none() {
                        *fallback = Some(st);
                    }
                    let ret = D::init(event);
                    let ghost answer = ret;
                    assert(D::init_ensures(event, answer));
                    let output = ret?;
                    let ghost o = output;
                    let ghost before = values@;
                    let ghost fb = *fallback;
                    let hr = handle_content(represents_element, info, values, output, fallback);
                    assert(content_handled(represents_element, info, before, fb, o, values@, *fallback, hr));
                    step_from(hr)
                },
            }
        },
    }
}

/// The finished content that holds `values`: complete values are kept,
/// missing required content is [`Error::MissingContent`], and a fixed size
/// list of another length is [`Error::InsufficientSize`].
pub open spec fn content_finished<V>(occurs: Occurs, values: Seq<V>, r: Result<Vec<V>, Error>) -> bool {
    &&& r is Ok <==> complete(occurs, values.len())
    &&& r matches Ok(v) ==> v@ == values
    &&& occurs is Single && values.len() == 0 ==> (r matches Err(Error::MissingContent))
    &&& match occurs {
        Occurs::StaticList(sz) => values.len() != sz ==> r == Err::<Vec<V>, Error>(
            Error::InsufficientSize { min: sz, max: sz, actual: values.len() as usize },
        ),
        _ => true,
    }
}

/// Finishes the content: the value of a pending content deserializer is
/// finished and stored, then required content must be present
/// ([`Error::MissingContent`]) and a fixed size list complete
/// ([`Error::InsufficientSize`]).
pub fn finish_content<V, D: Deserializer<V>>(
    occurs: Occurs,
    values: Vec<V>,
    pending: Option<D>,
) -> (r: Result<Vec<V>, Error>)
    ensures
        match pending {
            None => content_finished(occurs, values@, r),
            Some(d) => exists|fr: Result<V, Error>|
                #[trigger] d.finish_ensures(fr) && match fr {
                    Err(e) => r == Err::<Vec<V>, Error>(e),
                    Ok(x) => match stored(occurs, values@, x) {
                        None => r matches Err(Error::DuplicateContent),
                        Some(s) => content_finished(occurs, s, r),
                    },
                },
        },
{
    let ghost start = values@;
    let mut values = values;
    if let Some(d) = pending {
        let fr = d.finish();
        let ghost answer = fr;
        assert(d.finish_ensures(answer));
        let value = fr?;
        let ghost x = value;
        store_content(occurs, &mut values, value)?;
        assert(stored(occurs, start, x) == Some(values@));
    }
    match occurs {
        Occurs::Single => {
            if values.len() == 0 {
                return Err(Error::MissingContent);
            }
        },
        Occurs::StaticList(sz) => {
            if values.len() != sz {
                return Err(Error::InsufficientSize { min: sz, max: sz, actual: values.len() });
            }
        },
        _ => {},
    }
    Ok(values)
}

/// What the `next` of a type with complex content hands back when its loop
/// ends.
#[derive(Debug, Clone, Copy, PartialEq, Eq)]
pub enum ContentExit {
    /// The finished value.
    Finish,
    /// The deserializer itself, for more events.
    Keep,
}

/// The end of the `next` loop of a type with complex content in `state`: the
/// finished value exactly when the type has a done state (see
/// [`ComplexDataContent::need_done_state`]) and reached it, the deserializer
/// otherwise.
pub fn content_exit<D>(content: ComplexDataContent, represents_element: bool, state: &ContentState<D>) -> (r:
    ContentExit)
    ensures
        r == if !content.is_simple && !represents_element && content.max_occurs is Bounded
            && *state is Done {
            ContentExit::Finish
        } else {
            ContentExit::Keep
        },
{
    if content.need_done_state(represents_element) {
        if let ContentState::Done = state {
            return ContentExit::Finish;
        }
    }
    ContentExit::Keep
}

} // verus!
