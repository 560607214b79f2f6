//! The rounds of the `next` loop of generated sequence and choice
//! deserializers. A round looks at the state and the event and either decides
//! by itself (move on to the next field, hand the event back, finish at the
//! end tag) or asks its caller to hand the event to the deserializer of a
//! field or variant, whose handler (see `handlers`) then decides.

use vstd::prelude::*;

use crate::event::{DeserializerEvent, Event};

verus! {

/// Where a sequence deserializer stands.
#[derive(Debug, Clone, Copy, PartialEq, Eq)]
pub enum SequenceAt {
    /// Nothing read yet.
    Init,
    /// At the field with this position; `true` when the field has a
    /// deserializer of a value that is not finished yet.
    Field(usize, bool),
    /// After the last field.
    Done,
}

/// What the generated code knows of a field of a sequence.
#[derive(Debug, Clone, Copy)]
pub struct SequenceFieldInfo {
    /// The field reads text, so it is offered every event (other fields are
    /// offered start and empty tags only).
    pub treat_as_text: bool,
    /// The field is an element wildcard: it is tried only when no later field
    /// takes the event.
    pub treat_as_any: bool,
}

/// What the generated code knows of a sequence type.
#[derive(Debug)]
pub struct SequenceInfo {
    pub fields: Vec<SequenceFieldInfo>,
    /// The type admits any element.
    pub allow_any: bool,
    /// The type is an element, which consumes its end tag.
    pub represents_element: bool,
    /// The type has mixed content: text between its fields is dropped.
    pub is_mixed: bool,
}

/// The variables of one run of the `next` loop.
#[derive(Debug, Clone, Copy)]
pub struct SequenceRun {
    /// The state to return to when the loop breaks.
    pub fallback: Option<SequenceAt>,
    /// Some field that went on allows any element.
    pub allow_any_element: bool,
    /// The wildcard field is being retried after the last field.
    pub is_any_retry: bool,
    /// The wildcard field to retry after the last field.
    pub any_fallback: Option<SequenceAt>,
}

/// What a round decides.
#[derive(Debug)]
pub enum SequenceAction {
    /// Go on with the event in the new state.
    Continue(Event),
    /// Hand the event to the pending deserializer of the field, then to the
    /// field's handler.
    Feed(usize, Event),
    /// Start a deserializer of the field with the event, then hand its answer
    /// to the field's handler.
    Create(usize, Event),
    /// The end tag finishes the type, after the deserializer of the taken
    /// fallback state, if any, is finished; the event is handed back with the
    /// value.
    Finish(Option<SequenceAt>, DeserializerEvent),
    /// Leave the loop, handing back the event and whether any element is allowed.
    Break(DeserializerEvent, bool),
}

/// Every field reads text.
pub open spec fn text_only(fields: Seq<SequenceFieldInfo>) -> bool {
    forall|i: int| 0 <= i < fields.len() ==> #[trigger] fields[i].treat_as_text
}

/// Some field is an element wildcard.
pub open spec fn has_any_field(fields: Seq<SequenceFieldInfo>) -> bool {
    exists|i: int| 0 <= i < fields.len() && #[trigger] fields[i].treat_as_any
}

/// The state after the field at `i`: the next field, or done after the last.
pub open spec fn after_field(n: nat, i: int) -> SequenceAt {
    if i + 1 < n {
        SequenceAt::Field((i + 1) as usize, false)
    } else {
        SequenceAt::Done
    }
}

/// The state `s` unless a fallback is set, which the loop returns to when it breaks.
pub open spec fn or_fallback(fallback: Option<SequenceAt>, s: Option<SequenceAt>) -> Option<SequenceAt> {
    match fallback {
        Some(f) => Some(f),
        None => s,
    }
}

/// `Some(s)` where the fallback is not set yet.
pub open spec fn get_or_insert(fallback: Option<SequenceAt>, s: SequenceAt) -> Option<SequenceAt> {
    match fallback {
        Some(f) => Some(f),
        None => Some(s),
    }
}

/// The round of the `next` loop of a sequence in `state` with `event`.
///
/// The result holds the new state, where the round sets one (`None` where the
/// state is left to a field's handler or to the end of the type), and the
/// action. When the action is a break, the state is the one the loop returns
/// to: the fallback, where one is set.
pub open spec fn sequence_round_spec(
    info: SequenceInfo,
    state: SequenceAt,
    run: SequenceRun,
    event: Event,
) -> (Option<SequenceAt>, SequenceRun, SequenceAction) {
    let fields = info.fields@;
    let n = fields.len();
    match state {
        SequenceAt::Field(i, true) => (None, run, SequenceAction::Feed(i, event)),
        _ => if event is End {
            (
                None,
                SequenceRun { fallback: None, ..run },
                SequenceAction::Finish(
                    run.fallback,
                    if info.represents_element {
                        DeserializerEvent::Consumed
                    } else {
                        DeserializerEvent::Continue(event)
                    },
                ),
            )
        } else {
            match state {
                SequenceAt::Init => (
                    Some(SequenceAt::Field(0, false)),
                    SequenceRun {
                        fallback: get_or_insert(run.fallback, SequenceAt::Init),
                        allow_any_element: run.allow_any_element || info.allow_any,
                        ..run
                    },
                    SequenceAction::Continue(event),
                ),
                SequenceAt::Field(i, _) => if fields[i as int].treat_as_text || event is Start
                    || event is Empty {
                    if fields[i as int].treat_as_any && !run.is_any_retry {
                        (
                            Some(after_field(n, i as int)),
                            SequenceRun {
                                any_fallback: get_or_insert(
                                    run.any_fallback,
                                    SequenceAt::Field(i, false),
                                ),
                                ..run
                            },
                            SequenceAction::Continue(event),
                        )
                    } else {
                        (None, run, SequenceAction::Create(i, event))
                    }
                } else {
                    sequence_other_spec(info, state, run, event)
                },
                SequenceAt::Done => if has_any_field(fields) && run.any_fallback is Some {
                    (
                        run.any_fallback,
                        SequenceRun { is_any_retry: true, any_fallback: None, ..run },
                        SequenceAction::Continue(event),
                    )
                } else {
                    (
                        get_or_insert(run.fallback, SequenceAt::Done),
                        SequenceRun { fallback: None, ..run },
                        SequenceAction::Break(
                            DeserializerEvent::Continue(event),
                            info.allow_any || run.allow_any_element,
                        ),
                    )
                },
            }
        },
    }
}

/// The round for an event that no field is offered: text in mixed content
/// is dropped, any other event is handed back to the root; the loop returns
/// to the fallback, or stays.
pub open spec fn sequence_other_spec(
    info: SequenceInfo,
    state: SequenceAt,
    run: SequenceRun,
    event: Event,
) -> (Option<SequenceAt>, SequenceRun, SequenceAction) {
    (
        or_fallback(run.fallback, Some(state)),
        SequenceRun { fallback: None, ..run },
        if info.is_mixed && (event is Text || event is CData) {
            SequenceAction::Break(DeserializerEvent::Consumed, false)
        } else {
            SequenceAction::Break(DeserializerEvent::Break(event), false)
        },
    )
}

/// The positions of the fields are those of the sequence.
pub open spec fn state_in(n: nat, s: SequenceAt) -> bool {
    match s {
        SequenceAt::Field(i, _) => i < n,
        _ => true,
    }
}

/// The states of a run are those of the sequence.
pub open spec fn run_in(n: nat, run: SequenceRun) -> bool {
    &&& run.fallback matches Some(f) ==> state_in(n, f)
    &&& run.any_fallback matches Some(f) ==> state_in(n, f)
}

/// Plays one round of the `next` loop of a sequence; see [`sequence_round_spec`].
pub fn sequence_round(info: &SequenceInfo, state: SequenceAt, run: &mut SequenceRun, event: Event) -> (r: (
    Option<SequenceAt>,
    SequenceAction,
))
    requires
        info.fields@.len() > 0,
        state_in(info.fields@.len(), state),
    ensures
        ({
            let (s, run2, a) = sequence_round_spec(*info, state, *old(run), event);
            r == (s, a) && *final(run) == run2
        }),
{
    match state {
        SequenceAt::Field(i, true) => {
            return (None, SequenceAction::Feed(i, event));
        },
        _ => {},
    }
    if let Event::End(_) = event {
        let fallback = run.fallback.take();
        let back = if info.represents_element {
            DeserializerEvent::Consumed
        } else {
            DeserializerEvent::Continue(event)
        };
        return (None, SequenceAction::Finish(fallback, back));
    }
    match state {
        SequenceAt::Init => {
            if info.allow_any {
                run.allow_any_element = true;
            }
            if run.fallback.is_none() {
                run.fallback = Some(SequenceAt::Init);
            }
            (Some(SequenceAt::Field(0, false)), SequenceAction::Continue(event))
        },
        SequenceAt::Field(i, _) => {
            let f = info.fields[i];
            let offered = f.treat_as_text || match event {
                Event::Start(_) | Event::Empty(_) => true,
                _ => false,
            };
            if offered {
                if f.treat_as_any && !run.is_any_retry {
                    if run.any_fallback.is_none() {
                        run.any_fallback = Some(SequenceAt::Field(i, false));
                    }
                    let next = if i < info.fields.len() - 1 {
                        SequenceAt::Field(i + 1, false)
                    } else {
                        SequenceAt::Done
                    };
                    (Some(next), SequenceAction::Continue(event))
                } else {
                    (None, SequenceAction::Create(i, event))
                }
            } else {
                sequence_other(info, state, run, event)
            }
        },
        SequenceAt::Done => {
            let has_any = has_any_field_exec(&info.fields);
            if has_any && run.any_fallback.is_some() {
                let retry = run.any_fallback.take();
                run.is_any_retry = true;
                (retry, SequenceAction::Continue(event))
            } else {
                let back = match run.fallback.take() {
                    Some(f) => f,
                    None => SequenceAt::Done,
                };
                let allow_any = info.allow_any || run.allow_any_element;
                (Some(back), SequenceAction::Break(DeserializerEvent::Continue(event), allow_any))
            }
        },
    }
}

fn sequence_other(info: &SequenceInfo, state: SequenceAt, run: &mut SequenceRun, event: Event) -> (r: (
    Option<SequenceAt>,
    SequenceAction,
))
    ensures
        ({
            let (s, run2, a) = sequence_other_spec(*info, state, *old(run), event);
            r == (s, a) && *final(run) == run2
        }),
{
    let back = match run.fallback.take() {
        Some(f) => f,
        None => state,
    };
    let text = match event {
        Event::Text(_) | Event::CData(_) => true,
        _ => false,
    };
    if info.is_mixed && text {
        (Some(back), SequenceAction::Break(DeserializerEvent::Consumed, false))
    } else {
        (Some(back), SequenceAction::Break(DeserializerEvent::Break(event), false))
    }
}

fn has_any_field_exec(fields: &Vec<SequenceFieldInfo>) -> (r: bool)
    ensures
        r == has_any_field(fields@),
{
    let mut i: usize = 0;
    while i < fields.len()
        invariant
            i <= fields@.len(),
            forall|k: int| 0 <= k < i ==> !(#[trigger] fields@[k]).treat_as_any,
        decreases fields@.len() - i,
    {
        if fields[i].treat_as_any {
            return true;
        }
        i = i + 1;
    }
    false
}

/// A field that reads text is offered every event: at such a field without a
/// pending deserializer, any event but an end tag starts the field's
/// deserializer, unless the field is a wildcard tried later, which moves on.
/// It is never dropped or handed back.
pub proof fn lemma_text_field_takes_every_event(
    info: SequenceInfo,
    i: usize,
    run: SequenceRun,
    event: Event,
)
    requires
        i < info.fields@.len(),
        info.fields@[i as int].treat_as_text,
        !(event is End),
    ensures
        ({
            let (s, run2, a) = sequence_round_spec(info, SequenceAt::Field(i, false), run, event);
            ||| a == SequenceAction::Create(i, event)
            ||| (info.fields@[i as int].treat_as_any && !run.is_any_retry && a
                == SequenceAction::Continue(event))
        }),
{
}

/// The position of a state in the sequence: before, at, or after its fields.
pub open spec fn position(n: nat, s: SequenceAt) -> int {
    match s {
        SequenceAt::Init => 0,
        SequenceAt::Field(i, _) => i + 1,
        SequenceAt::Done => n + 1int,
    }
}

/// A run retries the wildcard at most once: after the retry no wildcard is
/// left to retry.
pub open spec fn retry_once(run: SequenceRun) -> bool {
    run.is_any_retry ==> run.any_fallback is None
}

/// What is left of the rounds a sequence plays by itself: the fields ahead,
/// and once more all of them while the wildcard retry is still possible.
pub open spec fn rounds_left(n: nat, s: SequenceAt, run: SequenceRun) -> int {
    (if run.is_any_retry {
        0int
    } else {
        n + 2int
    }) + (n + 1 - position(n, s))
}

/// The rounds a sequence plays by itself end: a round that goes on with the
/// event without asking a field's deserializer moves forward through the
/// fields (or retries the wildcard, at most once per call), so fewer such
/// rounds are left after it, and never fewer than none.
pub proof fn lemma_sequence_rounds_end(info: SequenceInfo, state: SequenceAt, run: SequenceRun, event: Event)
    requires
        0 < info.fields@.len() <= usize::MAX,
        state_in(info.fields@.len(), state),
        run_in(info.fields@.len(), run),
        retry_once(run),
    ensures
        ({
            let n = info.fields@.len();
            let (s2, run2, a) = sequence_round_spec(info, state, run, event);
            &&& retry_once(run2)
            &&& run_in(n, run2)
            &&& rounds_left(n, state, run) >= 0
            &&& a is Continue ==> (s2 matches Some(t) && state_in(n, t) && 0 <= rounds_left(n, t, run2)
                < rounds_left(n, state, run))
        }),
{
    let n = info.fields@.len();
    let (s2, run2, a) = sequence_round_spec(info, state, run, event);
    match state {
        SequenceAt::Field(i, true) => {},
        SequenceAt::Init => {},
        SequenceAt::Field(i, false) => {
            if !(event is End) && (info.fields@[i as int].treat_as_text || event is Start
                || event is Empty) && info.fields@[i as int].treat_as_any && !run.is_any_retry {
                assert(position(n, after_field(n, i as int)) > position(n, state));
            }
        },
        SequenceAt::Done => {
            if !(event is End) && has_any_field(info.fields@) && run.any_fallback is Some {
                assert(!run.is_any_retry);
                let t = run.any_fallback->Some_0;
                assert(state_in(n, t));
                assert(position(n, t) >= 0);
                assert(rounds_left(n, t, run2) <= n + 1);
            }
        },
    }
}

/// Where a choice deserializer stands.
#[derive(Debug, Clone, Copy, PartialEq, Eq)]
pub enum ChoiceAt {
    /// No variant chosen yet.
    Init,
    /// Reading the variant at this position; `true` when it has a
    /// deserializer of a value that is not finished yet.
    Variant(usize, bool),
    /// The choice is finished.
    Done,
}

/// What a round of a choice decides.
#[derive(Debug)]
pub enum ChoiceAction {
    /// Hand the event to the pending deserializer of the variant, then to the
    /// variant's handler.
    Feed(usize, Event),
    /// Start a deserializer of the variant with the event, then hand its answer
    /// to the variant's handler.
    Create(usize, Event),
    /// Look for the variant that the event starts.
    FindSuitable(Event),
    /// The end tag finishes the choice in the taken state; the event is handed
    /// back with the value.
    Finish(ChoiceAt, DeserializerEvent),
    /// Leave the loop in the state, handing back the event; no element is
    /// allowed.
    Break(ChoiceAt, DeserializerEvent),
}

/// The round of the `next` loop of a choice in `state` with `event`: a pending
/// deserializer gets the event; otherwise the end tag finishes the choice, an
/// open choice looks for a suitable variant, a variant without pending
/// deserializer starts one for a start or empty tag, and any other event is
/// handed back (text of mixed content is dropped).
pub open spec fn choice_round_spec(
    represents_element: bool,
    is_mixed: bool,
    state: ChoiceAt,
    event: Event,
) -> ChoiceAction {
    match state {
        ChoiceAt::Variant(i, true) => ChoiceAction::Feed(i, event),
        _ => if event is End {
            ChoiceAction::Finish(
                state,
                if represents_element {
                    DeserializerEvent::Consumed
                } else {
                    DeserializerEvent::Continue(event)
                },
            )
        } else {
            match state {
                ChoiceAt::Init => ChoiceAction::FindSuitable(event),
                ChoiceAt::Variant(i, _) => if event is Start || event is Empty {
                    ChoiceAction::Create(i, event)
                } else if is_mixed && (event is Text || event is CData) {
                    ChoiceAction::Break(state, DeserializerEvent::Consumed)
                } else {
                    ChoiceAction::Break(state, DeserializerEvent::Break(event))
                },
                ChoiceAt::Done => ChoiceAction::Break(state, DeserializerEvent::Continue(event)),
            }
        },
    }
}

/// Plays one round of the `next` loop of a choice; see [`choice_round_spec`].
pub fn choice_round(represents_element: bool, is_mixed: bool, state: ChoiceAt, event: Event) -> (r:
    ChoiceAction)
    ensures
        r == choice_round_spec(represents_element, is_mixed, state, event),
{
    if let ChoiceAt::Variant(i, true) = state {
        return ChoiceAction::Feed(i, event);
    }
    if let Event::End(_) = event {
        let back = if represents_element {
            DeserializerEvent::Consumed
        } else {
            DeserializerEvent::Continue(event)
        };
        return ChoiceAction::Finish(state, back);
    }
    match state {
        ChoiceAt::Init => ChoiceAction::FindSuitable(event),
        ChoiceAt::Variant(i, _) => {
            let tag = match event {
                Event::Start(_) | Event::Empty(_) => true,
                _ => false,
            };
            let text = match event {
                Event::Text(_) | Event::CData(_) => true,
                _ => false,
            };
            if tag {
                ChoiceAction::Create(i, event)
            } else if is_mixed && text {
                ChoiceAction::Break(state, DeserializerEvent::Consumed)
            } else {
                ChoiceAction::Break(state, DeserializerEvent::Break(event))
            }
        },
        ChoiceAt::Done => ChoiceAction::Break(state, DeserializerEvent::Continue(event)),
    }
}

} // verus!
