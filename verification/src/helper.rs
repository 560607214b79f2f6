//! The decisions of the deserialization loop: which events reach the
//! deserializer, which unconsumed events are skipped or rejected, and when
//! the value is complete.
//!
//! The loop itself reads events from a reader and lives with the reader;
//! each step hands the event or the deserializer's answer to this helper.

use vstd::prelude::*;

use crate::deserializer::Deserializer;
use crate::error::Error;
use crate::event::{DeserializerArtifact, DeserializerEvent, DeserializerOutput, Event};

verus! {

/// The state of a deserialization run: the pending deserializer, and the
/// depth of the element being skipped, if any.
pub struct DeserializeHelper<T, D> {
    deserializer: Option<D>,
    skip_depth: Option<usize>,
    marker: core::marker::PhantomData<T>,
}

/// What skipping does with one event. Without skipping every event passes.
/// While skipping, start tags open a level, end tags close one (the last one
/// ends the skip), the end of the input passes through, and every other
/// event is swallowed. The result is the new depth and whether the event passes.
pub open spec fn skip_step(depth: Option<int>, event: Event) -> (Option<int>, bool) {
    match depth {
        None => (None, true),
        Some(d) => match event {
            Event::Start(_) => (Some(d + 1), false),
            Event::End(_) => if d == 1 {
                (None, false)
            } else {
                (Some(d - 1), false)
            },
            Event::Eof => (Some(d), true),
            _ => (Some(d), false),
        },
    }
}

/// The depth after skipping over `events` from `depth`, and how many of them passed.
pub open spec fn skip_run(depth: Option<int>, events: Seq<Event>) -> (Option<int>, nat)
    decreases events.len(),
{
    if events.len() == 0 {
        (depth, 0)
    } else {
        let (d, passed) = skip_run(depth, events.drop_last());
        let (d2, pass) = skip_step(d, events.last());
        (d2, if pass {
            passed + 1
        } else {
            passed
        })
    }
}

/// The events that are ignored when no deserializer consumed them.
pub open spec fn is_ignorable(e: Event) -> bool {
    e is Decl || e is Text || e is CData || e is Comment || e is DocType || e is GeneralRef
        || e is PI
}

impl<T, D> DeserializeHelper<T, D> {
    #[verifier::type_invariant]
    closed spec fn wf(self) -> bool {
        self.skip_depth matches Some(d) ==> d >= 1
    }

    /// The depth of the element being skipped, if any.
    pub closed spec fn skipping(self) -> Option<int> {
        match self.skip_depth {
            Some(d) => Some(d as int),
            None => None,
        }
    }

    /// The deserializer waiting for the next event, if any.
    pub closed spec fn pending(self) -> Option<D> {
        self.deserializer
    }

    /// A helper for a new run: no deserializer yet and nothing to skip.
    pub fn new() -> (r: Self)
        ensures
            r.pending() is None,
            r.skipping() is None,
    {
        DeserializeHelper { deserializer: None, skip_depth: None, marker: core::marker::PhantomData }
    }

    /// The depth of the element being skipped, if any.
    pub fn skip_depth(&self) -> (r: Option<usize>)
        ensures
            match r {
                Some(d) => self.skipping() == Some(d as int),
                None => self.skipping() is None,
            },
    {
        self.skip_depth
    }

    /// Takes the pending deserializer, which the next event goes to (a new
    /// deserializer is started when there is none).
    pub fn take_deserializer(&mut self) -> (r: Option<D>)
        ensures
            r == old(self).pending(),
            final(self).pending() is None,
            final(self).skipping() == old(self).skipping(),
    {
        proof {
            use_type_invariant(&*self);
        }
        let mut taken: Option<D> = None;
        core::mem::swap(&mut taken, &mut self.deserializer);
        taken
    }

    /// Passes `event` through unless an element is being skipped; see [`skip_step`].
    pub fn handle_skip(&mut self, event: Event) -> (r: Option<Event>)
        requires
            event is Start ==> (old(self).skipping() matches Some(d) ==> d < usize::MAX),
        ensures
            (final(self).skipping(), r is Some) == skip_step(old(self).skipping(), event),
            r is Some ==> r == Some(event),
            final(self).pending() == old(self).pending(),
    {
        proof {
            use_type_invariant(&*self);
        }
        let depth = match self.skip_depth {
            None => {
                return Some(event);
            },
            Some(d) => d,
        };
        match event {
            Event::Start(_) => {
                self.skip_depth = Some(depth + 1);
            },
            Event::End(_) => {
                if depth == 1 {
                    self.skip_depth = None;
                } else {
                    self.skip_depth = Some(depth - 1);
                }
            },
            Event::Eof => {
                return Some(Event::Eof);
            },
            _ => {},
        }
        None
    }

    /// Handles the answer of the deserializer to an event: an error is passed
    /// on; otherwise the deserializer it returned becomes pending, data is
    /// returned, and an unconsumed event is ignored (text-like events), skipped
    /// (a start tag where any element is allowed), dropped (other tags where any
    /// element is allowed) or rejected with [`Error::UnexpectedEvent`].
    pub fn handle_output(&mut self, ret: Result<DeserializerOutput<T, D>, Error>) -> (r: Result<
        Option<T>,
        Error,
    >)
        ensures
            ret matches Err(e) ==> (r == Err::<Option<T>, Error>(e) && *final(self) == *old(self)),
            ret matches Ok(o) ==> handled(*old(self), o, *final(self), r),
    {
        proof {
            use_type_invariant(&*self);
        }
        let out = match ret {
            Ok(out) => out,
            Err(e) => {
                return Err(e);
            },
        };
        let DeserializerOutput { artifact, event, allow_any } = out;
        let (data, deserializer) = artifact.into_parts();
        self.deserializer = deserializer;
        match event.into_event() {
            None => {},
            Some(e) => {
                if matches!(
                    e,
                    Event::Decl(_) | Event::Text(_) | Event::CData(_) | Event::Comment(_)
                        | Event::DocType(_) | Event::GeneralRef(_) | Event::PI(_)
                ) {
                } else if allow_any {
                    if matches!(e, Event::Start(_)) {
                        self.skip_depth = Some(1);
                    }
                } else {
                    return Err(Error::UnexpectedEvent(e));
                }
            },
        }
        Ok(data)
    }
}

impl<T, D: Deserializer<T>> DeserializeHelper<T, D> {
    /// Hands `event` to the pending deserializer, or to a new one when none is
    /// pending (see [`answered`]), and handles its answer as
    /// [`DeserializeHelper::handle_output`] does: a failing deserializer's
    /// error is passed on, leaving nothing pending and the skip state unchanged.
    pub fn handle_event(&mut self, event: Event) -> (r: Result<Option<T>, Error>)
        ensures
            exists|ret: Result<DeserializerOutput<T, D>, Error>|
                #[trigger] answered(old(self).pending(), event, ret) && match ret {
                    Ok(o) => handled(*old(self), o, *final(self), r),
                    Err(e) => {
                        &&& r == Err::<Option<T>, Error>(e)
                        &&& final(self).pending() is None
                        &&& final(self).skipping() == old(self).skipping()
                    },
                },
    {
        let ghost start = *self;
        let ghost pending = self.pending();
        let ret = match self.take_deserializer() {
            None => D::init(event),
            Some(d) => d.next(event),
        };
        let ghost answer = ret;
        assert(answered(pending, event, answer));
        match ret {
            Ok(o) => {
                let ghost out = o;
                let r = self.handle_output(Ok(o));
                assert(handled(start, out, *self, r));
                r
            },
            Err(e) => Err(e),
        }
    }
}

/// `ret` is the answer to `event` of the `pending` deserializer, or of a new
/// one when none is pending.
pub open spec fn answered<T, D: Deserializer<T>>(
    pending: Option<D>,
    event: Event,
    ret: Result<DeserializerOutput<T, D>, Error>,
) -> bool {
    match pending {
        None => D::init_ensures(event, ret),
        Some(d) => d.next_ensures(event, ret),
    }
}

/// The event that a deserializer's answer did not consume, if any.
pub open spec fn unconsumed(e: DeserializerEvent) -> Option<Event> {
    match e {
        DeserializerEvent::Consumed => None,
        DeserializerEvent::Break(x) => Some(x),
        DeserializerEvent::Continue(x) => Some(x),
    }
}

/// What [`DeserializeHelper::handle_output`] does with a successful answer `o`.
pub open spec fn handled<T, D>(
    before: DeserializeHelper<T, D>,
    o: DeserializerOutput<T, D>,
    after: DeserializeHelper<T, D>,
    r: Result<Option<T>, Error>,
) -> bool {
    &&& after.pending() == match o.artifact {
        DeserializerArtifact::Deserializer(d) => Some(d),
        _ => None,
    }
    &&& after.skipping() == if unconsumed(o.event) matches Some(e) && !is_ignorable(e) && o.allow_any
        && e is Start {
        Some(1int)
    } else {
        before.skipping()
    }
    &&& match unconsumed(o.event) {
        Some(e) if !is_ignorable(e) && !o.allow_any => r matches Err(err) && (err matches Error::UnexpectedEvent(x) && x == e),
        _ => r == Ok::<Option<T>, Error>(match o.artifact {
            DeserializerArtifact::Data(v) => Some(v),
            _ => None,
        }),
    }
}

/// Unconsumed declarations, text, character data, comments, document type
/// declarations, entity references and processing instructions are ignored:
/// the answer's data is returned, nothing is skipped, and the deserializer it
/// returned stays pending.
pub proof fn lemma_text_like_events_ignored<T, D>(
    before: DeserializeHelper<T, D>,
    o: DeserializerOutput<T, D>,
    after: DeserializeHelper<T, D>,
    r: Result<Option<T>, Error>,
)
    requires
        handled(before, o, after, r),
        unconsumed(o.event) matches Some(e) && (e is Decl || e is Text || e is CData || e is Comment
            || e is DocType || e is GeneralRef || e is PI),
    ensures
        r == Ok::<Option<T>, Error>(
            match o.artifact {
                DeserializerArtifact::Data(v) => Some(v),
                _ => None,
            },
        ),
        after.skipping() == before.skipping(),
        after.pending() == match o.artifact {
            DeserializerArtifact::Deserializer(d) => Some(d),
            _ => None,
        },
{
}

/// Skipping an element swallows exactly its events: starting at depth one,
/// over events without an end of input where every proper prefix closes no
/// more elements than it opens, the depth is one plus the opened minus the
/// closed elements, the skip ends when that reaches zero, and no event passes.
pub proof fn lemma_skip_balances(events: Seq<Event>)
    requires
        forall|i: int| 0 <= i < events.len() ==> !(#[trigger] events[i] is Eof),
        forall|k: int| 0 <= k < events.len() ==> #[trigger] balance(events.subrange(0, k)) >= 0,
    ensures
        skip_run(Some(1), events).1 == 0,
        balance(events) >= 0 ==> skip_run(Some(1), events).0 == Some(1 + balance(events)),
        balance(events) < 0 ==> skip_run(Some(1), events).0 is None,
        balance(events) >= -1,
    decreases events.len(),
{
    if events.len() > 0 {
        let prefix = events.drop_last();
        assert forall|i: int| 0 <= i < prefix.len() implies !(#[trigger] prefix[i] is Eof) by {
            assert(prefix[i] == events[i]);
        }
        assert forall|k: int| 0 <= k < prefix.len() implies #[trigger] balance(prefix.subrange(0, k)) >= 0 by {
            assert(prefix.subrange(0, k) =~= events.subrange(0, k));
        }
        lemma_skip_balances(prefix);
        assert(events.subrange(0, events.len() - 1) =~= prefix);
        assert(balance(prefix) >= 0);
        assert(!(events[events.len() - 1] is Eof));
    }
}

/// Open minus closed elements in `events`.
pub open spec fn balance(events: Seq<Event>) -> int
    decreases events.len(),
{
    if events.len() == 0 {
        0
    } else {
        balance(events.drop_last()) + match events.last() {
            Event::Start(_) => 1int,
            Event::End(_) => -1int,
            _ => 0int,
        }
    }
}

/// Outside a skip, every event passes unchanged.
pub proof fn lemma_no_skip_passes(events: Seq<Event>)
    ensures
        skip_run(None, events) == (None::<int>, events.len()),
    decreases events.len(),
{
    if events.len() > 0 {
        lemma_no_skip_passes(events.drop_last());
    }
}

/// A start tag that a deserializer leaves unconsumed where any element is
/// allowed is skipped with all its content: the events up to and including
/// its end tag are swallowed, and afterwards events pass again.
pub proof fn lemma_unconsumed_start_is_skipped<T, D>(
    before: DeserializeHelper<T, D>,
    o: DeserializerOutput<T, D>,
    after: DeserializeHelper<T, D>,
    r: Result<Option<T>, Error>,
    events: Seq<Event>,
)
    requires
        handled(before, o, after, r),
        unconsumed(o.event) matches Some(e) && e is Start,
        o.allow_any,
        forall|i: int| 0 <= i < events.len() ==> !(#[trigger] events[i] is Eof),
        forall|k: int| 0 <= k < events.len() ==> #[trigger] balance(events.subrange(0, k)) >= 0,
        balance(events) == -1,
    ensures
        after.skipping() == Some(1int),
        skip_run(after.skipping(), events) == (None::<int>, 0nat),
{
    lemma_skip_balances(events);
}

} // verus!
