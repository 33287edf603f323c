//! The encoder: a state machine that maps serialization events onto store
//! operations.
//!
//! The encoder holds a stack of open nodes in one transaction's work tree
//! (root first, innermost last; the root is pushed at construction and never
//! popped) and a single pending-field-name register. Staging a key fills the
//! register; emitting a scalar or entering a nested record consumes it.
//! Every write is buffered under the transaction, so either the whole
//! serialization pass becomes visible at commit, or none of it ever does.
//!
//! Two ownership shapes exist: [`Encoder::from_key`] begins and owns a
//! transaction and exposes [`Encoder::commit`]; [`Encoder::from_key_transacted`]
//! borrows a transaction owned elsewhere and exposes no commit, so several
//! sibling encoders can take part in one atomic write unit which only the
//! owner of the transaction can commit.

use vstd::prelude::*;

use crate::scalar::ScalarV;
use crate::scalar::ScalarValue;
use crate::store::lookup_kid;
use crate::store::NodeV;
use crate::store::Store;
use crate::store::StoreError;
use crate::store::Transaction;

verus! {

/// Everything that can go wrong while encoding. Nothing is retried
/// internally: every kind is surfaced to the caller, and the encoder should
/// be discarded after an error.
#[derive(Debug)]
pub enum EncoderError {
    /// The value's structure has no defined mapping onto the store's
    /// node/value model.
    EncodeNotImplemented(String),
    /// The event source itself reported a structural problem, such as
    /// leaving a nested record that was never entered.
    SerializerError(String),
    /// A store operation failed; the underlying cause is passed on verbatim.
    IoError(StoreError),
    /// A scalar or nested-record event arrived while no field name was
    /// staged.
    NoFieldName,
    /// A field or map-key name's serialized form is not a string scalar.
    KeyMustBeAString,
}

impl EncoderError {
    /// A short description of each error kind.
    pub open spec fn description(&self) -> Seq<char> {
        match self {
            EncoderError::EncodeNotImplemented(_) => "value kind cannot be encoded"@,
            EncoderError::SerializerError(_) => "malformed event sequence"@,
            EncoderError::IoError(_) => "store operation failed"@,
            EncoderError::NoFieldName => "no field name staged"@,
            EncoderError::KeyMustBeAString => "key must be a string"@,
        }
    }

    /// The error kind in words, for callers that report errors as text.
    pub fn describe(&self) -> (r: String)
        ensures
            r@ == self.description(),
    {
        match self {
            EncoderError::EncodeNotImplemented(_) => "value kind cannot be encoded".to_owned(),
            EncoderError::SerializerError(_) => "malformed event sequence".to_owned(),
            EncoderError::IoError(_) => "store operation failed".to_owned(),
            EncoderError::NoFieldName => "no field name staged".to_owned(),
            EncoderError::KeyMustBeAString => "key must be a string".to_owned(),
        }
    }
}

/// The result of one encoding step.
pub type EncodeResult<T> = Result<T, EncoderError>;

/// The pending-field-name register: either nothing is staged, or one name
/// waits to be consumed by the next scalar or nested-record event.
enum EncoderState {
    Start,
    NextKey(String),
}

/// One serialization event, as the event-dispatch collaborator hands them
/// over.
#[derive(Debug)]
pub enum Event {
    /// Stage the serialized form of a field or map-key name.
    StageKey(ScalarValue),
    /// Emit one scalar value under the staged name.
    Scalar(ScalarValue),
    /// Enter a nested record or map under the staged name.
    BeginNested,
    /// Leave the innermost nested record or map.
    EndNested,
    /// A value kind with no representation in the store's model, described
    /// in words for the error.
    Unrepresentable(String),
}

/// The model of one serialization event: views of the heap-backed payloads.
pub enum EventV {
    StageKey(ScalarV),
    Scalar(ScalarV),
    BeginNested,
    EndNested,
    Unrepresentable(Seq<char>),
}

impl View for Event {
    type V = EventV;

    open spec fn view(&self) -> EventV {
        match self {
            Event::StageKey(k) => EventV::StageKey(k@),
            Event::Scalar(v) => EventV::Scalar(v@),
            Event::BeginNested => EventV::BeginNested,
            Event::EndNested => EventV::EndNested,
            Event::Unrepresentable(d) => EventV::Unrepresentable(d@),
        }
    }
}

impl Clone for Event {
    fn clone(&self) -> (res: Self)
        ensures
            res@ == self@,
    {
        match self {
            Event::StageKey(k) => Event::StageKey(k.clone()),
            Event::Scalar(v) => Event::Scalar(v.clone()),
            Event::BeginNested => Event::BeginNested,
            Event::EndNested => Event::EndNested,
            Event::Unrepresentable(d) => Event::Unrepresentable(d.clone()),
        }
    }
}

/// The model of an event sequence.
pub open spec fn events_view(s: Seq<Event>) -> Seq<EventV> {
    s.map_values(|e: Event| e@)
}

/// How one successfully processed event moves the container stack depth:
/// entering a nested container deepens it by one, leaving one ends that
/// level, and every other event leaves the depth alone.
pub open spec fn depth_delta(ev: EventV) -> int {
    match ev {
        EventV::BeginNested => 1,
        EventV::EndNested => -1,
        _ => 0,
    }
}

/// The net depth movement of a whole event sequence: the number of
/// `BeginNested` events minus the number of `EndNested` events. Zero for
/// any well-formed pairing of the two.
pub open spec fn net_depth_change(events: Seq<EventV>) -> int
    decreases events.len(),
{
    if events.len() == 0 {
        0
    } else {
        net_depth_change(events.drop_last()) + depth_delta(events.last())
    }
}

/// The encoder-visible state one event acts on: the pending-name register,
/// the container stack, and the transaction's work tree.
pub struct RunState {
    pub pending: Option<Seq<char>>,
    pub stack: Seq<usize>,
    pub work: Seq<NodeV>,
}

/// The model of an encoding error: each kind of [`EncoderError`], with its
/// payload abstracted to a view.
pub enum RunError {
    NotImplemented(Seq<char>),
    Serializer(Seq<char>),
    Io(StoreError),
    NoName,
    BadKey,
}

/// Whether the error `e` is of the kind and carries the payload that the
/// model error `k` names.
pub open spec fn error_matches(e: EncoderError, k: RunError) -> bool {
    match (e, k) {
        (EncoderError::EncodeNotImplemented(d), RunError::NotImplemented(dv)) => d@ == dv,
        (EncoderError::SerializerError(m), RunError::Serializer(mv)) => m@ == mv,
        (EncoderError::IoError(se), RunError::Io(sv)) => se == sv,
        (EncoderError::NoFieldName, RunError::NoName) => true,
        (EncoderError::KeyMustBeAString, RunError::BadKey) => true,
        _ => false,
    }
}

/// What one step leaves behind: the state after the event, and the error it
/// failed with, if it failed. On failure the state is the one at the point
/// of failure (a staged name consumed by a scalar or nested-entry event is
/// consumed even when the store refuses the write).
pub struct StepResult {
    pub state: RunState,
    pub error: Option<RunError>,
}

/// The state machine's transition table, one event at a time. `tx_ok` says
/// whether the encoder's transaction exists in the store; it never changes
/// during a run.
pub open spec fn step(s: RunState, tx_ok: bool, ev: EventV) -> StepResult {
    match ev {
        EventV::StageKey(k) => match k {
            ScalarV::Sz(n) => StepResult {
                state: RunState { pending: Some(n), stack: s.stack, work: s.work },
                error: None,
            },
            _ => StepResult { state: s, error: Some(RunError::BadKey) },
        },
        EventV::Scalar(v) => match s.pending {
            None => StepResult { state: s, error: Some(RunError::NoName) },
            Some(n) => if !tx_ok {
                StepResult {
                    state: RunState { pending: None, stack: s.stack, work: s.work },
                    error: Some(RunError::Io(StoreError::BadTransaction)),
                }
            } else if s.stack.last() as int >= s.work.len() {
                StepResult {
                    state: RunState { pending: None, stack: s.stack, work: s.work },
                    error: Some(RunError::Io(StoreError::BadNode)),
                }
            } else {
                StepResult {
                    state: RunState {
                        pending: None,
                        stack: s.stack,
                        work: s.work.update(
                            s.stack.last() as int,
                            NodeV {
                                vals: s.work[s.stack.last() as int].vals.push((n, v)),
                                kids: s.work[s.stack.last() as int].kids,
                            },
                        ),
                    },
                    error: None,
                }
            },
        },
        EventV::BeginNested => match s.pending {
            None => StepResult { state: s, error: Some(RunError::NoName) },
            Some(n) => if !tx_ok {
                StepResult {
                    state: RunState { pending: None, stack: s.stack, work: s.work },
                    error: Some(RunError::Io(StoreError::BadTransaction)),
                }
            } else if s.stack.last() as int >= s.work.len() {
                StepResult {
                    state: RunState { pending: None, stack: s.stack, work: s.work },
                    error: Some(RunError::Io(StoreError::BadNode)),
                }
            } else {
                match lookup_kid(s.work[s.stack.last() as int].kids, n) {
                    Some(k) => StepResult {
                        state: RunState { pending: None, stack: s.stack.push(k), work: s.work },
                        error: None,
                    },
                    None => StepResult {
                        state: RunState {
                            pending: None,
                            stack: s.stack.push(s.work.len() as usize),
                            work: s.work.push(
                                NodeV {
                                    vals: Seq::<(Seq<char>, ScalarV)>::empty(),
                                    kids: Seq::<(Seq<char>, usize)>::empty(),
                                },
                            ).update(
                                s.stack.last() as int,
                                NodeV {
                                    vals: s.work[s.stack.last() as int].vals,
                                    kids: s.work[s.stack.last() as int].kids.push(
                                        (n, s.work.len() as usize),
                                    ),
                                },
                            ),
                        },
                        error: None,
                    },
                }
            },
        },
        EventV::EndNested => if s.stack.len() > 1 {
            StepResult {
                state: RunState { pending: s.pending, stack: s.stack.drop_last(), work: s.work },
                error: None,
            }
        } else {
            StepResult { state: s, error: Some(RunError::Serializer("cannot leave the root container"@)) }
        },
        EventV::Unrepresentable(d) => StepResult { state: s, error: Some(RunError::NotImplemented(d)) },
    }
}

/// The transition table folded over a whole event sequence, stopping at the
/// first failing event, as [`Encoder::apply_all`] does.
pub open spec fn run(s: RunState, tx_ok: bool, events: Seq<EventV>) -> StepResult
    decreases events.len(),
{
    if events.len() == 0 {
        StepResult { state: s, error: None }
    } else {
        let first = step(s, tx_ok, events[0]);
        if first.error is Some {
            first
        } else {
            run(first.state, tx_ok, events.skip(1))
        }
    }
}

/// The encoder, generic over how it holds its transaction: by value (owned,
/// committable) or by shared reference (borrowed, committed elsewhere).
pub struct Encoder<Tr> {
    keys: Vec<usize>,
    tr: Tr,
    slot: usize,
    state: EncoderState,
}

impl<Tr> Encoder<Tr> {
    /// The container stack: indexes of the open nodes in the transaction's
    /// work tree, root first, innermost last.
    pub closed spec fn stack(&self) -> Seq<usize> {
        self.keys@
    }

    /// The staged field name, if any.
    pub closed spec fn pending(&self) -> Option<Seq<char>> {
        match self.state {
            EncoderState::Start => None,
            EncoderState::NextKey(s) => Some(s@),
        }
    }

    /// Which work tree of the store this encoder writes to.
    pub closed spec fn tx(&self) -> int {
        self.slot as int
    }

    /// The transaction handle the encoder holds; no event ever changes it.
    pub closed spec fn token(&self) -> Tr {
        self.tr
    }

    /// How deep the container stack is.
    pub open spec fn depth(&self) -> int {
        self.stack().len() as int
    }

    /// A live encoder: the root is on the stack.
    pub open spec fn wf(&self) -> bool {
        self.depth() >= 1
    }

    /// Whether every handle the encoder holds is valid against `store`: the
    /// transaction exists and every open node lies in its work tree.
    pub open spec fn valid_for(&self, store: Store) -> bool {
        &&& self.tx() < store@.txs.len()
        &&& forall|i: int|
            0 <= i < self.stack().len() ==> (#[trigger] self.stack()[i]) < store@.txs[self.tx()].len()
    }

    /// Whether the innermost open node can be written under this encoder's
    /// transaction: exactly the handles a single write checks.
    pub open spec fn can_write(&self, store: Store) -> bool {
        &&& self.tx() < store@.txs.len()
        &&& (self.stack().last() as int) < store@.txs[self.tx()].len()
    }

    /// Whether the encoder's transaction exists in `store`.
    pub open spec fn tx_live(&self, store: Store) -> bool {
        self.tx() < store@.txs.len()
    }

    /// The encoder-visible state an event acts on, as a [`RunState`].
    pub open spec fn run_state(&self, store: Store) -> RunState {
        RunState { pending: self.pending(), stack: self.stack(), work: store@.txs[self.tx()] }
    }

    /// What the transition table says one event does from this encoder's
    /// current state.
    pub open spec fn step_of(&self, store: Store, ev: EventV) -> StepResult {
        step(self.run_state(store), self.tx_live(store), ev)
    }

    /// What the transition table says a whole event sequence does from this
    /// encoder's current state.
    pub open spec fn run_of(&self, store: Store, events: Seq<Event>) -> StepResult {
        run(self.run_state(store), self.tx_live(store), events_view(events))
    }

    /// How deep the container stack is, as a runtime observation.
    pub fn current_depth(&self) -> (r: usize)
        ensures
            r == self.depth(),
    {
        self.keys.len()
    }

    /// Stage a field or map-key name. Only a string-typed scalar can name a
    /// field; anything else is refused with `KeyMustBeAString` and changes
    /// nothing. Staging over an already staged name replaces it (the last
    /// stage wins); no store write happens for the discarded name, since
    /// staging never touches the store at all.
    pub fn stage_key(&mut self, key: ScalarValue) -> (r: EncodeResult<()>)
        ensures
            final(self).stack() == old(self).stack(),
            final(self).tx() == old(self).tx(),
            final(self).token() == old(self).token(),
            key.is_string() ==> r == Ok::<(), EncoderError>(()) && final(self).pending() == Some(
                key@->Sz_0,
            ),
            !key.is_string() ==> r == Err::<(), EncoderError>(EncoderError::KeyMustBeAString)
                && *final(self) == *old(self),
    {
        match key {
            ScalarValue::Sz(s) => {
                self.state = EncoderState::NextKey(s);
                Ok(())
            },
            _ => Err(EncoderError::KeyMustBeAString),
        }
    }

    /// Emit one scalar: write it under the staged name into the innermost
    /// open node, consuming the name. With no staged name nothing happens
    /// and `NoFieldName` comes back; a store refusal comes back as `IoError`
    /// with the name already consumed, the state at the point of failure.
    pub fn write_scalar(&mut self, store: &mut Store, value: ScalarValue) -> (r: EncodeResult<()>)
        requires
            old(store).wf(),
            old(self).wf(),
        ensures
            final(store).wf(),
            final(self).wf(),
            final(store)@.base == old(store)@.base,
            final(store)@.txs.len() == old(store)@.txs.len(),
            forall|u: int|
                0 <= u < old(store)@.txs.len() && u != old(self).tx() ==> final(store)@.txs[u]
                    == old(store)@.txs[u],
            final(self).stack() == old(self).stack(),
            final(self).tx() == old(self).tx(),
            final(self).token() == old(self).token(),
            final(self).pending() is None,
            old(self).valid_for(*old(store)) ==> final(self).valid_for(*final(store)),
            old(self).pending() is None ==> r == Err::<(), EncoderError>(EncoderError::NoFieldName)
                && *final(store) == *old(store) && *final(self) == *old(self),
            old(self).pending() matches Some(n) ==> if old(self).can_write(*old(store)) {
                r == Ok::<(), EncoderError>(()) && final(store)@.txs[old(self).tx()] == old(
                    store,
                )@.txs[old(self).tx()].update(
                    old(self).stack().last() as int,
                    (NodeV {
                        vals: old(store)@.txs[old(self).tx()][old(
                            self,
                        ).stack().last() as int].vals.push((n, value@)),
                        kids: old(store)@.txs[old(self).tx()][old(
                            self,
                        ).stack().last() as int].kids,
                    }),
                )
            } else {
                (if old(self).tx() >= old(store)@.txs.len() {
                    r == Err::<(), EncoderError>(EncoderError::IoError(StoreError::BadTransaction))
                } else {
                    r == Err::<(), EncoderError>(EncoderError::IoError(StoreError::BadNode))
                }) && *final(store) == *old(store)
            },
    {
        let name = match &self.state {
            EncoderState::Start => {
                return Err(EncoderError::NoFieldName);
            },
            EncoderState::NextKey(s) => s.clone(),
        };
        self.state = EncoderState::Start;
        let cur = self.keys[self.keys.len() - 1];
        match store.set_value(self.slot, cur, &name, value) {
            Ok(()) => Ok(()),
            Err(e) => Err(EncoderError::IoError(e)),
        }
    }

    /// Enter a nested record or map: create or open the child named by the
    /// staged name under the innermost open node, consuming the name, and
    /// push the child onto the container stack. With no staged name nothing
    /// happens and `NoFieldName` comes back; a store refusal comes back as
    /// `IoError` with the name already consumed.
    pub fn begin_nested(&mut self, store: &mut Store) -> (r: EncodeResult<()>)
        requires
            old(store).wf(),
            old(self).wf(),
        ensures
            final(store).wf(),
            final(self).wf(),
            final(store)@.base == old(store)@.base,
            final(store)@.txs.len() == old(store)@.txs.len(),
            forall|u: int|
                0 <= u < old(store)@.txs.len() && u != old(self).tx() ==> final(store)@.txs[u]
                    == old(store)@.txs[u],
            final(self).tx() == old(self).tx(),
            final(self).token() == old(self).token(),
            final(self).pending() is None,
            final(self).stack()[0] == old(self).stack()[0],
            old(self).valid_for(*old(store)) ==> final(self).valid_for(*final(store)),
            old(self).pending() is None ==> r == Err::<(), EncoderError>(EncoderError::NoFieldName)
                && *final(store) == *old(store) && *final(self) == *old(self),
            old(self).pending() matches Some(n) ==> if old(self).can_write(*old(store)) {
                r == Ok::<(), EncoderError>(()) && match lookup_kid(
                    old(store)@.txs[old(self).tx()][old(self).stack().last() as int].kids,
                    n,
                ) {
                    Some(k) => *final(store) == *old(store) && final(self).stack() == old(
                        self,
                    ).stack().push(k),
                    None => final(self).stack() == old(self).stack().push(
                        old(store)@.txs[old(self).tx()].len() as usize,
                    ) && final(store)@.txs[old(self).tx()] == old(store)@.txs[old(self).tx()].push(
                        (NodeV {
                            vals: Seq::<(Seq<char>, ScalarV)>::empty(),
                            kids: Seq::<(Seq<char>, usize)>::empty(),
                        }),
                    ).update(
                        old(self).stack().last() as int,
                        (NodeV {
                            vals: old(store)@.txs[old(self).tx()][old(
                                self,
                            ).stack().last() as int].vals,
                            kids: old(store)@.txs[old(self).tx()][old(
                                self,
                            ).stack().last() as int].kids.push(
                                (n, old(store)@.txs[old(self).tx()].len() as usize),
                            ),
                        }),
                    ),
                }
            } else {
                (if old(self).tx() >= old(store)@.txs.len() {
                    r == Err::<(), EncoderError>(EncoderError::IoError(StoreError::BadTransaction))
                } else {
                    r == Err::<(), EncoderError>(EncoderError::IoError(StoreError::BadNode))
                }) && *final(store) == *old(store) && final(self).stack() == old(self).stack()
            },
    {
        let name = match &self.state {
            EncoderState::Start => {
                return Err(EncoderError::NoFieldName);
            },
            EncoderState::NextKey(s) => s.clone(),
        };
        self.state = EncoderState::Start;
        let cur = self.keys[self.keys.len() - 1];
        match store.open_or_create(self.slot, cur, &name) {
            Ok(k) => {
                self.keys.push(k);
                Ok(())
            },
            Err(e) => Err(EncoderError::IoError(e)),
        }
    }

    /// Leave the innermost nested record or map: pop it off the container
    /// stack. The root is never popped: leaving with only the root open is a
    /// structural error of the event stream, refused as `SerializerError`
    /// with nothing changed.
    pub fn end_nested(&mut self) -> (r: EncodeResult<()>)
        requires
            old(self).wf(),
        ensures
            final(self).wf(),
            final(self).tx() == old(self).tx(),
            final(self).token() == old(self).token(),
            final(self).pending() == old(self).pending(),
            final(self).stack()[0] == old(self).stack()[0],
            old(self).depth() > 1 ==> r == Ok::<(), EncoderError>(()) && final(self).stack()
                == old(self).stack().drop_last(),
            old(self).depth() == 1 ==> (r matches Err(e) && e matches EncoderError::SerializerError(
                m,
            ) && m@ == "cannot leave the root container"@) && *final(self) == *old(self),
    {
        if self.keys.len() > 1 {
            let _popped = self.keys.pop();
            Ok(())
        } else {
            Err(EncoderError::SerializerError("cannot leave the root container".to_owned()))
        }
    }

    /// Refuse a value kind that has no representation in the store's
    /// node/value model: nothing changes, and the description comes back in
    /// the error.
    pub fn not_implemented(&self, detail: String) -> (r: EncodeResult<()>)
        ensures
            r == Err::<(), EncoderError>(EncoderError::EncodeNotImplemented(detail)),
    {
        Err(EncoderError::EncodeNotImplemented(detail))
    }

    /// Process one serialization event: exactly what the transition table
    /// [`step`] says, from the encoder's current state. Whatever the event
    /// and however it ends, the committed tree is untouched, other
    /// transactions are untouched, the root stays at the bottom of the
    /// container stack, and valid handles stay valid.
    pub fn apply(&mut self, store: &mut Store, ev: Event) -> (r: EncodeResult<()>)
        requires
            old(store).wf(),
            old(self).wf(),
        ensures
            final(store).wf(),
            final(self).wf(),
            final(store)@.base == old(store)@.base,
            final(store)@.txs.len() == old(store)@.txs.len(),
            forall|u: int|
                0 <= u < old(store)@.txs.len() && u != old(self).tx() ==> final(store)@.txs[u]
                    == old(store)@.txs[u],
            final(self).tx() == old(self).tx(),
            final(self).token() == old(self).token(),
            final(self).stack()[0] == old(self).stack()[0],
            old(self).valid_for(*old(store)) ==> final(self).valid_for(*final(store)),
            final(self).pending() == old(self).step_of(*old(store), ev@).state.pending,
            final(self).stack() == old(self).step_of(*old(store), ev@).state.stack,
            old(self).tx_live(*old(store)) ==> final(store)@.txs[old(self).tx()] == old(
                self,
            ).step_of(*old(store), ev@).state.work,
            !old(self).tx_live(*old(store)) ==> *final(store) == *old(store),
            match old(self).step_of(*old(store), ev@).error {
                None => r is Ok,
                Some(k) => r matches Err(e) && error_matches(e, k),
            },
            r is Ok ==> final(self).depth() == old(self).depth() + depth_delta(ev@),
    {
        match ev {
            Event::StageKey(k) => {
                let r = self.stage_key(k);
                r
            },
            Event::Scalar(v) => self.write_scalar(store, v),
            Event::BeginNested => self.begin_nested(store),
            Event::EndNested => {
                let r = self.end_nested();
                proof {
                    if old(self).valid_for(*old(store)) {
                        assert forall|i: int| 0 <= i < self.stack().len() implies (
                        #[trigger] self.stack()[i]) < store@.txs[self.tx()].len() by {
                            assert(self.stack()[i] == old(self).stack()[i]);
                        }
                    }
                }
                r
            },
            Event::Unrepresentable(d) => {
                let r = self.not_implemented(d);
                r
            },
        }
    }

    /// Drive the encoder with a whole event sequence, stopping at the first
    /// error: exactly what the transition table folded over the sequence,
    /// [`run`], says. However the run ends, not one of the buffered writes
    /// is observable in the committed tree: only a commit of the transaction
    /// can make them so. The root container survives any event sequence,
    /// and a run that succeeds moves the stack depth by exactly the
    /// sequence's [`net_depth_change`] — zero for any well-formed pairing
    /// of enter and leave events, so such a pairing restores the depth.
    pub fn apply_all(&mut self, store: &mut Store, events: Vec<Event>) -> (r: EncodeResult<()>)
        requires
            old(store).wf(),
            old(self).wf(),
        ensures
            final(store).wf(),
            final(self).wf(),
            final(store)@.base == old(store)@.base,
            final(store)@.txs.len() == old(store)@.txs.len(),
            forall|u: int|
                0 <= u < old(store)@.txs.len() && u != old(self).tx() ==> final(store)@.txs[u]
                    == old(store)@.txs[u],
            final(self).tx() == old(self).tx(),
            final(self).token() == old(self).token(),
            final(self).stack()[0] == old(self).stack()[0],
            old(self).valid_for(*old(store)) ==> final(self).valid_for(*final(store)),
            final(self).pending() == old(self).run_of(*old(store), events@).state.pending,
            final(self).stack() == old(self).run_of(*old(store), events@).state.stack,
            old(self).tx_live(*old(store)) ==> final(store)@.txs[old(self).tx()] == old(
                self,
            ).run_of(*old(store), events@).state.work,
            !old(self).tx_live(*old(store)) ==> *final(store) == *old(store),
            match old(self).run_of(*old(store), events@).error {
                None => r is Ok,
                Some(k) => r matches Err(e) && error_matches(e, k),
            },
            r is Ok ==> final(self).depth() == old(self).depth() + net_depth_change(
                events_view(events@),
            ),
    {
        let ghost evs = events_view(events@);
        let ghost txok = old(self).tx_live(*old(store));
        let ghost start = old(self).run_state(*old(store));
        let mut i: usize = 0;
        proof {
            assert(evs.take(0) =~= Seq::<EventV>::empty());
            assert(evs.skip(0) =~= evs);
        }
        while i < events.len()
            invariant
                i <= events.len(),
                evs == events_view(events@),
                txok == old(self).tx_live(*old(store)),
                start == old(self).run_state(*old(store)),
                store.wf(),
                self.wf(),
                store@.base == old(store)@.base,
                store@.txs.len() == old(store)@.txs.len(),
                forall|u: int|
                    0 <= u < old(store)@.txs.len() && u != old(self).tx() ==> store@.txs[u] == old(
                        store,
                    )@.txs[u],
                self.tx() == old(self).tx(),
                self.token() == old(self).token(),
                self.stack()[0] == old(self).stack()[0],
                old(self).valid_for(*old(store)) ==> self.valid_for(*store),
                !txok ==> *store == *old(store),
                run(start, txok, evs) == run(self.run_state(*store), txok, evs.skip(i as int)),
                self.depth() == old(self).depth() + net_depth_change(evs.take(i as int)),
            decreases events.len() - i,
        {
            let ghost pre = self.run_state(*store);
            let ev = events[i].clone();
            let ghost ev0 = ev;
            proof {
                assert(ev0@ == evs[i as int]);
                assert(evs.skip(i as int)[0] == evs[i as int]);
            }
            match self.apply(store, ev) {
                Ok(()) => {},
                Err(e) => {
                    proof {
                        assert(run(pre, txok, evs.skip(i as int)) == step(pre, txok, evs[i as int]));
                    }
                    return Err(e);
                },
            }
            i = i + 1;
            proof {
                assert(evs.skip(i - 1).skip(1) =~= evs.skip(i as int));
                assert(run(pre, txok, evs.skip(i - 1)) == run(
                    step(pre, txok, evs[i - 1]).state,
                    txok,
                    evs.skip(i as int),
                ));
                assert(evs.take(i as int).drop_last() =~= evs.take(i - 1));
                assert(evs.take(i as int).last() == evs[i - 1]);
            }
        }
        proof {
            assert(evs.skip(events@.len() as int) =~= Seq::<EventV>::empty());
            assert(evs.take(events@.len() as int) =~= evs);
        }
        Ok(())
    }
}

impl Encoder<Transaction> {
    /// Whether the owned transaction handle and the encoder's slot agree.
    /// Both constructors of the owning shape establish this, and every event
    /// preserves it, since events change neither [`Encoder::token`] nor
    /// [`Encoder::tx`].
    pub open spec fn owned_tx(&self) -> bool {
        self.token().id() == self.tx()
    }

    /// Build an encoder that owns a fresh transaction: begin one against
    /// `store` and open node `key` under it as the root container, with
    /// child-creation and value-writing rights. Fails with `IoError` when
    /// `key` names no node of the committed tree, leaving the store
    /// untouched.
    pub fn from_key(store: &mut Store, key: usize) -> (r: EncodeResult<Encoder<Transaction>>)
        requires
            old(store).wf(),
        ensures
            final(store).wf(),
            final(store)@.base == old(store)@.base,
            (key as int) < old(store)@.base.len() ==> final(store)@.txs == old(store)@.txs.push(
                old(store)@.base,
            ) && (r matches Ok(enc) && enc.wf() && enc.stack() == seq![key] && enc.pending()
                is None && enc.tx() == old(store)@.txs.len() && enc.owned_tx() && enc.valid_for(
                *final(store),
            )),
            key as int >= old(store)@.base.len() ==> (r matches Err(e) && e
                == EncoderError::IoError(StoreError::BadNode) && *final(store) == *old(store)),
    {
        if key >= store.node_count() {
            return Err(EncoderError::IoError(StoreError::BadNode));
        }
        let tr = store.begin_transaction();
        Ok(Encoder::new(key, tr))
    }

    /// Build an encoder from an opened root node and the transaction it was
    /// opened under, owning the transaction.
    pub fn new(key: usize, tr: Transaction) -> (enc: Encoder<Transaction>)
        ensures
            enc.wf(),
            enc.stack() == seq![key],
            enc.pending() is None,
            enc.tx() == tr.id(),
            enc.token() == tr,
            enc.owned_tx(),
    {
        let slot = tr.slot();
        let mut keys: Vec<usize> = Vec::new();
        keys.push(key);
        proof {
            assert(keys@ =~= seq![key]);
        }
        Encoder { keys, tr, slot, state: EncoderState::Start }
    }

    /// Apply every write buffered under this encoder's transaction, all at
    /// once: the transaction's work tree becomes the committed tree. The
    /// encoder is consumed; discarding it without calling this abandons
    /// every buffered write instead.
    pub fn commit(self, store: &mut Store) -> (r: EncodeResult<()>)
        requires
            old(store).wf(),
            self.owned_tx(),
        ensures
            final(store).wf(),
            final(store)@.txs == old(store)@.txs,
            self.tx() < old(store)@.txs.len() ==> r == Ok::<(), EncoderError>(())
                && final(store)@.base == old(store)@.txs[self.tx()],
            self.tx() >= old(store)@.txs.len() ==> (r matches Err(e) && e == EncoderError::IoError(
                StoreError::BadTransaction,
            )) && *final(store) == *old(store),
    {
        match store.commit(self.tr) {
            Ok(()) => Ok(()),
            Err(e) => Err(EncoderError::IoError(e)),
        }
    }
}

impl<'a> Encoder<&'a Transaction> {
    /// Build an encoder that borrows a transaction owned elsewhere: open
    /// node `key` under `tr` as the root container. No commit is exposed on
    /// this shape; whoever owns the transaction commits, after every sibling
    /// encoder sharing it has finished. Fails with `IoError` when `tr` names
    /// no transaction of `store` or `key` names no node of its work tree.
    pub fn from_key_transacted(store: &Store, key: usize, tr: &'a Transaction) -> (r: EncodeResult<
        Encoder<&'a Transaction>,
    >)
        ensures
            tr.id() < store@.txs.len() && (key as int) < store@.txs[tr.id()].len() ==> (
            r matches Ok(enc) && enc.wf() && enc.stack() == seq![key] && enc.pending() is None
                && enc.tx() == tr.id() && enc.token() == tr && enc.valid_for(*store)),
            tr.id() >= store@.txs.len() ==> (r matches Err(e) && e == EncoderError::IoError(
                StoreError::BadTransaction,
            )),
            tr.id() < store@.txs.len() && key as int >= store@.txs[tr.id()].len() ==> (
            r matches Err(e) && e == EncoderError::IoError(StoreError::BadNode)),
    {
        let t = tr.slot();
        if t >= store.tx_count() {
            return Err(EncoderError::IoError(StoreError::BadTransaction));
        }
        if key >= store.tx_node_count(t) {
            return Err(EncoderError::IoError(StoreError::BadNode));
        }
        Ok(Encoder::new_transacted(key, tr))
    }

    /// Build an encoder from an opened root node and a borrowed reference
    /// to the transaction it was opened under.
    pub fn new_transacted(key: usize, tr: &'a Transaction) -> (enc: Encoder<&'a Transaction>)
        ensures
            enc.wf(),
            enc.stack() == seq![key],
            enc.pending() is None,
            enc.tx() == tr.id(),
            enc.token() == tr,
    {
        let slot = tr.slot();
        let mut keys: Vec<usize> = Vec::new();
        keys.push(key);
        proof {
            assert(keys@ =~= seq![key]);
        }
        Encoder { keys, tr, slot, state: EncoderState::Start }
    }
}

} // verus!


