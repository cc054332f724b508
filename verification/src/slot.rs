//! The connection slot: a mutually exclusive holder of at most one
//! downstream sink at a time.
//!
//! Sinks are identified here by plain numeric handles; the process around the
//! library owns the actual transport write-halves and keys them by these
//! handles. The slot decides who (if anyone) receives a payload; performing
//! the write is the caller's business.

use vstd::prelude::*;

verus! {

/// An operation on the slot, for stating laws over whole histories.
pub enum SlotOp {
    /// A freshly accepted connection installs its sink handle.
    Install(u64),
    /// A connection's read side saw termination and empties the slot.
    Clear,
    /// The relay asks the slot to deliver one payload, identified by a
    /// payload handle.
    Send(u64),
}

/// Abstract slot state: the current occupant (at most one) and the log of
/// deliveries performed so far, each a (sink handle, payload handle) pair.
pub struct SlotState {
    pub occupant: Option<u64>,
    pub deliveries: Seq<(u64, u64)>,
}

/// The state every slot starts in: empty, nothing delivered.
pub open spec fn initial_state() -> SlotState {
    SlotState { occupant: None, deliveries: Seq::empty() }
}

/// One step of the slot's state machine.
///
/// `Install` replaces whatever occupant there was; `Clear` empties the slot
/// (a no-op when already empty); `Send` delivers to the current occupant if
/// there is one and does nothing otherwise.
pub open spec fn apply_op(s: SlotState, op: SlotOp) -> SlotState {
    match op {
        SlotOp::Install(sink) => SlotState { occupant: Some(sink), deliveries: s.deliveries },
        SlotOp::Clear => SlotState { occupant: None, deliveries: s.deliveries },
        SlotOp::Send(payload) => match s.occupant {
            Some(sink) => SlotState {
                occupant: s.occupant,
                deliveries: s.deliveries.push((sink, payload)),
            },
            None => s,
        },
    }
}

/// The state after a whole history of operations, oldest first.
pub open spec fn apply_ops(s: SlotState, ops: Seq<SlotOp>) -> SlotState
    decreases ops.len(),
{
    if ops.len() == 0 {
        s
    } else {
        apply_ops(apply_op(s, ops[0]), ops.drop_first())
    }
}

/// The set of sinks occupying the slot in a given state.
pub open spec fn occupant_set(s: SlotState) -> Set<u64> {
    match s.occupant {
        Some(sink) => Set::empty().insert(sink),
        None => Set::<u64>::empty(),
    }
}

/// At most one sink ever occupies the slot: after any history of connect,
/// disconnect and send operations starting from the empty slot, the set of
/// occupants has at most one element.
pub proof fn lemma_at_most_one_occupant(ops: Seq<SlotOp>)
    ensures
        occupant_set(apply_ops(initial_state(), ops)).len() <= 1,
{
    lemma_occupant_set_small(initial_state(), ops);
}

proof fn lemma_occupant_set_small(s: SlotState, ops: Seq<SlotOp>)
    requires
        occupant_set(s).len() <= 1,
    ensures
        occupant_set(apply_ops(s, ops)).len() <= 1,
    decreases ops.len(),
{
    if ops.len() > 0 {
        let s1 = apply_op(s, ops[0]);
        assert(occupant_set(s1).len() <= 1) by {
            match s1.occupant {
                Some(sink) => {
                    assert(occupant_set(s1) == Set::empty().insert(sink));
                    assert(occupant_set(s1).len() == 1);
                },
                None => {
                    assert(occupant_set(s1).len() == 0);
                },
            }
        }
        lemma_occupant_set_small(s1, ops.drop_first());
    }
}

/// Installing a new sink silently discards the previous occupant: the new
/// sink is the sole occupant afterwards, and nothing is delivered to the old
/// one by the replacement itself (the delivery log is untouched).
pub proof fn lemma_install_supersedes(s: SlotState, sink: u64)
    ensures
        apply_op(s, SlotOp::Install(sink)).occupant == Some(sink),
        apply_op(s, SlotOp::Install(sink)).deliveries == s.deliveries,
{
}

/// Sending through an empty slot is a no-op: the state is unchanged, so
/// nothing is delivered and no occupant appears.
pub proof fn lemma_send_on_empty_is_noop(s: SlotState, payload: u64)
    requires
        s.occupant is None,
    ensures
        apply_op(s, SlotOp::Send(payload)) == s,
{
}

/// A history that contains only sends never changes the occupant, and every
/// delivery it appends goes to that occupant.
pub open spec fn all_sends(ops: Seq<SlotOp>) -> bool {
    forall|i: int| 0 <= i < ops.len() ==> ops[i] is Send
}

/// After a new sink `b` is installed, all subsequent relayed payloads reach
/// only `b`: for any run of sends that follows the installation, every entry
/// the log gains names `b` as its target — in particular never the sink that
/// was displaced.
pub proof fn lemma_sends_reach_new_sink_only(s: SlotState, b: u64, sends: Seq<SlotOp>)
    requires
        all_sends(sends),
    ensures
        ({
            let s1 = apply_op(s, SlotOp::Install(b));
            let s2 = apply_ops(s1, sends);
            &&& s2.occupant == Some(b)
            &&& s2.deliveries.len() >= s1.deliveries.len()
            &&& forall|i: int|
                s1.deliveries.len() <= i < s2.deliveries.len() ==> (#[trigger] s2.deliveries[i]).0
                    == b
            &&& forall|i: int|
                0 <= i < s1.deliveries.len() ==> #[trigger] s2.deliveries[i]
                    == s1.deliveries[i]
        }),
{
    let s1 = apply_op(s, SlotOp::Install(b));
    lemma_sends_preserve_occupant(s1, sends);
}

proof fn lemma_sends_preserve_occupant(s: SlotState, sends: Seq<SlotOp>)
    requires
        all_sends(sends),
    ensures
        ({
            let s2 = apply_ops(s, sends);
            &&& s2.occupant == s.occupant
            &&& s2.deliveries.len() >= s.deliveries.len()
            &&& forall|i: int|
                s.deliveries.len() <= i < s2.deliveries.len() ==> Some(
                    (#[trigger] s2.deliveries[i]).0,
                ) == s.occupant
            &&& forall|i: int|
                0 <= i < s.deliveries.len() ==> #[trigger] s2.deliveries[i] == s.deliveries[i]
        }),
    decreases sends.len(),
{
    if sends.len() > 0 {
        assert(sends[0] is Send);
        let s1 = apply_op(s, sends[0]);
        assert(all_sends(sends.drop_first())) by {
            assert(forall|i: int|
                0 <= i < sends.drop_first().len() ==> #[trigger] sends.drop_first()[i] == sends[
                    i + 1
                ]);
        }
        lemma_sends_preserve_occupant(s1, sends.drop_first());
        assert(s1.occupant == s.occupant);
        match s.occupant {
            Some(sink) => {
                assert(forall|i: int|
                    0 <= i < s.deliveries.len() ==> #[trigger] s1.deliveries[i]
                        == s.deliveries[i]);
            },
            None => {
                assert(s1 == s);
            },
        }
    }
}

/// The executable slot. Its view is the abstract occupant; the delivery log
/// exists only in the state-machine model above, since the actual write is
/// performed by the caller that owns the transport.
pub struct ConnectionSlot {
    sink: Option<u64>,
}

impl ConnectionSlot {
    /// The current occupant, as the contracts speak of it.
    pub closed spec fn view(&self) -> Option<u64> {
        self.sink
    }

    /// A fresh slot is empty.
    pub fn new() -> (s: ConnectionSlot)
        ensures
            s@ is None,
    {
        ConnectionSlot { sink: None }
    }

    /// Install a newly accepted connection's sink handle, unconditionally
    /// replacing and returning the previous occupant (which the caller
    /// simply drops: no flush, no notification).
    pub fn install(&mut self, sink: u64) -> (prev: Option<u64>)
        ensures
            final(self)@ == apply_op(
                SlotState { occupant: old(self)@, deliveries: Seq::empty() },
                SlotOp::Install(sink),
            ).occupant,
            final(self)@ == Some(sink),
            prev == old(self)@,
    {
        let prev = self.sink;
        self.sink = Some(sink);
        prev
    }

    /// Empty the slot. Idempotent: clearing an already empty slot changes
    /// nothing, so teardown races are harmless.
    pub fn clear(&mut self)
        ensures
            final(self)@ == apply_op(
                SlotState { occupant: old(self)@, deliveries: Seq::empty() },
                SlotOp::Clear,
            ).occupant,
            final(self)@ is None,
    {
        self.sink = None;
    }

    /// Decide delivery of one payload: if the slot is occupied, the payload
    /// goes to the occupant and the caller performs the write (a failed
    /// write is the caller's to log and drop — it must not clear the slot);
    /// if the slot is empty, the payload is silently discarded. Never blocks,
    /// never errors, never changes the slot.
    pub fn try_send(&self, payload: String) -> (r: Option<(u64, String)>)
        ensures
            match self@ {
                Some(sink) => r == Some((sink, payload)),
                None => r is None,
            },
    {
        match self.sink {
            Some(sink) => Some((sink, payload)),
            None => None,
        }
    }

    /// Whether a sink is currently installed.
    pub fn is_occupied(&self) -> (r: bool)
        ensures
            r == (self@ is Some),
    {
        self.sink.is_some()
    }
}

} // verus!
