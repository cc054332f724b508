//! The relay: the decision taken for every upstream event.
//!
//! The upstream integration hands over one `ChatEvent` per hook invocation,
//! already reduced to plain values (for reaction events it carries the full
//! current tally, fetched by the caller — the wire payload is a snapshot,
//! not a delta, so adding and removing a reaction are handled identically).
//! The relay filters by the configured bridge target, builds the wire
//! message, encodes it, and asks the connection slot who receives it.

use vstd::prelude::*;
use crate::decimal::dec_digits;
use crate::decimal::u64_to_string;
use crate::slot::ConnectionSlot;
use crate::wire::MessageType;
use crate::wire::ReactionInfo;
use crate::wire::ReactionView;
use crate::wire::WireMessage;
use crate::wire::WireView;
use crate::wire::encode_wire_message;
use crate::wire::wire_text;
use crate::wire::wire_well_formed;

verus! {

/// The kind of an upstream event the relay reacts to.
#[derive(Clone, Copy, PartialEq, Eq, Structural, Debug)]
pub enum EventKind {
    MessageCreated,
    ReactionAdded,
    ReactionRemoved,
}

/// One entry of the current reaction tally on a message.
pub struct ReactionTally {
    /// The reaction's emoji, as text.
    pub emoji: String,
    /// The current total of that reaction.
    pub count: i32,
}

/// An upstream event, reduced to the plain values the relay reads.
pub struct ChatEvent {
    pub kind: EventKind,
    /// The channel the event originated in.
    pub channel_id: u64,
    /// Author display name (message events; ignored for reactions).
    pub author: String,
    /// Text body (message events; ignored for reactions).
    pub content: String,
    /// Seconds since epoch.
    pub timestamp: i64,
    /// The affected message's identifier.
    pub message_id: u64,
    /// The full current tally, in the snapshot's order (reaction events;
    /// ignored for messages).
    pub reactions: Vec<ReactionTally>,
}

/// The wire entry one tally produces, given the owning message's identifier
/// text.
pub open spec fn tally_view(t: ReactionTally, message_id: Seq<char>) -> ReactionView {
    ReactionView { emoji: t.emoji@, count: t.count as int, message_id: message_id }
}

/// The wire entries of a whole tally snapshot, in the snapshot's order.
pub open spec fn tallies_view(ts: Seq<ReactionTally>, message_id: Seq<char>) -> Seq<ReactionView> {
    Seq::new(ts.len(), |i: int| tally_view(ts[i], message_id))
}

/// The wire content an event must produce: a direct mapping for a created
/// message; for a reaction event, empty author and content and the complete
/// tally snapshot in order, each entry carrying the owning message's
/// identifier.
pub open spec fn wire_view_of_event(e: ChatEvent) -> WireView {
    match e.kind {
        EventKind::MessageCreated => WireView {
            message_type: MessageType::Message,
            author: e.author@,
            content: e.content@,
            timestamp: e.timestamp as int,
            message_id: dec_digits(e.message_id as nat),
            reactions: Option::None,
        },
        _ => WireView {
            message_type: MessageType::Reaction,
            author: Seq::empty(),
            content: Seq::empty(),
            timestamp: e.timestamp as int,
            message_id: dec_digits(e.message_id as nat),
            reactions: Option::Some(
                tallies_view(e.reactions@, dec_digits(e.message_id as nat)),
            ),
        },
    }
}

/// A reaction event's wire message carries the complete tally snapshot in
/// the snapshot's enumeration order: entry `i` holds the emoji and count of
/// tally `i`, and every entry repeats the owning message's identifier text.
pub proof fn lemma_tally_order_preserved(e: ChatEvent)
    requires
        !(e.kind is MessageCreated),
    ensures
        wire_view_of_event(e).reactions is Some,
        ({
            let entries = wire_view_of_event(e).reactions->0;
            &&& entries.len() == e.reactions@.len()
            &&& forall|i: int|
                0 <= i < entries.len() ==> (#[trigger] entries[i]).emoji == e.reactions@[i].emoji@
                    && entries[i].count == e.reactions@[i].count as int && entries[i].message_id
                    == dec_digits(e.message_id as nat)
        }),
{
}

/// Build the wire message for an event, or nothing when the event is not for
/// the configured bridge target.
///
/// Succeeds exactly on events for the bridge target, and the result's
/// content is pinned field by field by `wire_view_of_event`; it always
/// satisfies the schema invariant.
pub fn build_wire_message(e: &ChatEvent, bridge_channel_id: u64) -> (r: Option<WireMessage>)
    ensures
        (r is Some) <==> e.channel_id == bridge_channel_id,
        r is Some ==> (r->0)@ == wire_view_of_event(*e),
        r is Some ==> wire_well_formed((r->0)@),
{
    if e.channel_id != bridge_channel_id {
        return None;
    }
    match e.kind {
        EventKind::MessageCreated => {
            let m = WireMessage {
                message_type: MessageType::Message,
                author: e.author.clone(),
                content: e.content.clone(),
                timestamp: e.timestamp,
                message_id: u64_to_string(e.message_id),
                reactions: None,
            };
            assert(m@ == wire_view_of_event(*e));
            Some(m)
        },
        _ => {
            let ghost expected = wire_view_of_event(*e).reactions->0;
            assert(expected == tallies_view(e.reactions@, dec_digits(e.message_id as nat)));
            let mut infos: Vec<ReactionInfo> = Vec::new();
            let mut i: usize = 0;
            while i < e.reactions.len()
                invariant
                    0 <= i <= e.reactions@.len(),
                    expected == wire_view_of_event(*e).reactions->0,
                    expected == tallies_view(e.reactions@, dec_digits(e.message_id as nat)),
                    expected.len() == e.reactions@.len(),
                    infos@.len() == i as int,
                    forall|j: int| 0 <= j < i as int ==> (#[trigger] infos@[j])@ == expected[j],
                decreases e.reactions@.len() - i,
            {
                let t = &e.reactions[i];
                let info = ReactionInfo {
                    emoji: t.emoji.clone(),
                    count: t.count,
                    message_id: u64_to_string(e.message_id),
                };
                assert(expected[i as int] == tally_view(
                    e.reactions@[i as int],
                    dec_digits(e.message_id as nat),
                ));
                assert(info@ == expected[i as int]);
                infos.push(info);
                i = i + 1;
            }
            let m = WireMessage {
                message_type: MessageType::Reaction,
                author: String::new(),
                content: String::new(),
                timestamp: e.timestamp,
                message_id: u64_to_string(e.message_id),
                reactions: Some(infos),
            };
            proof {
                let got = m@.reactions->0;
                assert forall|j: int| 0 <= j < got.len() implies got[j] == expected[j] by {
                    assert(got[j] == infos@[j]@);
                }
                assert(got =~= expected);
                assert(m@.reactions == wire_view_of_event(*e).reactions);
                assert(m@ == wire_view_of_event(*e));
            }
            Some(m)
        },
    }
}

/// Relay one event: filter by the bridge target, build and encode the wire
/// message, and ask the slot who receives it.
///
/// Events for other channels never reach the slot. For an event on the
/// bridge target the result names the currently installed sink and the exact
/// JSON payload; with the slot empty the event is silently dropped.
pub fn relay_event(slot: &ConnectionSlot, e: &ChatEvent, bridge_channel_id: u64) -> (r: Option<
    (u64, String),
>)
    ensures
        e.channel_id != bridge_channel_id ==> r is None,
        e.channel_id == bridge_channel_id ==> match slot@ {
            Option::Some(sink) => {
                &&& r is Some
                &&& (r->0).0 == sink
                &&& (r->0).1@ == wire_text(wire_view_of_event(*e))
            },
            Option::None => r is None,
        },
{
    match build_wire_message(e, bridge_channel_id) {
        None => None,
        Some(m) => {
            let payload = encode_wire_message(&m);
            slot.try_send(payload)
        },
    }
}

/// The state the upstream integration carries into every hook invocation.
pub struct Data {
    /// The configured bridge target: the one channel whose events are
    /// relayed.
    pub bridge_channel_id: u64,
    /// The connection slot shared with the stream acceptor.
    pub ws_sender: ConnectionSlot,
}

/// The event hook: what the relay decides for one upstream event, given the
/// shared state. The caller performs the returned write, logging and
/// dropping any failure without clearing the slot.
pub fn event_handler(data: &Data, event: &ChatEvent) -> (r: Option<(u64, String)>)
    ensures
        event.channel_id != data.bridge_channel_id ==> r is None,
        event.channel_id == data.bridge_channel_id ==> match data.ws_sender@ {
            Option::Some(sink) => {
                &&& r is Some
                &&& (r->0).0 == sink
                &&& (r->0).1@ == wire_text(wire_view_of_event(*event))
            },
            Option::None => r is None,
        },
{
    relay_event(&data.ws_sender, event, data.bridge_channel_id)
}

} // verus!
