//! The wire schema: the one message shape sent downstream, and its JSON
//! encoding.
//!
//! Field order and names are part of the compatibility contract with
//! downstream clients; the encoding spec below fixes them exactly. A message
//! is built per relayed event, encoded once and discarded.

use vstd::prelude::*;
use crate::decimal::dec_int;
use crate::decimal::format_i64;
use crate::jtext::escape_string;
use crate::jtext::push_escaped_str;
use crate::jtext::push_str_chars;
use crate::jtext::chars_to_string;

verus! {

/// The kind of a wire message.
#[derive(Clone, Copy, PartialEq, Eq, Structural, Debug)]
pub enum MessageType {
    /// A newly created chat message: author and content are populated,
    /// reactions are absent.
    Message,
    /// A reaction tally snapshot: author and content are empty, reactions
    /// are present.
    Reaction,
}

/// One reaction tally entry carried by a reaction message.
pub struct ReactionInfo {
    /// The reaction's emoji: a unicode glyph or a custom-emoji descriptor.
    pub emoji: String,
    /// The current total count of that reaction on the message.
    pub count: i32,
    /// The owning message's identifier, repeated per entry for the client's
    /// convenience.
    pub message_id: String,
}

/// The one message shape sent downstream.
pub struct WireMessage {
    pub message_type: MessageType,
    /// Display name of the originating user; empty for reaction messages.
    pub author: String,
    /// Text body; empty for reaction messages.
    pub content: String,
    /// Seconds since epoch, from the originating platform event.
    pub timestamp: i64,
    /// Identifier of the affected message, as text to avoid precision loss.
    pub message_id: String,
    /// Present exactly for reaction messages; absent (not empty) otherwise.
    pub reactions: Option<Vec<ReactionInfo>>,
}

/// The mathematical content of a reaction entry.
pub struct ReactionView {
    pub emoji: Seq<char>,
    pub count: int,
    pub message_id: Seq<char>,
}

impl View for ReactionInfo {
    type V = ReactionView;

    open spec fn view(&self) -> ReactionView {
        ReactionView {
            emoji: self.emoji@,
            count: self.count as int,
            message_id: self.message_id@,
        }
    }
}

/// The mathematical content of a wire message.
pub struct WireView {
    pub message_type: MessageType,
    pub author: Seq<char>,
    pub content: Seq<char>,
    pub timestamp: int,
    pub message_id: Seq<char>,
    pub reactions: Option<Seq<ReactionView>>,
}

/// The view of an optional reaction list.
pub open spec fn reactions_view(r: Option<Vec<ReactionInfo>>) -> Option<Seq<ReactionView>> {
    match r {
        Option::None => Option::None,
        Option::Some(v) => Option::Some(v@.map_values(|x: ReactionInfo| x@)),
    }
}

impl View for WireMessage {
    type V = WireView;

    open spec fn view(&self) -> WireView {
        WireView {
            message_type: self.message_type,
            author: self.author@,
            content: self.content@,
            timestamp: self.timestamp as int,
            message_id: self.message_id@,
            reactions: reactions_view(self.reactions),
        }
    }
}

/// The schema invariant: reactions are present exactly on reaction messages,
/// and reaction messages carry no author and no content.
pub open spec fn wire_well_formed(w: WireView) -> bool {
    &&& (w.message_type is Reaction <==> w.reactions is Some)
    &&& (w.message_type is Reaction ==> w.author == Seq::<char>::empty() && w.content
        == Seq::<char>::empty())
}

/// The wire text of a message kind.
pub open spec fn type_text(t: MessageType) -> Seq<char> {
    match t {
        MessageType::Message => "message"@,
        MessageType::Reaction => "reaction"@,
    }
}

/// The JSON text of one reaction entry.
pub open spec fn reaction_text(r: ReactionView) -> Seq<char> {
    "{\"emoji\":\""@ + escape_string(r.emoji) + "\",\"count\":"@ + dec_int(r.count)
        + ",\"message_id\":\""@ + escape_string(r.message_id) + "\"}"@
}

/// The comma-separated JSON texts of a reaction list, without the brackets.
pub open spec fn reactions_inner(rs: Seq<ReactionView>) -> Seq<char>
    decreases rs.len(),
{
    if rs.len() == 0 {
        Seq::empty()
    } else if rs.len() == 1 {
        reaction_text(rs[0])
    } else {
        reactions_inner(rs.drop_last()) + ","@ + reaction_text(rs.last())
    }
}

/// The JSON text of the reactions field: `null` when absent, an array of the
/// entries in order when present.
pub open spec fn reactions_field_text(r: Option<Seq<ReactionView>>) -> Seq<char> {
    match r {
        Option::None => "\"reactions\":null"@,
        Option::Some(rs) => "\"reactions\":["@ + reactions_inner(rs) + "]"@,
    }
}

/// The complete JSON document for a wire message: one object, fields in the
/// schema's order, string content escaped, nothing else.
pub open spec fn wire_text(w: WireView) -> Seq<char> {
    "{\"message_type\":\""@ + type_text(w.message_type) + "\",\"author\":\""@ + escape_string(
        w.author,
    ) + "\",\"content\":\""@ + escape_string(w.content) + "\",\"timestamp\":"@ + dec_int(
        w.timestamp,
    ) + ",\"message_id\":\""@ + escape_string(w.message_id) + "\","@ + reactions_field_text(
        w.reactions,
    ) + "}"@
}

/// Append the JSON text of one reaction entry.
fn push_reaction(out: &mut Vec<char>, r: &ReactionInfo)
    ensures
        final(out)@ == old(out)@ + reaction_text(r@),
{
    push_str_chars(out, "{\"emoji\":\"");
    push_escaped_str(out, self_str(&r.emoji));
    push_str_chars(out, "\",\"count\":");
    let mut d = format_i64(r.count as i64);
    out.append(&mut d);
    push_str_chars(out, ",\"message_id\":\"");
    push_escaped_str(out, self_str(&r.message_id));
    push_str_chars(out, "\"}");
    assert(out@ =~= old(out)@ + reaction_text(r@));
}

/// The string slice of a `String`.
fn self_str(s: &String) -> (r: &str)
    ensures
        r@ == s@,
{
    s.as_str()
}

/// Append the JSON text of the reactions field.
fn push_reactions_field(out: &mut Vec<char>, reactions: &Option<Vec<ReactionInfo>>)
    ensures
        final(out)@ == old(out)@ + reactions_field_text(reactions_view(*reactions)),
{
    match reactions {
        Option::None => {
            push_str_chars(out, "\"reactions\":null");
        },
        Option::Some(rs) => {
            let ghost rviews = rs@.map_values(|x: ReactionInfo| x@);
            push_str_chars(out, "\"reactions\":[");
            let mut i: usize = 0;
            while i < rs.len()
                invariant
                    0 <= i <= rs@.len(),
                    rviews == rs@.map_values(|x: ReactionInfo| x@),
                    rviews.len() == rs@.len(),
                    out@ == old(out)@ + "\"reactions\":["@ + reactions_inner(
                        rviews.take(i as int),
                    ),
                decreases rs@.len() - i,
            {
                if i > 0 {
                    push_str_chars(out, ",");
                }
                push_reaction(out, &rs[i]);
                proof {
                    let t = rviews.take(i as int + 1);
                    assert(t.drop_last() =~= rviews.take(i as int));
                    assert(t.last() == rviews[i as int]);
                    assert(rviews[i as int] == rs@[i as int]@);
                    if i == 0 {
                        assert(t.len() == 1);
                        assert(t[0] == rviews[0]);
                        assert(reactions_inner(t) == reaction_text(rviews[0]));
                        assert(out@ =~= old(out)@ + "\"reactions\":["@ + reactions_inner(t));
                    } else {
                        assert(t.len() > 1);
                        assert(reactions_inner(t) == reactions_inner(rviews.take(i as int)) + ","@
                            + reaction_text(rviews[i as int]));
                        assert(out@ =~= old(out)@ + "\"reactions\":["@ + reactions_inner(t));
                    }
                }
                i = i + 1;
            }
            assert(rviews.take(i as int) =~= rviews);
            push_str_chars(out, "]");
            assert(out@ =~= old(out)@ + reactions_field_text(reactions_view(*reactions)));
        },
    }
}

/// Encode a wire message as its JSON document.
///
/// The result is exactly `wire_text` of the message's content: the schema's
/// fields in order, with string content JSON-escaped and integers in decimal.
pub fn encode_wire_message(m: &WireMessage) -> (r: String)
    ensures
        r@ == wire_text(m@),
{
    let mut out: Vec<char> = Vec::new();
    push_str_chars(&mut out, "{\"message_type\":\"");
    match m.message_type {
        MessageType::Message => push_str_chars(&mut out, "message"),
        MessageType::Reaction => push_str_chars(&mut out, "reaction"),
    }
    push_str_chars(&mut out, "\",\"author\":\"");
    push_escaped_str(&mut out, self_str(&m.author));
    push_str_chars(&mut out, "\",\"content\":\"");
    push_escaped_str(&mut out, self_str(&m.content));
    push_str_chars(&mut out, "\",\"timestamp\":");
    let mut t = format_i64(m.timestamp);
    out.append(&mut t);
    push_str_chars(&mut out, ",\"message_id\":\"");
    push_escaped_str(&mut out, self_str(&m.message_id));
    push_str_chars(&mut out, "\",");
    push_reactions_field(&mut out, &m.reactions);
    push_str_chars(&mut out, "}");
    assert(out@ =~= wire_text(m@));
    chars_to_string(&out)
}

} // verus!
