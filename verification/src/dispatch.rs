//! The notification dispatcher's decisions: resolving an interactive
//! control click or an inbound "mark not-done" command to the actor
//! message it means, and rendering the acknowledgment texts. The sends
//! and deletes themselves are messaging-channel calls and happen outside;
//! their failures are logged there and never roll back a storage
//! mutation.

use vstd::prelude::*;
use vstd::string::StringExecFns;

use crate::actor::Message;
use crate::token::{decode_token, token_spec};

verus! {

/// The acknowledgment for an event marked done.
pub open spec fn done_ack_spec(event_id: Seq<char>) -> Seq<char> {
    "Task with ID "@ + event_id + " has been marked as done"@
}

/// The acknowledgment for an event marked not-done.
pub open spec fn todo_ack_spec(event_id: Seq<char>) -> Seq<char> {
    "Task with ID "@ + event_id + " has been marked as todo"@
}

pub fn done_ack(event_id: &str) -> (r: String)
    ensures
        r@ == done_ack_spec(event_id@),
{
    let mut s = String::new();
    s.append("Task with ID ");
    s.append(event_id);
    s.append(" has been marked as done");
    proof {
        assert(s@ =~= done_ack_spec(event_id@));
    }
    s
}

pub fn todo_ack(event_id: &str) -> (r: String)
    ensures
        r@ == todo_ack_spec(event_id@),
{
    let mut s = String::new();
    s.append("Task with ID ");
    s.append(event_id);
    s.append(" has been marked as todo");
    proof {
        assert(s@ =~= todo_ack_spec(event_id@));
    }
    s
}

/// Resolves an interactive control click to the mark-done message for the
/// event its token carries; any payload that is not a token of ours is
/// rejected.
pub fn on_control_interaction(payload: &str) -> (r: Option<Message>)
    ensures
        r matches Some(m) ==> m matches Message::MarkDone { event_id, calendar_id } && payload@
            == token_spec((event_id@, calendar_id@)),
        forall|k: (Seq<char>, Seq<char>)| payload@ == token_spec(k) ==> r is Some,
{
    match decode_token(payload) {
        Some(key) => Some(
            Message::MarkDone { event_id: key.event_id, calendar_id: key.calendar_id },
        ),
        None => None,
    }
}

/// Resolves an inbound "mark not-done" command's argument to the
/// mark-undone message for the event it names, by the same token scheme.
pub fn on_completion_command(raw_id: &str) -> (r: Option<Message>)
    ensures
        r matches Some(m) ==> m matches Message::MarkUndone { event_id, calendar_id } && raw_id@
            == token_spec((event_id@, calendar_id@)),
        forall|k: (Seq<char>, Seq<char>)| raw_id@ == token_spec(k) ==> r is Some,
{
    match decode_token(raw_id) {
        Some(key) => Some(
            Message::MarkUndone { event_id: key.event_id, calendar_id: key.calendar_id },
        ),
        None => None,
    }
}

} // verus!
