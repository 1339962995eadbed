//! Connection actor: the per-connection state machine that bridges one
//! identity's transport to the core.
//!
//! The surrounding runtime drives two duties per connection — reading decoded
//! client commands and forwarding them to [`crate::engine::ChatCore`], and
//! draining that identity's outbound queue to the transport.  The decisions
//! those duties take are pure functions here, so the runtime only performs
//! what these transitions dictate.  A forced close (kick, room deletion) is
//! observable by the outbound duty without the target's cooperation: it
//! arrives as an event on the target's own queue.
use vstd::prelude::*;

use crate::engine::CommandOutcome;
use crate::messages::ServerWsMessage;

verus! {

/// Lifecycle of one connection.
#[derive(Debug, Clone, Copy, PartialEq, Eq, Structural)]
pub enum ActorState {
    /// Admitted by the join step, duties not yet running.
    Connecting,
    /// Both duties running: commands in, fanout out.
    Joined,
    /// The identity asked to leave; teardown follows.
    Leaving,
    /// The identity was kicked by the room's owner; teardown follows.
    Kicked,
    /// The identity's room was deleted; teardown follows.
    RoomDeleted,
    /// Teardown done; both duties stopped.
    Closed,
}

/// What the outbound duty takes from one drained event, given the actor's
/// own identity and room: the next state, and whether the event is still
/// forwarded to the transport.  A kick of this very identity or the deletion
/// of its room ends the connection — the notice itself is still forwarded so
/// the client learns why.
pub open spec fn outbound_spec(
    state: ActorState,
    self_id: Seq<char>,
    room_id: Seq<char>,
    event: crate::messages::ServerMsgView,
) -> (ActorState, bool) {
    if state is Joined {
        match event {
            crate::messages::ServerMsgView::UserKicked { room_id: r, user_id: u } => {
                if r == room_id && u == self_id {
                    (ActorState::Kicked, true)
                } else {
                    (ActorState::Joined, true)
                }
            },
            crate::messages::ServerMsgView::RoomDeleted { room_id: r } => {
                if r == room_id {
                    (ActorState::RoomDeleted, true)
                } else {
                    (ActorState::Joined, true)
                }
            },
            _ => (ActorState::Joined, true),
        }
    } else {
        (state, false)
    }
}

/// Outbound duty decision.  See [`outbound_spec`].
pub fn outbound_transition(
    state: ActorState,
    self_id: &String,
    room_id: &String,
    event: &ServerWsMessage,
) -> (r: (ActorState, bool))
    ensures
        r == outbound_spec(state, self_id@, room_id@, event@),
{
    if !(state == ActorState::Joined) {
        return (state, false);
    }
    match event {
        ServerWsMessage::UserKicked { room_id: r, user_id: u } => {
            if *r == *room_id && *u == *self_id {
                (ActorState::Kicked, true)
            } else {
                (ActorState::Joined, true)
            }
        },
        ServerWsMessage::RoomDeleted { room_id: r } => {
            if *r == *room_id {
                (ActorState::RoomDeleted, true)
            } else {
                (ActorState::Joined, true)
            }
        },
        _ => (ActorState::Joined, true),
    }
}

/// What the inbound duty takes from the outcome the core returned for one
/// command: a leave acknowledgement moves the actor towards teardown, all
/// other outcomes keep it joined.
pub open spec fn inbound_spec(state: ActorState, outcome: CommandOutcome) -> ActorState {
    if state is Joined && outcome is LeftRoom {
        ActorState::Leaving
    } else {
        state
    }
}

/// Inbound duty decision.  See [`inbound_spec`].
pub fn inbound_transition(state: ActorState, outcome: &CommandOutcome) -> (r: ActorState)
    ensures
        r == inbound_spec(state, *outcome),
{
    match outcome {
        CommandOutcome::LeftRoom => {
            if state == ActorState::Joined {
                ActorState::Leaving
            } else {
                state
            }
        },
        _ => state,
    }
}

/// The admission step: a connection whose join succeeded starts its duties.
pub fn start_duties(state: ActorState) -> (r: ActorState)
    ensures
        state is Connecting ==> r is Joined,
        !(state is Connecting) ==> r == state,
{
    if state == ActorState::Connecting {
        ActorState::Joined
    } else {
        state
    }
}

/// The exit step: whatever state teardown began from, the actor ends closed.
/// Teardown itself — unsubscribe, unregister, leave — is
/// [`crate::engine::ChatCore::disconnect`], which is safe to run whichever of
/// the ending paths got there first.
pub fn finish_teardown(state: ActorState) -> (r: ActorState)
    ensures
        r is Closed,
{
    let _ = state;
    ActorState::Closed
}

} // verus!
