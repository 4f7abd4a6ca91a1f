//! The life of a CONNECT tunnel: dial the target, answer the client, wait for
//! the upgraded connection, relay, close.
use vstd::prelude::*;
use crate::reply::{
    Reply, error_response, tunnel_ready, CONNECTION_FAILED, STATUS_BAD_GATEWAY, STATUS_OK,
};

verus! {

#[derive(PartialEq, Eq, Structural, Clone, Copy, Debug)]
pub enum TunnelState {
    /// The TCP connection to the target is being opened.
    Connecting,
    /// The target is connected and the client was answered; the upgraded
    /// client connection has not arrived yet.
    Established,
    /// Bytes flow both ways.
    Relaying,
    /// Terminal.
    Closed,
}

/// What the outside world reports to a tunnel.
#[derive(PartialEq, Eq, Structural, Clone, Copy, Debug)]
pub enum TunnelEvent {
    Dialed,
    DialFailed,
    Upgraded,
    UpgradeFailed,
    RelayEnded,
}

/// What the caller must do next.
#[derive(Clone, Copy, Debug)]
pub enum TunnelAction {
    /// Send this reply to the client. A 200 opens the tunnel: wait for the
    /// upgraded connection in the background.
    Respond(Reply),
    /// Copy bytes both ways between the upgraded connection and the target.
    StartRelay,
    /// Drop both connections.
    Close,
    /// The event does not apply in this state: nothing to do.
    Ignore,
}

/// One transition of the tunnel.
pub open spec fn next_spec(s: TunnelState, e: TunnelEvent) -> (TunnelState, TunnelAction) {
    match (s, e) {
        (TunnelState::Connecting, TunnelEvent::Dialed) => (
            TunnelState::Established,
            TunnelAction::Respond(Reply { status: STATUS_OK, body: "" }),
        ),
        (TunnelState::Connecting, TunnelEvent::DialFailed) => (
            TunnelState::Closed,
            TunnelAction::Respond(Reply { status: STATUS_BAD_GATEWAY, body: CONNECTION_FAILED }),
        ),
        (TunnelState::Established, TunnelEvent::Upgraded) => (
            TunnelState::Relaying,
            TunnelAction::StartRelay,
        ),
        (TunnelState::Established, TunnelEvent::UpgradeFailed) => (
            TunnelState::Closed,
            TunnelAction::Close,
        ),
        (TunnelState::Relaying, TunnelEvent::RelayEnded) => (
            TunnelState::Closed,
            TunnelAction::Close,
        ),
        _ => (s, TunnelAction::Ignore),
    }
}

/// The actions that a tunnel in state `s` takes on `events`, one per event.
pub open spec fn actions_of(s: TunnelState, events: Seq<TunnelEvent>) -> Seq<TunnelAction>
    decreases events.len(),
{
    if events.len() == 0 {
        Seq::empty()
    } else {
        let (t, a) = next_spec(s, events[0]);
        seq![a] + actions_of(t, events.drop_first())
    }
}

/// The state that a tunnel in state `s` reaches after `events`.
pub open spec fn state_after(s: TunnelState, events: Seq<TunnelEvent>) -> TunnelState
    decreases events.len(),
{
    if events.len() == 0 {
        s
    } else {
        state_after(next_spec(s, events[0]).0, events.drop_first())
    }
}

/// The action that opens the tunnel: 200 with an empty body.
pub open spec fn opening_action() -> TunnelAction {
    TunnelAction::Respond(Reply { status: STATUS_OK, body: "" })
}

/// A tunnel takes one action per event.
pub proof fn lemma_one_action_per_event(s: TunnelState, events: Seq<TunnelEvent>)
    ensures
        actions_of(s, events).len() == events.len(),
    decreases events.len(),
{
    if events.len() > 0 {
        lemma_one_action_per_event(next_spec(s, events[0]).0, events.drop_first());
    }
}

/// A closed tunnel stays closed and ignores every further event.
pub proof fn lemma_closed_is_final(events: Seq<TunnelEvent>)
    ensures
        state_after(TunnelState::Closed, events) == TunnelState::Closed,
        forall|i: int|
            0 <= i < events.len() ==> #[trigger] actions_of(TunnelState::Closed, events)[i] is Ignore,
    decreases events.len(),
{
    if events.len() > 0 {
        lemma_closed_is_final(events.drop_first());
        lemma_one_action_per_event(TunnelState::Closed, events.drop_first());
        assert forall|i: int|
            0 <= i < events.len() implies #[trigger] actions_of(
                TunnelState::Closed,
                events,
            )[i] is Ignore by {
            if i > 0 {
                assert(actions_of(TunnelState::Closed, events)[i] == actions_of(
                    TunnelState::Closed,
                    events.drop_first(),
                )[i - 1]);
            }
        }
    }
}

/// From a state in which no reply was owed yet or none is owed any more,
/// every relay start comes after the opening reply.
proof fn lemma_opening_precedes_relay(s: TunnelState, events: Seq<TunnelEvent>)
    requires
        s == TunnelState::Connecting || s == TunnelState::Closed,
    ensures
        forall|i: int|
            0 <= i < events.len() && #[trigger] actions_of(s, events)[i] is StartRelay ==> exists|
                j: int,
            |
                0 <= j < i && actions_of(s, events)[j] == opening_action(),
    decreases events.len(),
{
    if events.len() > 0 {
        let (t, a) = next_spec(s, events[0]);
        let acts = actions_of(s, events);
        let rest = actions_of(t, events.drop_first());
        lemma_one_action_per_event(t, events.drop_first());
        assert(acts == seq![a] + rest);
        if t == TunnelState::Connecting || t == TunnelState::Closed {
            lemma_opening_precedes_relay(t, events.drop_first());
            assert forall|i: int|
                0 <= i < events.len() && #[trigger] acts[i] is StartRelay implies exists|j: int|
                    0 <= j < i && acts[j] == opening_action() by {
                assert(i > 0);
                assert(acts[i] == rest[i - 1]);
                let j = choose|j: int| 0 <= j < i - 1 && rest[j] == opening_action();
                assert(acts[j + 1] == rest[j]);
            }
        } else {
            assert(a == opening_action());
            assert forall|i: int|
                0 <= i < events.len() && #[trigger] acts[i] is StartRelay implies exists|j: int|
                    0 <= j < i && acts[j] == opening_action() by {
                assert(acts[0] == a);
            }
        }
    }
}

/// A tunnel that starts by dialing relays nothing before it has sent the
/// client 200 with an empty body.
pub proof fn lemma_relay_after_opening(events: Seq<TunnelEvent>)
    ensures
        forall|i: int|
            0 <= i < events.len() && #[trigger] actions_of(TunnelState::Connecting, events)[i] is StartRelay
                ==> exists|j: int|
                0 <= j < i && actions_of(TunnelState::Connecting, events)[j] == opening_action(),
{
    lemma_opening_precedes_relay(TunnelState::Connecting, events);
}

/// Takes the tunnel one step: from its state and an event, the next state and
/// the action that the caller performs.
pub fn step(s: TunnelState, e: TunnelEvent) -> (r: (TunnelState, TunnelAction))
    ensures
        r == next_spec(s, e),
{
    match (s, e) {
        (TunnelState::Connecting, TunnelEvent::Dialed) => (
            TunnelState::Established,
            TunnelAction::Respond(tunnel_ready()),
        ),
        (TunnelState::Connecting, TunnelEvent::DialFailed) => (
            TunnelState::Closed,
            TunnelAction::Respond(error_response(CONNECTION_FAILED, STATUS_BAD_GATEWAY)),
        ),
        (TunnelState::Established, TunnelEvent::Upgraded) => (
            TunnelState::Relaying,
            TunnelAction::StartRelay,
        ),
        (TunnelState::Established, TunnelEvent::UpgradeFailed) => (
            TunnelState::Closed,
            TunnelAction::Close,
        ),
        (TunnelState::Relaying, TunnelEvent::RelayEnded) => (
            TunnelState::Closed,
            TunnelAction::Close,
        ),
        _ => (s, TunnelAction::Ignore),
    }
}

} // verus!
