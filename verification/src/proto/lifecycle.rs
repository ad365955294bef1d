//! The life of a UDP association, from its opening to the release of its
//! identifier.

use vstd::prelude::*;

verus! {

/// Where an association stands.
#[derive(Debug, Clone, Copy, PartialEq, Eq, Structural)]
pub enum SessionState {
    /// Open, and nothing has been sent or received.
    Idle,
    /// Packets are going through.
    Active,
    /// Told to end; its loops are finishing what they have in hand.
    Closing,
    /// Over. Its identifier is free again.
    Terminated,
}

/// What happens to an association.
#[derive(Debug, Clone, Copy, PartialEq, Eq, Structural)]
pub enum SessionEvent {
    /// A packet is sent or received.
    Traffic,
    /// The peer dissociates, the connection closes or the owner cancels.
    Stop,
    /// The loops of a closing association have finished.
    Drained,
}

/// What the owner of an association does after an event.
#[derive(Debug, Clone, Copy, PartialEq, Eq, Structural)]
pub enum SessionEffect {
    /// Go on as before.
    Proceed,
    /// Leave the packet out: the association takes no more traffic.
    Discard,
    /// Stop the loops of the association.
    Cancel,
    /// Remove the association from the connection, and tell the peer with
    /// a Dissociate where `notify_peer` is set.
    Release { notify_peer: bool },
}

/// The state after an event and what the owner does.  `client_side` says
/// that the association was opened from this end, which then is the one to
/// tell the peer when it is over.
pub open spec fn session_step(state: SessionState, event: SessionEvent, client_side: bool) -> (
    SessionState,
    SessionEffect,
) {
    match (state, event) {
        (SessionState::Idle, SessionEvent::Traffic) => (
            SessionState::Active,
            SessionEffect::Proceed,
        ),
        (SessionState::Active, SessionEvent::Traffic) => (
            SessionState::Active,
            SessionEffect::Proceed,
        ),
        (SessionState::Idle, SessionEvent::Stop) => (SessionState::Closing, SessionEffect::Cancel),
        (SessionState::Active, SessionEvent::Stop) => (
            SessionState::Closing,
            SessionEffect::Cancel,
        ),
        (SessionState::Closing, SessionEvent::Drained) => (
            SessionState::Terminated,
            SessionEffect::Release { notify_peer: client_side },
        ),
        (SessionState::Closing, SessionEvent::Traffic) => (
            SessionState::Closing,
            SessionEffect::Discard,
        ),
        (SessionState::Terminated, SessionEvent::Traffic) => (
            SessionState::Terminated,
            SessionEffect::Discard,
        ),
        (s, _) => (s, SessionEffect::Proceed),
    }
}

impl SessionState {
    /// The state of an association that was just opened.
    pub fn new() -> (s: SessionState)
        ensures
            s == SessionState::Idle,
    {
        SessionState::Idle
    }

    /// The state after `event` and what the owner does.
    pub fn step(self, event: SessionEvent, client_side: bool) -> (next: (SessionState, SessionEffect))
        ensures
            next == session_step(self, event, client_side),
    {
        match (self, event) {
            (SessionState::Idle, SessionEvent::Traffic) => (
                SessionState::Active,
                SessionEffect::Proceed,
            ),
            (SessionState::Active, SessionEvent::Traffic) => (
                SessionState::Active,
                SessionEffect::Proceed,
            ),
            (SessionState::Idle, SessionEvent::Stop) => (
                SessionState::Closing,
                SessionEffect::Cancel,
            ),
            (SessionState::Active, SessionEvent::Stop) => (
                SessionState::Closing,
                SessionEffect::Cancel,
            ),
            (SessionState::Closing, SessionEvent::Drained) => (
                SessionState::Terminated,
                SessionEffect::Release { notify_peer: client_side },
            ),
            (SessionState::Closing, SessionEvent::Traffic) => (
                SessionState::Closing,
                SessionEffect::Discard,
            ),
            (SessionState::Terminated, SessionEvent::Traffic) => (
                SessionState::Terminated,
                SessionEffect::Discard,
            ),
            (s, _) => (s, SessionEffect::Proceed),
        }
    }
}

/// The order of the states: an association never goes back.
pub open spec fn state_rank(state: SessionState) -> int {
    match state {
        SessionState::Idle => 0,
        SessionState::Active => 1,
        SessionState::Closing => 2,
        SessionState::Terminated => 3,
    }
}

/// An association only moves forward, one state at a time or from idle to
/// closing; it is released exactly when it goes from closing to terminated,
/// and once terminated it stays so.
pub proof fn lemma_session_progress(state: SessionState, event: SessionEvent, client_side: bool)
    ensures
        state_rank(state) <= state_rank(session_step(state, event, client_side).0),
        session_step(state, event, client_side).1 is Release <==> (state == SessionState::Closing
            && session_step(state, event, client_side).0 == SessionState::Terminated),
        state == SessionState::Terminated ==> session_step(state, event, client_side).0
            == SessionState::Terminated,
        session_step(state, event, client_side).1 is Release ==> session_step(
            state,
            event,
            client_side,
        ).1->notify_peer == client_side,
{
}

} // verus!
