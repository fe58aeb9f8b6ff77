//! The capturing side's session: when to wait for the chord, pick a peer,
//! connect, and release the grabbed devices.
use vstd::prelude::*;

use crate::addr::SocketAddress;
use crate::peers::PeerCache;

verus! {

/// How a forwarding session ended.
#[derive(Clone, Copy, Debug, PartialEq, Eq, Structural)]
pub enum SessionOutcome {
    /// The user pressed and released the chord.
    MagicKey,
    /// Connecting, grabbing or forwarding failed.
    Failed,
    /// The event stream ended.
    Closed,
}

/// What happened since the last action.
#[derive(Clone, Copy, Debug, PartialEq, Eq, Structural)]
pub enum SessionEvent {
    ChordPressed,
    PeerFound(SocketAddress),
    SelectTimedOut,
    PeersExhausted,
    /// The session with the peer ended; `grabbed` tells whether the devices
    /// were grabbed at its end.
    SessionEnded { outcome: SessionOutcome, grabbed: bool },
    /// The devices were released.
    Released,
}

/// What to do next.
#[derive(Clone, Copy, Debug, PartialEq, Eq, Structural)]
pub enum Action {
    /// Read input until the chord fires.
    WaitForChord,
    /// Ask the selector for a peer, within the selection timeout.
    SelectPeer,
    /// Connect to the peer, grab every device and forward events until the
    /// chord fires or the connection ends.
    Connect(SocketAddress),
    /// Release every device; where `wait_first`, wait for the chord first.
    Release { wait_first: bool },
    /// No peer is left: stop.
    Stop,
}

/// Where the session stands.
#[derive(Clone, Copy, Debug, PartialEq, Eq, Structural)]
pub enum Phase {
    Idle,
    Selecting,
    Active(SocketAddress),
    Releasing(bool),
    Done,
}

/// The session's state: its phase, and whether each new selection waits
/// for the chord first.
#[derive(Clone, Copy, Debug, PartialEq, Eq, Structural)]
pub struct ServerSession {
    pub wait_for_chord: bool,
    pub phase: Phase,
}

/// The action that a phase asks for.
pub open spec fn action_of(phase: Phase) -> Action {
    match phase {
        Phase::Idle => Action::WaitForChord,
        Phase::Selecting => Action::SelectPeer,
        Phase::Active(a) => Action::Connect(a),
        Phase::Releasing(w) => Action::Release { wait_first: w },
        Phase::Done => Action::Stop,
    }
}

/// The start of a new selection: through the chord where the session waits
/// for it.
pub open spec fn select_again(wait_for_chord: bool) -> Phase {
    if wait_for_chord {
        Phase::Idle
    } else {
        Phase::Selecting
    }
}

/// The next state after `ev`. An event that the phase does not expect
/// changes nothing.
pub open spec fn session_next(s: ServerSession, ev: SessionEvent) -> ServerSession {
    match (s.phase, ev) {
        (Phase::Idle, SessionEvent::ChordPressed) => ServerSession { phase: Phase::Selecting, ..s },
        (Phase::Selecting, SessionEvent::PeerFound(a)) => ServerSession {
            phase: Phase::Active(a),
            ..s
        },
        (Phase::Selecting, SessionEvent::SelectTimedOut) => ServerSession {
            phase: select_again(s.wait_for_chord),
            ..s
        },
        (Phase::Selecting, SessionEvent::PeersExhausted) => ServerSession {
            phase: Phase::Done,
            ..s
        },
        (Phase::Active(_), SessionEvent::SessionEnded { outcome, grabbed }) => if grabbed {
            ServerSession {
                wait_for_chord: true,
                phase: Phase::Releasing(outcome != SessionOutcome::MagicKey),
            }
        } else {
            ServerSession { phase: select_again(s.wait_for_chord), ..s }
        },
        (Phase::Releasing(_), SessionEvent::Released) => ServerSession {
            phase: select_again(s.wait_for_chord),
            ..s
        },
        _ => s,
    }
}

/// The peer that `ev` marks as bad: the active one, where its session failed.
pub open spec fn failed_peer(s: ServerSession, ev: SessionEvent) -> Option<SocketAddress> {
    match (s.phase, ev) {
        (Phase::Active(a), SessionEvent::SessionEnded { outcome, grabbed }) => if outcome
            == SessionOutcome::Failed {
            Some(a)
        } else {
            None
        },
        _ => None,
    }
}

/// Whatever ends a session that had the devices grabbed, the next step
/// releases them, and no new connection comes before that; afterwards
/// every selection waits for the chord.
pub proof fn lemma_release_after_grab(s: ServerSession, a: SocketAddress, outcome: SessionOutcome)
    requires
        s.phase == Phase::Active(a),
    ensures
        action_of(
            session_next(s, SessionEvent::SessionEnded { outcome, grabbed: true }).phase,
        ) == (Action::Release { wait_first: outcome != SessionOutcome::MagicKey }),
        session_next(
            session_next(s, SessionEvent::SessionEnded { outcome, grabbed: true }),
            SessionEvent::Released,
        ).phase == Phase::Idle,
{
}

impl ServerSession {
    /// A session that connects at once where `connect_on_start`, and else
    /// waits for the chord first.
    pub fn new(connect_on_start: bool) -> (r: ServerSession)
        ensures
            r.wait_for_chord == !connect_on_start,
            r.phase == select_again(!connect_on_start),
    {
        let wait_for_chord = !connect_on_start;
        ServerSession {
            wait_for_chord,
            phase: if wait_for_chord {
                Phase::Idle
            } else {
                Phase::Selecting
            },
        }
    }

    /// The action that the current phase asks for.
    pub fn action(&self) -> (r: Action)
        ensures
            r == action_of(self.phase),
    {
        match self.phase {
            Phase::Idle => Action::WaitForChord,
            Phase::Selecting => Action::SelectPeer,
            Phase::Active(a) => Action::Connect(a),
            Phase::Releasing(w) => Action::Release { wait_first: w },
            Phase::Done => Action::Stop,
        }
    }

    /// Takes `ev`, blacklists the active peer where its session failed, and
    /// returns the next action.
    pub fn on_event(&mut self, ev: SessionEvent, peers: &mut PeerCache) -> (r: Action)
        requires
            old(peers).wf(),
        ensures
            *final(self) == session_next(*old(self), ev),
            r == action_of(final(self).phase),
            final(peers).wf(),
            final(peers)@.cache == old(peers)@.cache,
            final(peers)@.blacklist == match failed_peer(*old(self), ev) {
                Some(a) => old(peers)@.blacklist.insert(a),
                None => old(peers)@.blacklist,
            },
    {
        let again = if self.wait_for_chord {
            Phase::Idle
        } else {
            Phase::Selecting
        };
        match (self.phase, ev) {
            (Phase::Idle, SessionEvent::ChordPressed) => {
                self.phase = Phase::Selecting;
            },
            (Phase::Selecting, SessionEvent::PeerFound(a)) => {
                self.phase = Phase::Active(a);
            },
            (Phase::Selecting, SessionEvent::SelectTimedOut) => {
                self.phase = again;
            },
            (Phase::Selecting, SessionEvent::PeersExhausted) => {
                self.phase = Phase::Done;
            },
            (Phase::Active(a), SessionEvent::SessionEnded { outcome, grabbed }) => {
                if outcome == SessionOutcome::Failed {
                    peers.blacklist(a);
                }
                if grabbed {
                    self.wait_for_chord = true;
                    self.phase = Phase::Releasing(outcome != SessionOutcome::MagicKey);
                } else {
                    self.phase = again;
                }
            },
            (Phase::Releasing(_), SessionEvent::Released) => {
                self.phase = again;
            },
            _ => {},
        }
        self.action()
    }
}

} // verus!
