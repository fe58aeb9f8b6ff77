use hid_over_ip::addr::{IpAddress, SocketAddress};
use hid_over_ip::peers::PeerCache;
use hid_over_ip::server::{Action, Phase, ServerSession, SessionEvent, SessionOutcome};

fn peer(n: u8) -> SocketAddress {
    SocketAddress { ip: IpAddress::V4(u32::from_be_bytes([10, 0, 0, n])), port: 27056, scope_id: 0 }
}

#[test]
fn waits_for_chord_unless_connecting_on_start() {
    assert_eq!(ServerSession::new(false).action(), Action::WaitForChord);
    assert_eq!(ServerSession::new(true).action(), Action::SelectPeer);
}

#[test]
fn chord_exit_releases_then_waits() {
    let mut peers = PeerCache::new();
    let mut s = ServerSession::new(false);
    assert_eq!(s.on_event(SessionEvent::ChordPressed, &mut peers), Action::SelectPeer);
    assert_eq!(s.on_event(SessionEvent::PeerFound(peer(1)), &mut peers), Action::Connect(peer(1)));
    let ended = SessionEvent::SessionEnded { outcome: SessionOutcome::MagicKey, grabbed: true };
    assert_eq!(s.on_event(ended, &mut peers), Action::Release { wait_first: false });
    assert_eq!(s.on_event(SessionEvent::Released, &mut peers), Action::WaitForChord);
    assert!(!peers.is_cached(&peer(1)));
}

#[test]
fn failed_session_blacklists_and_waits_before_release() {
    let mut peers = PeerCache::new();
    peers.offer(peer(1));
    let mut s = ServerSession::new(true);
    assert_eq!(s.on_event(SessionEvent::PeerFound(peer(1)), &mut peers), Action::Connect(peer(1)));
    let ended = SessionEvent::SessionEnded { outcome: SessionOutcome::Failed, grabbed: true };
    assert_eq!(s.on_event(ended, &mut peers), Action::Release { wait_first: true });
    assert_eq!(s.on_event(SessionEvent::Released, &mut peers), Action::WaitForChord);
    assert!(s.wait_for_chord);
    peers.prune();
    assert!(!peers.is_cached(&peer(1)));
}

#[test]
fn connect_failure_without_grab_selects_again() {
    let mut peers = PeerCache::new();
    let mut s = ServerSession::new(true);
    s.on_event(SessionEvent::PeerFound(peer(2)), &mut peers);
    let ended = SessionEvent::SessionEnded { outcome: SessionOutcome::Failed, grabbed: false };
    assert_eq!(s.on_event(ended, &mut peers), Action::SelectPeer);
    peers.offer(peer(2));
    peers.prune();
    assert!(!peers.is_cached(&peer(2)));
}

#[test]
fn timeout_goes_back_to_chord_when_waiting() {
    let mut peers = PeerCache::new();
    let mut s = ServerSession::new(false);
    s.on_event(SessionEvent::ChordPressed, &mut peers);
    assert_eq!(s.on_event(SessionEvent::SelectTimedOut, &mut peers), Action::WaitForChord);
    let mut t = ServerSession::new(true);
    assert_eq!(t.on_event(SessionEvent::SelectTimedOut, &mut peers), Action::SelectPeer);
}

#[test]
fn exhausted_peers_stop() {
    let mut peers = PeerCache::new();
    let mut s = ServerSession::new(true);
    assert_eq!(s.on_event(SessionEvent::PeersExhausted, &mut peers), Action::Stop);
    assert_eq!(s.phase, Phase::Done);
    assert_eq!(s.on_event(SessionEvent::ChordPressed, &mut peers), Action::Stop);
}

#[test]
fn unexpected_event_changes_nothing() {
    let mut peers = PeerCache::new();
    let mut s = ServerSession::new(false);
    assert_eq!(s.on_event(SessionEvent::Released, &mut peers), Action::WaitForChord);
    assert_eq!(s.phase, Phase::Idle);
}
