use trojan_tun::addr::{Endpoint, IpAddress};
use trojan_tun::bridge::Status;
use trojan_tun::pool::{IdlePool, BACKOFF_CAP_MS, BACKOFF_START_MS, CONNECT_TIMEOUT_MS};
use trojan_tun::tcp::{CopyHalf, TcpAction, TcpFlow, TcpState};
use trojan_tun::types::{reaction, Origin, Reaction, TrojanError};

fn echo() -> Endpoint {
    Endpoint::new(IpAddress::v4(10, 0, 0, 2), 7)
}

fn streaming() -> TcpFlow {
    let mut f = TcpFlow::new(echo(), 4096);
    f.on_acquire(true);
    f.on_tls_ready();
    f.on_preamble_written(10);
    assert_eq!(f.state(), TcpState::Streaming);
    f
}

#[test]
fn copy_half_passes_bytes_on_in_order() {
    let mut h = CopyHalf::new(4);
    assert_eq!(h.wanted(), 4);
    assert!(h.pending().is_empty());
    assert!(h.on_read(&[1, 2, 3, 4]));
    assert_eq!(h.wanted(), 0);
    assert_eq!(h.pending(), &[1, 2, 3, 4]);
    assert!(!h.on_read(&[9]));
    assert_eq!(h.pending(), &[1, 2, 3, 4]);
    h.on_written(1);
    assert_eq!(h.pending(), &[2, 3, 4]);
    assert_eq!(h.wanted(), 0);
    h.on_written(0);
    assert_eq!(h.pending(), &[2, 3, 4]);
    h.on_written(7);
    assert!(h.pending().is_empty());
    assert_eq!(h.wanted(), 4);
    assert!(!h.wants_shutdown());
    assert!(!h.is_done());
}

#[test]
fn copy_half_passes_the_end_on_after_the_bytes() {
    let mut h = CopyHalf::new(4);
    assert!(h.on_read(&[1, 2]));
    h.on_shutdown();
    assert!(!h.is_done());
    h.on_written(2);
    assert!(!h.wants_shutdown());
    assert!(h.on_read(&[]));
    assert_eq!(h.wanted(), 0);
    assert!(h.wants_shutdown());
    assert!(!h.on_read(&[5]));
    assert!(!h.on_read(&[]));
    h.on_shutdown();
    assert!(h.is_done());
    assert!(!h.wants_shutdown());
    assert!(h.pending().is_empty());
}

#[test]
fn tcp_echo_flow() {
    let mut f = TcpFlow::new(echo(), 4096);
    assert_eq!(f.state(), TcpState::Accepted);
    assert_eq!(f.peer(), echo());
    assert_eq!(f.local_wanted(), 0);
    assert_eq!(f.on_acquire(true), TcpAction::Wait);
    assert_eq!(f.state(), TcpState::ConnectingTls);
    assert_eq!(f.on_tls_ready(), TcpAction::WritePreamble);
    assert_eq!(f.state(), TcpState::PreambleSent);
    assert_eq!(
        f.preamble(),
        &[0x01, 0x01, 0x0a, 0x00, 0x00, 0x02, 0x00, 0x07, 0x0d, 0x0a]
    );
    assert_eq!(f.on_preamble_written(4), TcpAction::WritePreamble);
    assert_eq!(f.preamble(), &[0x00, 0x02, 0x00, 0x07, 0x0d, 0x0a]);
    assert_eq!(f.local_wanted(), 0);
    assert!(!f.on_local_read(b"PING\n"));
    assert_eq!(f.on_preamble_written(6), TcpAction::Copy);
    assert_eq!(f.state(), TcpState::Streaming);
    assert!(f.preamble().is_empty());

    assert_eq!(f.local_wanted(), 4096);
    assert_eq!(f.remote_wanted(), 4096);
    assert!(f.on_local_read(b"PING\n"));
    assert_eq!(f.remote_pending(), b"PING\n");
    assert_eq!(f.local_wanted(), 0);
    f.on_remote_written(5);
    assert!(f.remote_pending().is_empty());
    assert!(f.on_remote_read(b"PING\n"));
    assert_eq!(f.local_pending(), b"PING\n");
    f.on_local_written(2);
    assert_eq!(f.local_pending(), b"NG\n");
    f.on_local_written(3);
    assert!(f.local_pending().is_empty());
    assert_eq!(f.settle(), (false, false, TcpAction::Copy));
    assert_eq!(f.state(), TcpState::Streaming);
}

#[test]
fn tcp_flow_closes_when_both_sides_are_done() {
    let mut f = streaming();
    assert!(f.on_local_read(b"bye"));
    assert!(!f.on_local_read(&[]));
    f.on_remote_written(3);
    assert!(f.on_local_read(&[]));
    assert_eq!(f.settle(), (true, false, TcpAction::Copy));
    assert_eq!(f.state(), TcpState::HalfClosedLocal);
    assert_eq!(f.local_wanted(), 0);
    assert_eq!(f.remote_wanted(), 4096);
    assert!(f.on_remote_read(b"ok"));
    assert!(f.on_remote_read(&[]) == false);
    f.on_local_written(2);
    assert_eq!(f.settle(), (false, false, TcpAction::Copy));
    assert!(f.on_remote_read(&[]));
    assert_eq!(f.settle(), (false, true, TcpAction::Close));
    assert_eq!(f.state(), TcpState::Closed);
    assert_eq!(f.settle(), (false, false, TcpAction::Wait));
    assert_eq!(f.on_error(), TcpAction::Wait);
}

#[test]
fn tcp_flow_half_closed_by_the_relay() {
    let mut f = streaming();
    assert!(f.on_remote_read(&[]));
    assert_eq!(f.settle(), (false, true, TcpAction::Copy));
    assert_eq!(f.state(), TcpState::HalfClosedRemote);
    assert!(f.on_local_read(b"more"));
    f.on_remote_written(4);
    assert!(f.on_local_read(&[]));
    assert_eq!(f.settle(), (true, false, TcpAction::Close));
    assert_eq!(f.state(), TcpState::Closed);
}

#[test]
fn tcp_flow_error_closes_and_discards() {
    let mut f = streaming();
    assert!(f.on_local_read(b"lost"));
    assert_eq!(f.on_error(), TcpAction::Close);
    assert_eq!(f.state(), TcpState::Closed);
    assert_eq!(f.local_wanted(), 0);
    assert!(!f.on_local_read(b"x"));
    f.on_remote_written(4);
    assert_eq!(f.remote_pending(), b"lost");
}

#[test]
fn events_out_of_turn_change_nothing() {
    let mut f = TcpFlow::new(echo(), 16);
    assert_eq!(f.on_tls_ready(), TcpAction::Wait);
    assert_eq!(f.on_preamble_written(3), TcpAction::Wait);
    assert_eq!(f.state(), TcpState::Accepted);
    f.on_acquire(true);
    assert_eq!(f.on_acquire(false), TcpAction::Wait);
    assert_eq!(f.on_preamble_written(3), TcpAction::Wait);
    assert_eq!(f.state(), TcpState::ConnectingTls);
    f.on_tls_ready();
    assert_eq!(f.preamble().len(), 10);
}

#[test]
fn relay_unreachable_resets_the_flow() {
    assert_eq!(CONNECT_TIMEOUT_MS, 10_000);
    let mut f = TcpFlow::new(echo(), 4096);
    assert_eq!(f.on_acquire(false), TcpAction::Reset);
    assert_eq!(f.state(), TcpState::Closed);
    assert_eq!(reaction(TrojanError::Unreachable, Origin::Flow), Reaction::ReportError);
    assert_eq!(Status::Error.code(), 2);
    // the engine goes on accepting flows
    let mut next = TcpFlow::new(echo(), 4096);
    assert_eq!(next.on_acquire(true), TcpAction::Wait);
    assert_eq!(next.state(), TcpState::ConnectingTls);
}

#[test]
fn pool_hands_out_the_oldest_idle_connection() {
    let mut p = IdlePool::new(3);
    assert_eq!(p.missing(), 3);
    assert_eq!(p.acquire(), None);
    assert!(p.on_opened(11));
    assert!(p.on_opened(12));
    assert!(!p.on_opened(11));
    assert!(p.on_opened(13));
    assert!(!p.on_opened(14));
    assert_eq!(p.missing(), 0);
    assert!(p.holds(12));
    assert_eq!(p.acquire(), Some(11));
    assert!(!p.holds(11));
    assert_eq!(p.missing(), 1);
    assert_eq!(p.acquire(), Some(12));
    assert_eq!(p.acquire(), Some(13));
    assert_eq!(p.acquire(), None);
    assert_eq!(p.missing(), 3);
}

#[test]
fn pool_forgets_lost_connections() {
    let mut p = IdlePool::new(3);
    p.on_opened(1);
    p.on_opened(2);
    p.on_opened(3);
    assert!(p.on_closed(2));
    assert!(!p.on_closed(2));
    assert!(!p.on_closed(9));
    assert_eq!(p.missing(), 1);
    assert_eq!(p.acquire(), Some(1));
    assert_eq!(p.acquire(), Some(3));
}

#[test]
fn pool_backs_off_and_starts_over() {
    assert_eq!(BACKOFF_START_MS, 100);
    assert_eq!(BACKOFF_CAP_MS, 30_000);
    let mut p = IdlePool::new(1);
    let waits: Vec<u64> = (0..11).map(|_| p.on_open_failed()).collect();
    assert_eq!(
        waits,
        vec![100, 200, 400, 800, 1600, 3200, 6400, 12800, 25600, 30000, 30000]
    );
    assert!(p.on_opened(5));
    assert_eq!(p.on_open_failed(), 100);
    assert_eq!(p.on_open_failed(), 200);
    assert!(!p.on_opened(6));
    assert_eq!(p.on_open_failed(), 100);
}

#[test]
fn pool_of_size_zero_holds_nothing() {
    let mut p = IdlePool::new(0);
    assert_eq!(p.missing(), 0);
    assert!(!p.on_opened(1));
    assert_eq!(p.acquire(), None);
}
