use trojan_tun::addr::{Address, Endpoint, IpAddress};
use trojan_tun::flows::{Evicted, FlowReply, LocalPlan, TokenAllocator, UdpServer, IDLE_SECS};
use trojan_tun::udp::{
    Connection, FlowAction, FlowEvent, FlowState, FlushOutcome, LocalAction, ReadOutcome,
    WriteOutcome,
};

fn source() -> Endpoint {
    Endpoint::new(IpAddress::v4(10, 0, 0, 3), 5353)
}

fn resolver() -> Endpoint {
    Endpoint::new(IpAddress::v4(8, 8, 8, 8), 53)
}

fn record(payload: &[u8]) -> Vec<u8> {
    let mut bytes = vec![0x01, 8, 8, 8, 8, 0x00, 0x35];
    bytes.extend_from_slice(&(payload.len() as u16).to_be_bytes());
    bytes.extend_from_slice(&[0x0d, 0x0a]);
    bytes.extend_from_slice(payload);
    bytes
}

fn server() -> UdpServer {
    UdpServer::new(TokenAllocator::new(2, 1000, 4, 1).unwrap())
}

fn associated(s: &mut UdpServer, token: usize) {
    let reply = s.do_remote(token, FlowEvent::Handshake(true), 0);
    assert!(!reply.removed);
}

#[test]
fn new_flow_is_connecting() {
    let c = Connection::new(9, 4, source(), 77);
    assert_eq!(c.state(), FlowState::Connecting);
    assert_eq!(c.token(), 9);
    assert_eq!(c.local(), 4);
    assert_eq!(c.endpoint(), source());
    assert_eq!(c.last_active(), 77);
    assert!(!c.is_closed());
    assert!(c.needs_handshake());
    assert!(c.pending().is_empty());
}

#[test]
fn datagram_before_the_handshake_is_cached() {
    let mut c = Connection::new(9, 4, source(), 0);
    assert_eq!(c.do_local(&[1, 2, 3], &[4, 5]), LocalAction::Cached);
    assert!(c.pending().is_empty());
    assert_eq!(c.on_handshake(true), FlowAction::Write);
    assert_eq!(c.state(), FlowState::Associated);
    assert!(!c.needs_handshake());
    assert_eq!(c.pending(), &[1, 2, 3, 4, 5]);
}

#[test]
fn handshake_with_nothing_cached_flushes() {
    let mut c = Connection::new(9, 4, source(), 0);
    assert_eq!(c.on_handshake(true), FlowAction::Flush);
    assert_eq!(c.on_handshake(true), FlowAction::Nothing);
    assert_eq!(c.on_handshake(false), FlowAction::Nothing);
    assert_eq!(c.state(), FlowState::Associated);
}

#[test]
fn failed_handshake_closes() {
    let mut c = Connection::new(9, 4, source(), 0);
    assert_eq!(c.on_handshake(false), FlowAction::Close);
    assert!(c.is_closed());
    assert_eq!(c.do_local(&[1], &[2]), LocalAction::Discarded);
    assert_eq!(c.on_handshake(true), FlowAction::Nothing);
    assert!(c.is_closed());
}

#[test]
fn second_datagram_is_dropped_while_the_first_waits() {
    let mut c = Connection::new(9, 4, source(), 0);
    assert_eq!(c.on_handshake(true), FlowAction::Flush);
    assert_eq!(c.do_local(&[1, 2], &[3]), LocalAction::Send);
    assert_eq!(c.do_local(&[7, 7], &[7]), LocalAction::Discarded);
    assert_eq!(c.pending(), &[1, 2, 3]);
    assert_eq!(c.local_to_remote(WriteOutcome::Wrote(3)), FlowAction::Flush);
    assert_eq!(c.do_local(&[7, 7], &[7]), LocalAction::Send);
    assert_eq!(c.pending(), &[7, 7, 7]);
}

#[test]
fn partial_writes_keep_the_rest_in_order() {
    let mut c = Connection::new(9, 4, source(), 0);
    c.on_handshake(true);
    assert_eq!(c.do_local(&[1, 2, 3], &[4, 5, 6]), LocalAction::Send);
    assert_eq!(c.local_to_remote(WriteOutcome::Wrote(2)), FlowAction::Write);
    assert_eq!(c.pending(), &[3, 4, 5, 6]);
    assert_eq!(c.local_to_remote(WriteOutcome::WouldBlock), FlowAction::Flush);
    assert_eq!(c.pending(), &[3, 4, 5, 6]);
    assert_eq!(c.local_to_remote(WriteOutcome::Wrote(3)), FlowAction::Write);
    assert_eq!(c.pending(), &[6]);
    assert_eq!(c.local_to_remote(WriteOutcome::Wrote(9)), FlowAction::Flush);
    assert!(c.pending().is_empty());
    assert_eq!(c.local_to_remote(WriteOutcome::Wrote(0)), FlowAction::Flush);
    assert!(!c.is_closed());
}

#[test]
fn write_that_takes_nothing_closes() {
    let mut c = Connection::new(9, 4, source(), 0);
    c.on_handshake(true);
    c.do_local(&[1], &[2]);
    assert_eq!(c.local_to_remote(WriteOutcome::Wrote(0)), FlowAction::Close);
    assert!(c.is_closed());
    assert!(c.pending().is_empty());
    assert_eq!(c.local_to_remote(WriteOutcome::Wrote(1)), FlowAction::Nothing);
}

#[test]
fn failed_write_closes() {
    let mut c = Connection::new(9, 4, source(), 0);
    c.on_handshake(true);
    c.do_local(&[1], &[2]);
    assert_eq!(c.local_to_remote(WriteOutcome::Failed), FlowAction::Close);
    assert!(c.is_closed());
}

#[test]
fn write_before_the_handshake_does_nothing() {
    let mut c = Connection::new(9, 4, source(), 0);
    c.do_local(&[1], &[2]);
    assert_eq!(c.local_to_remote(WriteOutcome::Wrote(1)), FlowAction::Nothing);
    assert_eq!(c.local_to_remote(WriteOutcome::Failed), FlowAction::Nothing);
    assert_eq!(c.state(), FlowState::Connecting);
    c.on_handshake(true);
    assert_eq!(c.pending(), &[1, 2]);
}

#[test]
fn flush_outcomes() {
    let mut c = Connection::new(9, 4, source(), 0);
    assert_eq!(c.flush_remote(FlushOutcome::Done), FlowAction::Nothing);
    assert_eq!(c.flush_remote(FlushOutcome::WouldBlock), FlowAction::Nothing);
    assert!(!c.is_closed());
    assert_eq!(c.flush_remote(FlushOutcome::Failed), FlowAction::Close);
    assert!(c.is_closed());
    assert_eq!(c.flush_remote(FlushOutcome::Failed), FlowAction::Nothing);
}

#[test]
fn inbound_records_are_delivered_in_order() {
    let mut c = Connection::new(9, 4, source(), 0);
    c.on_handshake(true);
    let mut stream = record(b"one");
    stream.extend_from_slice(&record(b"two!"));
    let third = record(b"three");
    stream.extend_from_slice(&third[..5]);
    let delivered = c.remote_to_local(ReadOutcome::Data(&stream));
    assert_eq!(delivered.len(), 2);
    assert_eq!(delivered[0].payload, b"one");
    assert_eq!(delivered[0].address, Address::from_endpoint(&resolver()));
    assert_eq!(delivered[1].payload, b"two!");
    let delivered = c.remote_to_local(ReadOutcome::WouldBlock);
    assert!(delivered.is_empty());
    let delivered = c.remote_to_local(ReadOutcome::Data(&third[5..]));
    assert_eq!(delivered.len(), 1);
    assert_eq!(delivered[0].payload, b"three");
    assert!(!c.is_closed());
}

#[test]
fn inbound_bytes_one_at_a_time() {
    let mut c = Connection::new(9, 4, source(), 0);
    c.on_handshake(true);
    let stream = record(&[0x5a; 40]);
    for (i, byte) in stream.iter().enumerate() {
        let delivered = c.remote_to_local(ReadOutcome::Data(&[*byte]));
        if i + 1 == stream.len() {
            assert_eq!(delivered.len(), 1);
            assert_eq!(delivered[0].payload, vec![0x5a; 40]);
        } else {
            assert!(delivered.is_empty());
        }
    }
}

#[test]
fn malformed_inbound_bytes_close_the_flow() {
    let mut c = Connection::new(9, 4, source(), 0);
    c.on_handshake(true);
    let mut stream = record(b"ok");
    stream.extend_from_slice(&[0x09, 0x09]);
    let delivered = c.remote_to_local(ReadOutcome::Data(&stream));
    assert_eq!(delivered.len(), 1);
    assert!(c.is_closed());
    assert!(c.remote_to_local(ReadOutcome::Data(&record(b"late"))).is_empty());
}

#[test]
fn end_of_stream_and_failure_close_the_flow() {
    let mut c = Connection::new(9, 4, source(), 0);
    assert!(c.remote_to_local(ReadOutcome::Data(&[])).is_empty());
    assert!(c.is_closed());
    let mut c = Connection::new(9, 4, source(), 0);
    assert!(c.remote_to_local(ReadOutcome::Failed).is_empty());
    assert!(c.is_closed());
}

#[test]
fn close_is_reported_once() {
    let mut c = Connection::new(9, 4, source(), 0);
    assert!(c.close_remote());
    assert!(!c.close_remote());
    assert!(c.is_closed());
    assert_eq!(c.state(), FlowState::Closed);
}

#[test]
fn readiness_asks_for_the_next_step() {
    let mut c = Connection::new(9, 4, source(), 0);
    assert_eq!(c.do_remote(FlowEvent::Writable).0, FlowAction::Handshake);
    assert_eq!(c.do_remote(FlowEvent::Readable).0, FlowAction::Read);
    assert_eq!(c.state(), FlowState::Connecting);
    c.on_handshake(true);
    assert_eq!(c.do_remote(FlowEvent::Writable).0, FlowAction::Flush);
    c.do_local(&[1], &[2]);
    assert_eq!(c.do_remote(FlowEvent::Writable).0, FlowAction::Write);
    assert_eq!(c.pending(), &[1, 2]);
    c.close_remote();
    assert_eq!(c.do_remote(FlowEvent::Writable).0, FlowAction::Nothing);
    assert_eq!(c.do_remote(FlowEvent::Readable).0, FlowAction::Nothing);
}

#[test]
fn events_are_dispatched() {
    let mut c = Connection::new(9, 4, source(), 0);
    c.do_local(&[1], &[2]);
    let (action, delivered) = c.do_remote(FlowEvent::Handshake(true));
    assert_eq!(action, FlowAction::Write);
    assert!(delivered.is_empty());
    let (action, _) = c.do_remote(FlowEvent::Write(WriteOutcome::Wrote(2)));
    assert_eq!(action, FlowAction::Flush);
    let (action, _) = c.do_remote(FlowEvent::Flush(FlushOutcome::Done));
    assert_eq!(action, FlowAction::Nothing);
    let (action, delivered) = c.do_remote(FlowEvent::Read(ReadOutcome::Data(&record(b"x"))));
    assert_eq!(action, FlowAction::Read);
    assert_eq!(delivered.len(), 1);
    let (action, _) = c.do_remote(FlowEvent::Read(ReadOutcome::WouldBlock));
    assert_eq!(action, FlowAction::Nothing);
    let (action, delivered) = c.do_remote(FlowEvent::Read(ReadOutcome::Data(&[0xff])));
    assert_eq!(action, FlowAction::Close);
    assert!(delivered.is_empty());
    let (action, _) = c.do_remote(FlowEvent::Read(ReadOutcome::Failed));
    assert_eq!(action, FlowAction::Nothing);
    c.touch(5);
    assert_eq!(c.last_active(), 5);
}

#[test]
fn token_allocator_counts_and_wraps() {
    let mut t = TokenAllocator::new(2, 5, 4, 1).unwrap();
    assert_eq!(t.peek(), 9);
    assert_eq!(t.next_token(), 9);
    assert_eq!(t.next_token(), 13);
    assert_eq!(t.next_token(), 17);
    assert_eq!(t.next_token(), 9);
    assert_eq!(t.peek(), 13);
}

#[test]
fn token_allocator_refuses_bad_ranges() {
    assert!(TokenAllocator::new(5, 5, 4, 1).is_none());
    assert!(TokenAllocator::new(6, 5, 4, 1).is_none());
    assert!(TokenAllocator::new(0, 5, 4, 4).is_none());
    assert!(TokenAllocator::new(0, 5, 0, 0).is_none());
    assert!(TokenAllocator::new(0, usize::MAX, 2, 0).is_none());
    assert!(TokenAllocator::new(0, usize::MAX / 2, 2, 1).is_some());
    assert!(TokenAllocator::new(0, usize::MAX / 2 + 1, 2, 1).is_none());
    assert!(TokenAllocator::new(0, 1, 1, 0).is_some());
}

#[test]
fn first_datagram_opens_a_flow() {
    let mut s = server();
    assert_eq!(s.len(), 0);
    let payload = [0x5au8; 40];
    let plan = s.do_local(source(), 4, &resolver(), &payload, 100);
    assert_eq!(
        plan,
        LocalPlan { token: Some(9), opened: true, action: LocalAction::Cached }
    );
    assert_eq!(s.len(), 1);
    assert_eq!(s.token_of_source(&source()), Some(9));
    assert_eq!(s.flow_state(9), Some(FlowState::Connecting));
    assert_eq!(s.flow_state(13), None);
    assert!(s.pending(9).is_empty());
    associated(&mut s, 9);
    assert_eq!(s.flow_state(9), Some(FlowState::Associated));
    assert_eq!(s.pending(9), record(&payload));
}

#[test]
fn later_datagrams_use_the_flow() {
    let mut s = server();
    let first = s.do_local(source(), 4, &resolver(), b"a", 0);
    associated(&mut s, 9);
    let reply = s.do_remote(9, FlowEvent::Write(WriteOutcome::Wrote(12)), 1);
    assert_eq!(reply.action, FlowAction::Flush);
    let second = s.do_local(source(), 4, &resolver(), b"bc", 2);
    assert_eq!(first.token, second.token);
    assert_eq!(
        second,
        LocalPlan { token: Some(9), opened: false, action: LocalAction::Send }
    );
    assert_eq!(s.pending(9), record(b"bc"));
    let third = s.do_local(source(), 4, &resolver(), b"d", 3);
    assert_eq!(third.action, LocalAction::Discarded);
    assert_eq!(s.pending(9), record(b"bc"));
    assert_eq!(s.len(), 1);
}

#[test]
fn each_source_gets_its_own_flow() {
    let mut s = server();
    let other = Endpoint::new(IpAddress::v4(10, 0, 0, 3), 5354);
    let a = s.do_local(source(), 4, &resolver(), b"a", 0);
    let b = s.do_local(other, 5, &resolver(), b"b", 0);
    assert_eq!(a.token, Some(9));
    assert_eq!(b.token, Some(13));
    assert!(b.opened);
    assert_eq!(s.len(), 2);
    assert_eq!(s.token_of_source(&other), Some(13));
    assert_eq!(s.new_socket(other, 5, 0), None);
    assert_eq!(s.len(), 2);
}

#[test]
fn too_long_a_datagram_is_dropped() {
    let mut s = server();
    let plan = s.do_local(source(), 4, &resolver(), &vec![0u8; 65528], 0);
    assert_eq!(
        plan,
        LocalPlan { token: None, opened: false, action: LocalAction::Discarded }
    );
    assert_eq!(s.len(), 0);
    let plan = s.do_local(source(), 4, &resolver(), &vec![0u8; 65527], 0);
    assert_eq!(plan.action, LocalAction::Cached);
}

#[test]
fn token_still_in_use_is_passed_over() {
    let mut s = UdpServer::new(TokenAllocator::new(0, 2, 1, 0).unwrap());
    let a = Endpoint::new(IpAddress::v4(10, 0, 0, 1), 1);
    let b = Endpoint::new(IpAddress::v4(10, 0, 0, 2), 1);
    let c = Endpoint::new(IpAddress::v4(10, 0, 0, 3), 1);
    assert_eq!(s.new_socket(a, 1, 0), Some(0));
    assert_eq!(s.new_socket(b, 2, 0), Some(1));
    assert_eq!(s.new_socket(c, 3, 0), None);
    assert_eq!(s.len(), 2);
    assert!(s.remove(1));
    assert!(!s.remove(1));
    assert_eq!(s.new_socket(c, 3, 0), Some(1));
    assert_eq!(s.token_of_source(&b), None);
    assert_eq!(s.token_of_source(&c), Some(1));
}

#[test]
fn inbound_records_go_to_the_source() {
    let mut s = server();
    s.do_local(source(), 4, &resolver(), b"q", 0);
    associated(&mut s, 9);
    let reply = s.do_remote(9, FlowEvent::Read(ReadOutcome::Data(&record(b"answer"))), 7);
    assert_eq!(reply.action, FlowAction::Read);
    assert_eq!(reply.to, Some(source()));
    assert_eq!(reply.local, Some(4));
    assert!(!reply.removed);
    assert_eq!(reply.delivered.len(), 1);
    assert_eq!(reply.delivered[0].payload, b"answer");
    assert_eq!(reply.delivered[0].address, Address::from_endpoint(&resolver()));
}

#[test]
fn events_for_unknown_tokens_change_nothing() {
    let mut s = server();
    s.do_local(source(), 4, &resolver(), b"q", 0);
    let reply = s.do_remote(99, FlowEvent::Handshake(true), 0);
    assert_eq!(
        reply,
        FlowReply {
            action: FlowAction::Nothing,
            delivered: Vec::new(),
            to: None,
            local: None,
            removed: false
        }
    );
    assert_eq!(s.len(), 1);
    assert!(s.pending(99).is_empty());
}

#[test]
fn closed_flow_leaves_the_table() {
    let mut s = server();
    s.do_local(source(), 4, &resolver(), b"q", 0);
    let reply = s.do_remote(9, FlowEvent::Handshake(false), 0);
    assert_eq!(reply.action, FlowAction::Close);
    assert!(reply.removed);
    assert_eq!(reply.to, Some(source()));
    assert_eq!(s.len(), 0);
    assert_eq!(s.token_of_source(&source()), None);
    let again = s.do_local(source(), 4, &resolver(), b"q", 1);
    assert!(again.opened);
    assert_eq!(again.token, Some(13));
}

#[test]
fn idle_flows_are_evicted() {
    assert_eq!(IDLE_SECS, 600);
    let mut s = server();
    let other = Endpoint::new(IpAddress::v4(10, 0, 0, 4), 1);
    s.do_local(source(), 4, &resolver(), b"q", 1000);
    s.do_local(other, 5, &resolver(), b"q", 1300);
    assert!(s.check_timeout(1600).is_empty());
    assert_eq!(s.len(), 2);
    let gone = s.check_timeout(1601);
    assert_eq!(gone, vec![Evicted { token: 9, local: 4, endpoint: source() }]);
    assert_eq!(s.len(), 1);
    assert_eq!(s.token_of_source(&source()), None);
    assert_eq!(s.token_of_source(&other), Some(13));
    assert!(s.check_timeout(1601).is_empty());

    let plan = s.do_local(source(), 6, &resolver(), b"q", 1602);
    assert!(plan.opened);
    assert_eq!(plan.token, Some(17));
    assert_eq!(s.len(), 2);
}

#[test]
fn datagrams_in_either_direction_keep_a_flow_alive() {
    let mut s = server();
    s.do_local(source(), 4, &resolver(), b"q", 0);
    associated(&mut s, 9);
    s.do_remote(9, FlowEvent::Write(WriteOutcome::Wrote(12)), 10);
    s.do_remote(9, FlowEvent::Read(ReadOutcome::Data(&record(b"a"))), 500);
    assert!(s.check_timeout(1100).is_empty());
    s.do_local(source(), 4, &resolver(), b"q", 1100);
    assert!(s.check_timeout(1700).is_empty());
    // events that bring no datagram do not count
    s.do_remote(9, FlowEvent::Read(ReadOutcome::WouldBlock), 1700);
    s.do_remote(9, FlowEvent::Write(WriteOutcome::WouldBlock), 1700);
    assert_eq!(s.check_timeout(1701).len(), 1);
    assert_eq!(s.len(), 0);
}

#[test]
fn sweep_evicts_every_idle_flow() {
    let mut s = server();
    for i in 0..6u8 {
        let e = Endpoint::new(IpAddress::v4(10, 0, 0, i), 1);
        s.do_local(e, i as usize, &resolver(), b"q", if i % 2 == 0 { 0 } else { 500 });
    }
    let gone = s.check_timeout(601);
    assert_eq!(gone.iter().map(|g| g.local).collect::<Vec<_>>(), vec![0, 2, 4]);
    assert_eq!(s.len(), 3);
    let gone = s.check_timeout(2000);
    assert_eq!(gone.iter().map(|g| g.local).collect::<Vec<_>>(), vec![1, 3, 5]);
    assert_eq!(s.len(), 0);
}
