use trojan_tun::addr::IpAddress;
use trojan_tun::probe::{
    destination_probe, next_probe_id, relay_probe, request_probe, ProbeStats, PROBE_COUNT,
    PROBE_INTERVAL_MS, PROBE_TIMEOUT_MS,
};
use trojan_tun::udp::ReadOutcome;
use trojan_tun::profiler::{
    Condition, Decision, LocalResult, NetProfiler, PingResult, REFRESH_SECS, STALE_SECS,
    UNKNOWN_LOSS, UNKNOWN_PING,
};

fn row(local_ping: u16, local_lost: u8, remote_ping: u16, remote_lost: u8) -> PingResult {
    PingResult { last_time: 0, local_lost, local_ping, remote_lost, remote_ping }
}

fn ping_record(ip: [u8; 4], ping: u16, lost: u8) -> Vec<u8> {
    let mut bytes = vec![0x01];
    bytes.extend_from_slice(&ip);
    bytes.extend_from_slice(&ping.to_be_bytes());
    bytes.push(lost);
    bytes
}

#[test]
fn profiler_constants() {
    assert_eq!(UNKNOWN_LOSS, u8::MAX);
    assert_eq!(UNKNOWN_PING, u16::MAX);
    assert_eq!(REFRESH_SECS, 3600);
    assert_eq!(STALE_SECS, 100);
    assert_eq!(PROBE_COUNT, 100);
    assert_eq!(PROBE_INTERVAL_MS, 1000);
    assert_eq!(PROBE_TIMEOUT_MS, 999);
}

#[test]
fn new_row_is_incomplete() {
    let r = PingResult::new(42);
    assert_eq!(r.last_time, 42);
    assert_eq!(r.local_lost, u8::MAX);
    assert_eq!(r.local_ping, u16::MAX);
    assert_eq!(r.remote_lost, u8::MAX);
    assert_eq!(r.remote_ping, u16::MAX);
    assert!(!r.is_complete());
}

#[test]
fn row_is_complete_when_all_four_are_known() {
    assert!(row(1, 2, 3, 4).is_complete());
    assert!(row(0, 0, 0, 0).is_complete());
    assert!(!row(u16::MAX, 2, 3, 4).is_complete());
    assert!(!row(1, u8::MAX, 3, 4).is_complete());
    assert!(!row(1, 2, u16::MAX, 4).is_complete());
    assert!(!row(1, 2, 3, u8::MAX).is_complete());
}

#[test]
fn bypass_when_the_direct_path_is_better() {
    let cond = Condition { ping: 100, lost: 1 };
    assert!(row(40, 0, 20, 0).bypass(&cond));
}

#[test]
fn bypass_needs_strictly_less_latency() {
    let cond = Condition { ping: 100, lost: 1 };
    assert!(row(119, 0, 20, 0).bypass(&cond));
    assert!(!row(120, 0, 20, 0).bypass(&cond));
    assert!(!row(121, 0, 20, 0).bypass(&cond));
}

#[test]
fn bypass_needs_the_relay_nearer_than_this_host() {
    let cond = Condition { ping: 100, lost: 1 };
    assert!(!row(20, 0, 20, 0).bypass(&cond));
    assert!(!row(19, 0, 20, 0).bypass(&cond));
    assert!(row(21, 0, 20, 0).bypass(&cond));
}

#[test]
fn bypass_needs_strictly_less_loss() {
    // 100 - (95 * 90) / 100 = 100 - 85 = 15
    let cond = Condition { ping: 100, lost: 5 };
    assert!(row(40, 14, 20, 10).bypass(&cond));
    assert!(!row(40, 15, 20, 10).bypass(&cond));
    // 100 - (99 * 100) / 100 = 1
    let cond = Condition { ping: 100, lost: 1 };
    assert!(row(40, 0, 20, 0).bypass(&cond));
    assert!(!row(40, 1, 20, 0).bypass(&cond));
    // a relay path that loses nothing cannot be beaten
    let cond = Condition { ping: 100, lost: 0 };
    assert!(!row(40, 0, 20, 0).bypass(&cond));
}

#[test]
fn proxy_loss_is_rounded_down_below_zero_too() {
    // 100 - (100 * -154) / 100 = 254
    let cond = Condition { ping: 100, lost: 0 };
    assert!(row(40, 253, 20, 254).bypass(&cond));
    assert!(!row(40, 254, 20, 254).bypass(&cond));
    // 100 - floor(99 * -154 / 100) = 100 - (-153) = 253
    let cond = Condition { ping: 100, lost: 1 };
    assert!(row(40, 252, 20, 254).bypass(&cond));
    assert!(!row(40, 253, 20, 254).bypass(&cond));
}

#[test]
fn proxy_ping_does_not_wrap() {
    let cond = Condition { ping: 65000, lost: 5 };
    assert!(row(65534, 0, 60000, 50).bypass(&cond));
}

#[test]
fn baseline_before_the_first_measurement() {
    assert_eq!(NetProfiler::new(true).baseline(), Condition { ping: 200, lost: 3 });
    assert_eq!(NetProfiler::new(false).baseline(), Condition { ping: 200, lost: 5 });
    assert!(NetProfiler::new(true).is_enabled());
    assert!(!NetProfiler::new(false).is_enabled());
}

#[test]
fn check_starts_a_measurement_once() {
    let x = IpAddress::v4(93, 184, 216, 34);
    let mut p = NetProfiler::new(true);
    assert!(p.check(x, 1000));
    assert!(!p.check(x, 1060));
    assert_eq!(p.len(), 1);
    assert_eq!(p.get(&x), Some(PingResult::new(1000)));
    assert_eq!(&p.take_outbound()[..], &[0x01, 93, 184, 216, 34]);
    assert!(p.take_outbound().is_empty());
}

#[test]
fn check_is_due_again_after_an_hour() {
    let x = IpAddress::v4(1, 1, 1, 1);
    let mut p = NetProfiler::new(true);
    assert!(p.check(x, 10));
    assert!(!p.check(x, 3609));
    assert!(!p.check(x, 5));
    assert!(p.check(x, 3610));
    assert_eq!(p.len(), 1);
    assert_eq!(p.get(&x).unwrap().last_time, 3610);
    assert_eq!(&p.take_outbound()[..], &[0x01, 1, 1, 1, 1, 0x01, 1, 1, 1, 1]);
}

#[test]
fn check_keeps_what_was_measured() {
    let x = IpAddress::v4(1, 1, 1, 1);
    let mut p = NetProfiler::new(true);
    assert!(p.check(x, 0));
    p.update(&[LocalResult { ip: x, ping: 30, lost: 2 }], None, 1);
    assert!(p.check(x, 3600));
    let r = p.get(&x).unwrap();
    assert_eq!((r.last_time, r.local_ping, r.local_lost), (3600, 30, 2));
}

#[test]
fn check_of_an_ipv6_destination() {
    let x = IpAddress::V6([0xfe; 16]);
    let mut p = NetProfiler::new(true);
    assert!(p.check(x, 0));
    let out = p.take_outbound();
    assert_eq!(out.len(), 17);
    assert_eq!(out[0], 0x04);
    assert_eq!(&out[1..], &[0xfe; 16]);
}

#[test]
fn disabled_profiler_does_nothing() {
    let x = IpAddress::v4(1, 1, 1, 1);
    let mut p = NetProfiler::new(false);
    assert!(!p.check(x, 0));
    assert_eq!(p.len(), 0);
    let plan = p.update(
        &[LocalResult { ip: x, ping: 1, lost: 1 }],
        Some(Condition { ping: 1, lost: 1 }),
        500,
    );
    assert!(plan.decisions.is_empty());
    assert!(plan.resent.is_empty());
    assert!(p.take_outbound().is_empty());
    assert_eq!(p.get(&x), None);
}

#[test]
fn full_measurement_yields_the_decision() {
    let x = IpAddress::v4(93, 184, 216, 34);
    let cond = Condition { ping: 100, lost: 1 };
    let mut p = NetProfiler::new(true);
    assert!(p.check(x, 0));
    let _ = p.take_outbound();

    let plan = p.update(&[], Some(cond), 1);
    assert!(plan.decisions.is_empty());
    assert!(plan.resent.is_empty());

    assert!(p.on_remote_data(&ping_record([93, 184, 216, 34], 20, 0)));
    let plan = p.update(&[], Some(cond), 2);
    assert!(plan.decisions.is_empty());

    let plan = p.update(&[LocalResult { ip: x, ping: 40, lost: 0 }], Some(cond), 3);
    assert_eq!(plan.decisions, vec![Decision { ip: x, bypass: true }]);
    assert!(plan.resent.is_empty());
    assert_eq!(
        p.get(&x),
        Some(PingResult {
            last_time: 0,
            local_lost: 0,
            local_ping: 40,
            remote_lost: 0,
            remote_ping: 20
        })
    );
}

#[test]
fn one_decision_for_each_complete_row() {
    let a = IpAddress::v4(1, 0, 0, 1);
    let b = IpAddress::v4(1, 0, 0, 2);
    let c = IpAddress::v4(1, 0, 0, 3);
    let cond = Condition { ping: 100, lost: 5 };
    let mut p = NetProfiler::new(true);
    for ip in [a, b, c] {
        assert!(p.check(ip, 0));
    }
    let mut stream = ping_record([1, 0, 0, 1], 20, 0);
    stream.extend_from_slice(&ping_record([1, 0, 0, 3], 500, 0));
    assert!(p.on_remote_data(&stream));
    let plan = p.update(
        &[
            LocalResult { ip: a, ping: 40, lost: 0 },
            LocalResult { ip: c, ping: 40, lost: 0 },
            LocalResult { ip: a, ping: 50, lost: 0 },
        ],
        Some(cond),
        10,
    );
    assert_eq!(
        plan.decisions,
        vec![Decision { ip: a, bypass: true }, Decision { ip: c, bypass: false }]
    );
    assert_eq!(p.get(&a).unwrap().local_ping, 50);
    assert!(!p.get(&b).unwrap().is_complete());
}

#[test]
fn stale_rows_are_requested_again() {
    let a = IpAddress::v4(1, 0, 0, 1);
    let b = IpAddress::v4(1, 0, 0, 2);
    let cond = Condition { ping: 100, lost: 5 };
    let mut p = NetProfiler::new(true);
    assert!(p.check(a, 0));
    assert!(p.check(b, 50));
    let _ = p.take_outbound();

    let plan = p.update(&[], Some(cond), 100);
    assert!(plan.resent.is_empty());
    assert!(p.take_outbound().is_empty());

    let plan = p.update(&[], Some(cond), 101);
    assert_eq!(plan.resent, vec![a]);
    assert_eq!(&p.take_outbound()[..], &[0x01, 1, 0, 0, 1]);

    let plan = p.update(&[], Some(cond), 151);
    assert_eq!(plan.resent, vec![a, b]);
    assert_eq!(&p.take_outbound()[..], &[0x01, 1, 0, 0, 1, 0x01, 1, 0, 0, 2]);
    assert_eq!(p.get(&a).unwrap().last_time, 0);
}

#[test]
fn update_without_a_baseline_only_takes_measurements() {
    let a = IpAddress::v4(1, 0, 0, 1);
    let mut p = NetProfiler::new(true);
    assert!(p.check(a, 0));
    let _ = p.take_outbound();
    assert!(p.on_remote_data(&ping_record([1, 0, 0, 1], 20, 0)));
    let plan = p.update(&[LocalResult { ip: a, ping: 40, lost: 0 }], None, 500);
    assert!(plan.decisions.is_empty());
    assert!(plan.resent.is_empty());
    assert!(p.take_outbound().is_empty());
    assert!(p.get(&a).unwrap().is_complete());
}

#[test]
fn measurements_of_unknown_destinations_are_dropped() {
    let a = IpAddress::v4(1, 0, 0, 1);
    let mut p = NetProfiler::new(true);
    p.update(&[LocalResult { ip: a, ping: 40, lost: 0 }], None, 0);
    assert!(p.on_remote_data(&ping_record([1, 0, 0, 1], 20, 0)));
    assert_eq!(p.len(), 0);
    assert_eq!(p.get(&a), None);
}

#[test]
fn measurements_stay_below_the_unknown_value() {
    let a = IpAddress::v4(1, 0, 0, 1);
    let mut p = NetProfiler::new(true);
    assert!(p.check(a, 0));
    p.update(&[LocalResult { ip: a, ping: u16::MAX, lost: u8::MAX }], None, 0);
    assert!(p.on_remote_data(&ping_record([1, 0, 0, 1], u16::MAX, u8::MAX)));
    let r = p.get(&a).unwrap();
    assert_eq!(r.local_ping, u16::MAX - 1);
    assert_eq!(r.local_lost, u8::MAX - 1);
    assert_eq!(r.remote_ping, u16::MAX - 1);
    assert_eq!(r.remote_lost, u8::MAX - 1);
    assert!(r.is_complete());
}

#[test]
fn ping_records_may_arrive_in_pieces() {
    let a = IpAddress::v4(1, 0, 0, 1);
    let b = IpAddress::V6([9; 16]);
    let mut p = NetProfiler::new(true);
    assert!(p.check(a, 0));
    assert!(p.check(b, 0));
    let mut stream = ping_record([1, 0, 0, 1], 0x0123, 7);
    stream.push(0x04);
    stream.extend_from_slice(&[9; 16]);
    stream.extend_from_slice(&[0x00, 0x50, 3]);
    for byte in &stream {
        assert!(p.on_remote_data(&[*byte]));
    }
    let ra = p.get(&a).unwrap();
    assert_eq!((ra.remote_ping, ra.remote_lost), (0x0123, 7));
    let rb = p.get(&b).unwrap();
    assert_eq!((rb.remote_ping, rb.remote_lost), (0x50, 3));
}

#[test]
fn malformed_ping_stream_is_reported() {
    let a = IpAddress::v4(1, 0, 0, 1);
    let mut p = NetProfiler::new(true);
    assert!(p.check(a, 0));
    let mut stream = ping_record([1, 0, 0, 1], 20, 1);
    stream.push(0x07);
    assert!(!p.on_remote_data(&stream));
    assert_eq!(p.get(&a).unwrap().remote_ping, 20);
    assert!(!p.on_remote_data(&[]));
    p.reset();
    assert!(p.on_remote_data(&[]));
    assert!(p.on_remote_data(&ping_record([1, 0, 0, 1], 21, 1)));
    assert_eq!(p.get(&a).unwrap().remote_ping, 21);
}

#[test]
fn reads_from_the_ping_channel() {
    let a = IpAddress::v4(1, 0, 0, 1);
    let mut p = NetProfiler::new(true);
    assert!(p.check(a, 0));
    assert!(p.on_remote_read(ReadOutcome::WouldBlock));
    assert!(p.on_remote_read(ReadOutcome::Data(&[0x01, 1, 0])));
    assert!(p.on_remote_read(ReadOutcome::Data(&[0, 1, 0, 44, 9])));
    assert_eq!(p.get(&a).unwrap().remote_ping, 44);
    // half a record, then the end of the stream: the half is forgotten
    assert!(p.on_remote_read(ReadOutcome::Data(&[0x01, 1, 0])));
    assert!(!p.on_remote_read(ReadOutcome::Data(&[])));
    assert!(p.on_remote_read(ReadOutcome::Data(&ping_record([1, 0, 0, 1], 45, 9))));
    assert_eq!(p.get(&a).unwrap().remote_ping, 45);
    assert!(p.on_remote_read(ReadOutcome::Data(&[0x01])));
    assert!(!p.on_remote_read(ReadOutcome::Failed));
    assert!(!p.on_remote_read(ReadOutcome::Data(&[0x09])));
    assert!(p.on_remote_read(ReadOutcome::Data(&ping_record([1, 0, 0, 1], 46, 9))));
    assert_eq!(p.get(&a).unwrap().remote_ping, 46);
}

#[test]
fn ready_reads_then_hands_out_what_to_write() {
    let a = IpAddress::v4(1, 0, 0, 1);
    let mut p = NetProfiler::new(true);
    assert!(p.check(a, 0));
    let record = ping_record([1, 0, 0, 1], 50, 1);
    let (alive, data) = p.ready(Some(ReadOutcome::Data(&record)), false);
    assert!(alive);
    assert!(data.is_empty());
    assert_eq!(p.get(&a).unwrap().remote_ping, 50);
    let (alive, data) = p.ready(None, true);
    assert!(alive);
    assert_eq!(&data[..], &[0x01, 1, 0, 0, 1]);
    let (alive, data) = p.ready(Some(ReadOutcome::WouldBlock), true);
    assert!(alive);
    assert!(data.is_empty());
    assert!(p.check(IpAddress::v4(1, 0, 0, 2), 0));
    let (alive, data) = p.ready(Some(ReadOutcome::Data(&[])), true);
    assert!(!alive);
    assert!(data.is_empty());
    assert_eq!(&p.take_outbound()[..], &[0x01, 1, 0, 0, 2]);
}

#[test]
fn initialize_starts_a_fresh_channel() {
    let a = IpAddress::v4(1, 0, 0, 1);
    let mut p = NetProfiler::new(true);
    assert!(p.check(a, 0));
    assert!(p.on_remote_data(&[0x01, 1, 0]));
    let request = p.initialize();
    assert_eq!(&request[..], &[0xff, 0x01, 0, 0, 0, 0, 0, 0, 0x0d, 0x0a]);
    assert!(p.decode());
    assert!(p.on_remote_data(&ping_record([1, 0, 0, 1], 33, 2)));
    assert_eq!(p.get(&a).unwrap().remote_ping, 33);
    assert_eq!(&p.take_outbound()[..], &[0x01, 1, 0, 0, 1]);
}

#[test]
fn reset_forgets_half_a_record() {
    let a = IpAddress::v4(1, 0, 0, 1);
    let mut p = NetProfiler::new(true);
    assert!(p.check(a, 0));
    assert!(p.on_remote_data(&[0x01, 1, 0]));
    p.reset();
    assert!(p.on_remote_data(&ping_record([1, 0, 0, 1], 33, 2)));
    assert_eq!(p.get(&a).unwrap().remote_ping, 33);
    assert_eq!(&p.take_outbound()[..], &[0x01, 1, 0, 0, 1]);
}

#[test]
fn running_average_of_the_replies() {
    let mut s = ProbeStats::new();
    s.record(Some(10));
    assert_eq!(s.ping(), 10);
    s.record(Some(20));
    assert_eq!(s.ping(), 15);
    s.record(None);
    assert_eq!(s.ping(), 15);
    s.record(Some(40));
    // (15 * 3 + 40) / 4
    assert_eq!(s.ping(), 21);
    assert_eq!(s.lost(), 1);
    assert!(!s.is_done());
    assert_eq!(s.condition(), Condition { ping: 21, lost: 1 });
}

#[test]
fn measurement_ends_after_a_hundred_requests() {
    let mut s = ProbeStats::new();
    for i in 0..100u64 {
        assert!(!s.is_done());
        s.record(if i % 4 == 0 { None } else { Some(8) });
    }
    assert!(s.is_done());
    assert_eq!(s.lost(), 25);
    // The first request is lost, so the average starts from 0 at the second:
    // 0, (0 + 8) / 2 = 4, (8 + 8) / 3 = 5, (15 + 8) / 4 = 5, and from then
    // on (5 * i + 8) / (i + 1) = 5.
    assert_eq!(s.ping(), 5);
    s.record(None);
    s.record(Some(1000));
    assert_eq!(s.lost(), 25);
    assert_eq!(s.ping(), 5);
}

#[test]
fn steady_replies_average_to_themselves() {
    let mut s = ProbeStats::new();
    for _ in 0..100 {
        s.record(Some(8));
    }
    assert!(s.is_done());
    assert_eq!(s.lost(), 0);
    assert_eq!(s.ping(), 8);
}

#[test]
fn all_requests_lost() {
    let mut s = ProbeStats::new();
    for _ in 0..100 {
        s.record(None);
    }
    assert_eq!(s.lost(), 100);
    assert_eq!(s.ping(), 0);
}

#[test]
fn reported_latency_stays_below_the_unknown_value() {
    let mut s = ProbeStats::new();
    s.record(Some(70000));
    assert_eq!(s.ping(), u16::MAX - 1);
    let mut s = ProbeStats::new();
    s.record(Some(u64::MAX));
    s.record(Some(u64::MAX));
    assert_eq!(s.ping(), u16::MAX - 1);
    let mut s = ProbeStats::new();
    s.record(Some(65534));
    assert_eq!(s.ping(), 65534);
}

#[test]
fn probe_identifiers_wrap() {
    assert_eq!(next_probe_id(0), 1);
    assert_eq!(next_probe_id(65534), 65535);
    assert_eq!(next_probe_id(65535), 0);
}

#[test]
fn probe_plans() {
    let plan = destination_probe(7);
    assert_eq!(
        (plan.id, plan.count, plan.interval_ms, plan.timeout_ms),
        (7, 100, 1000, 999)
    );
    let relay = relay_probe();
    assert_eq!((relay.count, relay.interval_ms, relay.timeout_ms), (100, 1000, 999));
}

#[test]
fn relay_probe_identifiers_vary() {
    let first = relay_probe().id;
    let mut varied = false;
    for _ in 0..64 {
        if relay_probe().id != first {
            varied = true;
        }
    }
    assert!(varied);
}

#[test]
fn destinations_in_the_sink_are_not_probed() {
    assert_eq!(request_probe(5, true), (None, 5));
    assert_eq!(request_probe(5, false), (Some(destination_probe(5)), 6));
    assert_eq!(request_probe(65535, false), (Some(destination_probe(65535)), 0));
}
