//! The bypass profiler: for each destination it keeps the latency and loss
//! measured directly and through the relay, and decides from them whether the
//! destination is better reached directly.
//!
//! The profiler does no I/O. Its caller hands it the time, the measurements
//! and the bytes of the ping channel, and carries out what it answers.

use crate::addr::{Address, AddressView, IpAddress};
use crate::buffer::{
    buf_advance, buf_as_slice, buf_clear, buf_extend_from_slice, buf_get_u16, buf_get_u8, buf_new,
    buf_split, buffered,
};
use crate::proto::{
    parse_ping_record, put_ip, spec_ip, spec_request, Command, Parsed, PingRecord, TrojanRequest,
    IPV4, IPV6,
};
use crate::udp::{ReadOutcome, ReadView};
use bytes::BytesMut;
use vstd::prelude::*;

verus! {

/// The loss value that stands for "not measured yet".
pub const UNKNOWN_LOSS: u8 = 255;

/// The latency value that stands for "not measured yet".
pub const UNKNOWN_PING: u16 = 65535;

/// A destination that was checked less than this many seconds ago is not
/// checked again.
pub const REFRESH_SECS: u64 = 3600;

/// A destination whose measurement is still incomplete after more than this
/// many seconds is requested from the relay again.
pub const STALE_SECS: u64 = 100;

/// The relay's own baseline: latency in milliseconds and lost echoes out of
/// a hundred, as measured directly from this host.
#[derive(Clone, Copy, Debug, PartialEq, Eq)]
pub struct Condition {
    pub ping: u16,
    pub lost: u8,
}

/// What is known of one destination.
#[derive(Clone, Copy, Debug, PartialEq, Eq)]
pub struct PingResult {
    /// When the destination was last checked, in seconds on the caller's
    /// clock.
    pub last_time: u64,
    pub local_lost: u8,
    pub local_ping: u16,
    pub remote_lost: u8,
    pub remote_ping: u16,
}

impl PingResult {
    /// All four measurements are known.
    pub open spec fn spec_is_complete(&self) -> bool {
        self.local_lost != UNKNOWN_LOSS && self.local_ping != UNKNOWN_PING && self.remote_lost
            != UNKNOWN_LOSS && self.remote_ping != UNKNOWN_PING
    }

    /// The latency of the destination through the relay.
    pub open spec fn proxy_ping(self, cond: Condition) -> int {
        cond.ping + self.remote_ping
    }

    /// The loss of the destination through the relay, in percent, rounded
    /// down: what is lost on either of the two legs.
    pub open spec fn proxy_loss(self, cond: Condition) -> int {
        100 - ((100 - cond.lost) * (100 - self.remote_lost)) / 100
    }

    /// The destination is better reached directly: the direct path is
    /// faster and loses less than the path through the relay, and the relay
    /// is nearer to the destination than this host is.
    pub open spec fn spec_bypass(self, cond: Condition) -> bool {
        &&& self.local_ping < self.proxy_ping(cond)
        &&& self.local_lost < self.proxy_loss(cond)
        &&& self.local_ping > self.remote_ping
    }

    /// A row for a destination first checked at `now`: nothing measured.
    pub fn new(now: u64) -> (r: PingResult)
        ensures
            r == (PingResult {
                last_time: now,
                local_lost: UNKNOWN_LOSS,
                local_ping: UNKNOWN_PING,
                remote_lost: UNKNOWN_LOSS,
                remote_ping: UNKNOWN_PING,
            }),
            !r.spec_is_complete(),
    {
        PingResult {
            last_time: now,
            local_lost: UNKNOWN_LOSS,
            local_ping: UNKNOWN_PING,
            remote_lost: UNKNOWN_LOSS,
            remote_ping: UNKNOWN_PING,
        }
    }

    /// Whether all four measurements are known.
    #[verifier::when_used_as_spec(spec_is_complete)]
    pub fn is_complete(&self) -> (r: bool)
        ensures
            r == self.spec_is_complete(),
    {
        self.local_lost != UNKNOWN_LOSS && self.local_ping != UNKNOWN_PING && self.remote_lost
            != UNKNOWN_LOSS && self.remote_ping != UNKNOWN_PING
    }

    /// Whether the destination is better reached directly, given the
    /// relay's baseline.
    pub fn bypass(&self, cond: &Condition) -> (b: bool)
        ensures
            b == self.spec_bypass(*cond),
    {
        let proxy_ping: u32 = cond.ping as u32 + self.remote_ping as u32;
        let kept_relay: i32 = 100 - cond.lost as i32;
        let kept_remote: i32 = 100 - self.remote_lost as i32;
        assert(-15500 <= kept_relay * kept_remote <= 24025) by (nonlinear_arith)
            requires
                -155 <= kept_relay <= 100,
                -155 <= kept_remote <= 100,
        ;
        let product: i32 = kept_relay * kept_remote;
        let kept: i32 = if product >= 0 {
            product / 100
        } else {
            -((99 - product) / 100)
        };
        assert(kept == product as int / 100);
        let proxy_loss: i32 = 100 - kept;
        (self.local_ping as u32) < proxy_ping && (self.local_lost as i32) < proxy_loss
            && self.local_ping > self.remote_ping
    }
}

/// One row of the profiler's table.
#[derive(Clone, Copy, Debug, PartialEq, Eq)]
pub struct Row {
    pub ip: IpAddress,
    pub result: PingResult,
}

/// A decision for the routing sink: reach `ip` directly, or through the
/// relay.
#[derive(Clone, Copy, Debug, PartialEq, Eq)]
pub struct Decision {
    pub ip: IpAddress,
    pub bypass: bool,
}

/// The outcome of one direct measurement.
#[derive(Clone, Copy, Debug, PartialEq, Eq)]
pub struct LocalResult {
    pub ip: IpAddress,
    pub ping: u16,
    pub lost: u8,
}

/// No destination has two rows.
pub open spec fn unique_ips(rows: Seq<Row>) -> bool {
    forall|i: int, j: int| 0 <= i < j < rows.len() ==> rows[i].ip != rows[j].ip
}

/// The index of the row of `ip`, if it has one.
pub open spec fn position(rows: Seq<Row>, ip: IpAddress) -> Option<int> {
    if exists|i: int| 0 <= i < rows.len() && rows[i].ip == ip {
        Some(choose|i: int| 0 <= i < rows.len() && rows[i].ip == ip)
    } else {
        None
    }
}

/// A measured loss as it is stored: below the value that stands for
/// "unknown".
pub open spec fn stored_loss(lost: u8) -> u8 {
    if lost >= UNKNOWN_LOSS {
        (UNKNOWN_LOSS - 1) as u8
    } else {
        lost
    }
}

/// A measured latency as it is stored: below the value that stands for
/// "unknown".
pub open spec fn stored_ping(ping: u16) -> u16 {
    if ping >= UNKNOWN_PING {
        (UNKNOWN_PING - 1) as u16
    } else {
        ping
    }
}

/// The table after `ip` was checked at `now`: its row carries the new time,
/// and is added with nothing measured if it was not there.
pub open spec fn touched(rows: Seq<Row>, ip: IpAddress, now: u64) -> Seq<Row> {
    match position(rows, ip) {
        Some(i) => rows.update(
            i,
            Row { ip, result: PingResult { last_time: now, ..rows[i].result } },
        ),
        None => rows.push(
            Row {
                ip,
                result: PingResult {
                    last_time: now,
                    local_lost: UNKNOWN_LOSS,
                    local_ping: UNKNOWN_PING,
                    remote_lost: UNKNOWN_LOSS,
                    remote_ping: UNKNOWN_PING,
                },
            },
        ),
    }
}

/// The table after a direct measurement of `ip` came in. A measurement of a
/// destination without a row is dropped.
pub open spec fn with_local(rows: Seq<Row>, ip: IpAddress, ping: u16, lost: u8) -> Seq<Row> {
    match position(rows, ip) {
        Some(i) => rows.update(
            i,
            Row {
                ip,
                result: PingResult {
                    local_lost: stored_loss(lost),
                    local_ping: stored_ping(ping),
                    ..rows[i].result
                },
            },
        ),
        None => rows,
    }
}

/// The table after the relay's measurement of `ip` came in. A measurement
/// of a destination without a row is dropped.
pub open spec fn with_remote(rows: Seq<Row>, ip: IpAddress, ping: u16, lost: u8) -> Seq<Row> {
    match position(rows, ip) {
        Some(i) => rows.update(
            i,
            Row {
                ip,
                result: PingResult {
                    remote_lost: stored_loss(lost),
                    remote_ping: stored_ping(ping),
                    ..rows[i].result
                },
            },
        ),
        None => rows,
    }
}

/// The table after the direct measurements `results` came in, in order.
pub open spec fn with_locals(rows: Seq<Row>, results: Seq<LocalResult>) -> Seq<Row>
    decreases results.len(),
{
    if results.len() == 0 {
        rows
    } else {
        let r = results.last();
        with_local(with_locals(rows, results.drop_last()), r.ip, r.ping, r.lost)
    }
}

/// Whether `now` lies more than `limit` seconds behind `then`.
pub open spec fn older_than(then: u64, now: u64, limit: u64) -> bool {
    now - then > limit
}

/// The decisions that the complete rows give rise to, in table order.
pub open spec fn decisions_of(rows: Seq<Row>, cond: Condition) -> Seq<Decision>
    decreases rows.len(),
{
    if rows.len() == 0 {
        Seq::empty()
    } else {
        let before = decisions_of(rows.drop_last(), cond);
        let row = rows.last();
        if row.result.spec_is_complete() {
            before.push(Decision { ip: row.ip, bypass: row.result.spec_bypass(cond) })
        } else {
            before
        }
    }
}

/// The destinations whose measurement is incomplete and was requested more
/// than [`STALE_SECS`] seconds before `now`, in table order.
pub open spec fn stale_of(rows: Seq<Row>, now: u64) -> Seq<IpAddress>
    decreases rows.len(),
{
    if rows.len() == 0 {
        Seq::empty()
    } else {
        let before = stale_of(rows.drop_last(), now);
        let row = rows.last();
        if !row.result.spec_is_complete() && older_than(row.result.last_time, now, STALE_SECS) {
            before.push(row.ip)
        } else {
            before
        }
    }
}

/// The requests for the destinations `ips` on the ping channel, one after
/// the other.
pub open spec fn requests_of(ips: Seq<IpAddress>) -> Seq<u8>
    decreases ips.len(),
{
    if ips.len() == 0 {
        Seq::empty()
    } else {
        requests_of(ips.drop_last()) + spec_ip(ips.last())
    }
}

/// What a run of bytes from the ping channel does to the table.
pub struct Absorbed {
    /// The table after every whole record was taken in.
    pub rows: Seq<Row>,
    /// The number of bytes that the whole records take.
    pub used: nat,
    /// Whether what follows the records may still become a record.
    pub valid: bool,
}

/// Takes in the ping records at the front of `b`, one after the other,
/// until the bytes run out or no record begins where the last one ended.
pub open spec fn absorb(rows: Seq<Row>, b: Seq<u8>) -> Absorbed
    decreases b.len(),
{
    match parse_ping_record(b) {
        Parsed::Continued => Absorbed { rows, used: 0, valid: true },
        Parsed::Invalid => Absorbed { rows, used: 0, valid: false },
        Parsed::Complete { value, used } => {
            if 0 < used <= b.len() {
                let more = absorb(
                    with_remote(rows, value.ip, value.ping, value.lost),
                    b.skip(used as int),
                );
                Absorbed { rows: more.rows, used: used + more.used, valid: more.valid }
            } else {
                Absorbed { rows, used: 0, valid: false }
            }
        },
    }
}

/// Taking in a run of bytes that begins with a whole record is taking in
/// that record, then the bytes behind it.
pub proof fn lemma_absorb_step(rows: Seq<Row>, b: Seq<u8>, record: PingRecord, used: nat)
    requires
        parse_ping_record(b) == (Parsed::Complete { value: record, used }),
    ensures
        0 < used <= b.len(),
        ({
            let more = absorb(
                with_remote(rows, record.ip, record.ping, record.lost),
                b.skip(used as int),
            );
            absorb(rows, b) == (Absorbed {
                rows: more.rows,
                used: used + more.used,
                valid: more.valid,
            })
        }),
{
}

/// Replacing a row by one for the same destination keeps the rows apart.
pub proof fn lemma_update_keeps_unique(rows: Seq<Row>, i: int, row: Row)
    requires
        unique_ips(rows),
        0 <= i < rows.len(),
        row.ip == rows[i].ip,
    ensures
        unique_ips(rows.update(i, row)),
        forall|ip: IpAddress| position(rows.update(i, row), ip) is Some == position(rows, ip)
            is Some,
{
    let after = rows.update(i, row);
    assert forall|ip: IpAddress| position(after, ip) is Some == position(rows, ip) is Some by {
        if position(rows, ip) is Some {
            let k = position(rows, ip)->0;
            assert(after[k].ip == ip);
        }
        if position(after, ip) is Some {
            let k = position(after, ip)->0;
            assert(rows[k].ip == ip);
        }
    }
}

/// Where no destination has two rows, the row of a destination is where
/// the destination is found.
pub proof fn lemma_position(rows: Seq<Row>, i: int)
    requires
        unique_ips(rows),
        0 <= i < rows.len(),
    ensures
        position(rows, rows[i].ip) == Some(i),
{
}

/// Taking in measurements keeps the rows apart, and neither adds nor
/// removes a destination.
pub proof fn lemma_with_local_unique(rows: Seq<Row>, ip: IpAddress, ping: u16, lost: u8)
    requires
        unique_ips(rows),
    ensures
        unique_ips(with_local(rows, ip, ping, lost)),
        unique_ips(with_remote(rows, ip, ping, lost)),
        with_local(rows, ip, ping, lost).len() == rows.len(),
        with_remote(rows, ip, ping, lost).len() == rows.len(),
{
    if position(rows, ip) is Some {
        let i = position(rows, ip)->0;
        lemma_update_keeps_unique(rows, i, with_local(rows, ip, ping, lost)[i]);
        lemma_update_keeps_unique(rows, i, with_remote(rows, ip, ping, lost)[i]);
    }
}

/// `d` is the decision that some complete row of the table gives rise to.
pub open spec fn decides(rows: Seq<Row>, cond: Condition, d: Decision) -> bool {
    exists|k: int|
        0 <= k < rows.len() && (#[trigger] rows[k]).result.spec_is_complete() && d == (Decision {
            ip: rows[k].ip,
            bypass: rows[k].result.spec_bypass(cond),
        })
}

/// In one pass over the table every destination gets at most one decision:
/// the decisions are those of the complete rows, one each.
pub proof fn lemma_decisions(rows: Seq<Row>, cond: Condition)
    requires
        unique_ips(rows),
    ensures
        decisions_of(rows, cond).len() <= rows.len(),
        forall|i: int, j: int|
            0 <= i < j < decisions_of(rows, cond).len() ==> decisions_of(rows, cond)[i].ip
                != decisions_of(rows, cond)[j].ip,
        forall|i: int|
            0 <= i < decisions_of(rows, cond).len() ==> decides(
                rows,
                cond,
                #[trigger] decisions_of(rows, cond)[i],
            ),
        forall|k: int|
            0 <= k < rows.len() && (#[trigger] rows[k]).result.spec_is_complete()
                ==> decisions_of(rows, cond).contains(
                Decision { ip: rows[k].ip, bypass: rows[k].result.spec_bypass(cond) },
            ),
    decreases rows.len(),
{
    if rows.len() > 0 {
        let front = rows.drop_last();
        let row = rows.last();
        let before = decisions_of(front, cond);
        let all = decisions_of(rows, cond);
        assert(unique_ips(front)) by {
            assert forall|i: int, j: int| 0 <= i < j < front.len() implies front[i].ip
                != front[j].ip by {
                assert(rows[i].ip != rows[j].ip);
            }
        }
        lemma_decisions(front, cond);
        assert forall|i: int| 0 <= i < all.len() implies decides(rows, cond, #[trigger] all[i]) by {
            if i < before.len() {
                assert(decides(front, cond, before[i]));
                let k = choose|k: int|
                    0 <= k < front.len() && (#[trigger] front[k]).result.spec_is_complete()
                        && before[i] == (Decision {
                        ip: front[k].ip,
                        bypass: front[k].result.spec_bypass(cond),
                    });
                assert(rows[k] == front[k]);
            } else {
                assert(rows[rows.len() - 1] == row);
            }
        }
        assert forall|i: int, j: int| 0 <= i < j < all.len() implies all[i].ip != all[j].ip by {
            if j == before.len() {
                assert(decides(front, cond, before[i]));
                let k = choose|k: int|
                    0 <= k < front.len() && (#[trigger] front[k]).result.spec_is_complete()
                        && before[i] == (Decision {
                        ip: front[k].ip,
                        bypass: front[k].result.spec_bypass(cond),
                    });
                assert(rows[k].ip != rows[rows.len() - 1].ip);
            }
        }
        assert forall|k: int|
            0 <= k < rows.len() && (#[trigger] rows[k]).result.spec_is_complete()
                implies all.contains(
            Decision { ip: rows[k].ip, bypass: rows[k].result.spec_bypass(cond) },
        ) by {
            let d = Decision { ip: rows[k].ip, bypass: rows[k].result.spec_bypass(cond) };
            if k < front.len() {
                assert(front[k].result.spec_is_complete());
                assert(before.contains(d));
                let i = choose|i: int| 0 <= i < before.len() && before[i] == d;
                assert(all[i] == d);
            } else {
                assert(all[all.len() - 1] == d);
            }
        }
    }
}

/// Whether a check of `ip` at `now` starts a measurement: the destination
/// has no row yet, or was last checked [`REFRESH_SECS`] seconds ago or
/// earlier.
pub open spec fn due(rows: Seq<Row>, ip: IpAddress, now: u64) -> bool {
    match position(rows, ip) {
        Some(i) => now - rows[i].result.last_time >= REFRESH_SECS,
        None => true,
    }
}

/// A destination that was just checked is not due again before
/// [`REFRESH_SECS`] seconds have passed, however often it is seen.
pub proof fn lemma_check_debounce(rows: Seq<Row>, ip: IpAddress, now: u64, later: u64)
    requires
        unique_ips(rows),
        later - now < REFRESH_SECS,
    ensures
        unique_ips(touched(rows, ip, now)),
        !due(touched(rows, ip, now), ip, later),
{
    let after = touched(rows, ip, now);
    match position(rows, ip) {
        Some(i) => {
            lemma_update_keeps_unique(rows, i, after[i]);
            assert(after[i].ip == ip);
            lemma_position(after, i);
        },
        None => {
            let i = rows.len() as int;
            assert(after[i].ip == ip);
            assert forall|a: int, b: int| 0 <= a < b < after.len() implies after[a].ip
                != after[b].ip by {
                if b == i {
                    assert(rows[a].ip != ip);
                }
            }
            lemma_position(after, i);
        },
    }
}

/// The profiler after a read from the ping channel, and whether the channel
/// is still good. Bytes that were read are taken in; after bytes that cannot
/// be records, after the end of the stream and after a failure the channel
/// is gone, and what was left of its last record is forgotten.
pub open spec fn spec_read(p: ProfilerView, outcome: ReadView) -> (bool, ProfilerView) {
    let gone = (false, ProfilerView { inbound: Seq::empty(), ..p });
    match outcome {
        ReadView::Data(data) => if data.len() == 0 {
            gone
        } else {
            let bytes = p.inbound + data;
            let taken = absorb(p.rows, bytes);
            if taken.valid {
                (
                    true,
                    ProfilerView { rows: taken.rows, inbound: bytes.skip(taken.used as int), ..p },
                )
            } else {
                (false, ProfilerView { rows: taken.rows, inbound: Seq::empty(), ..p })
            }
        },
        ReadView::WouldBlock => (true, p),
        ReadView::Failed => gone,
    }
}

/// What one reconciliation pass asks of the caller.
#[derive(Debug, PartialEq, Eq)]
pub struct UpdatePlan {
    /// The destinations that were requested from the relay once more.
    pub resent: Vec<IpAddress>,
    /// The decisions to hand to the routing sink.
    pub decisions: Vec<Decision>,
}

/// The profiler's table and the two buffers of its ping channel.
pub struct NetProfiler {
    enabled: bool,
    rows: Vec<Row>,
    send_buffer: BytesMut,
    recv_buffer: BytesMut,
}

/// What a [`NetProfiler`] holds.
pub struct ProfilerView {
    /// Whether the profiler measures at all.
    pub enabled: bool,
    /// One row for each destination checked so far, oldest first.
    pub rows: Seq<Row>,
    /// The bytes waiting to be written to the ping channel.
    pub outbound: Seq<u8>,
    /// The bytes read from the ping channel behind the last whole record.
    pub inbound: Seq<u8>,
}

impl View for NetProfiler {
    type V = ProfilerView;

    closed spec fn view(&self) -> ProfilerView {
        ProfilerView {
            enabled: self.enabled,
            rows: self.rows@,
            outbound: buffered(self.send_buffer),
            inbound: buffered(self.recv_buffer),
        }
    }
}

impl NetProfiler {
    /// No destination has two rows.
    pub open spec fn wf(&self) -> bool {
        unique_ips(self@.rows)
    }

    /// A profiler with an empty table. A disabled one never measures.
    pub fn new(enable: bool) -> (p: NetProfiler)
        ensures
            p.wf(),
            p@ == (ProfilerView {
                enabled: enable,
                rows: Seq::empty(),
                outbound: Seq::empty(),
                inbound: Seq::empty(),
            }),
    {
        NetProfiler {
            enabled: enable,
            rows: Vec::new(),
            send_buffer: buf_new(),
            recv_buffer: buf_new(),
        }
    }

    /// Whether the profiler measures at all.
    pub fn is_enabled(&self) -> (r: bool)
        ensures
            r == self@.enabled,
    {
        self.enabled
    }

    /// The relay's baseline that is assumed until the first measurement of
    /// the relay comes in.
    pub fn baseline(&self) -> (cond: Condition)
        ensures
            cond.ping == 200,
            cond.lost == if self@.enabled { 3u8 } else { 5u8 },
    {
        Condition { ping: 200, lost: if self.enabled { 3 } else { 5 } }
    }

    /// A fresh connection is to become the ping channel. What was left of
    /// the last record of an earlier channel is forgotten; the answer is the
    /// request that opens the channel, for the caller to write first. The
    /// table and the requests not yet written stay.
    pub fn initialize(&mut self) -> (request: BytesMut)
        requires
            old(self).wf(),
        ensures
            final(self).wf(),
            final(self)@ == (ProfilerView { inbound: Seq::empty(), ..old(self)@ }),
            buffered(request) == spec_request(Command::Ping, AddressView::wildcard()),
    {
        self.reset();
        let mut request = buf_new();
        let addr = Address::wildcard();
        TrojanRequest::generate(&mut request, Command::Ping, &addr);
        request
    }

    /// Queues a request for the relay's measurement of `ip`.
    fn send_remote_ip(&mut self, ip: &IpAddress)
        ensures
            final(self)@ == (ProfilerView {
                outbound: old(self)@.outbound + spec_ip(*ip),
                ..old(self)@
            }),
    {
        put_ip(&mut self.send_buffer, ip);
    }

    /// The number of destinations in the table.
    pub fn len(&self) -> (n: usize)
        ensures
            n == self@.rows.len(),
    {
        self.rows.len()
    }

    /// The index of the row of `ip`, if it has one.
    fn find(&self, ip: &IpAddress) -> (r: Option<usize>)
        requires
            self.wf(),
        ensures
            match r {
                Some(i) => position(self@.rows, *ip) == Some(i as int) && i < self@.rows.len(),
                None => position(self@.rows, *ip) is None,
            },
    {
        let mut i: usize = 0;
        while i < self.rows.len()
            invariant
                self.wf(),
                i <= self.rows@.len(),
                forall|j: int| 0 <= j < i ==> self.rows@[j].ip != *ip,
            decreases self.rows@.len() - i,
        {
            if self.rows[i].ip.same(ip) {
                proof {
                    lemma_position(self@.rows, i as int);
                }
                return Some(i);
            }
            i += 1;
        }
        None
    }

    /// What is known of `ip`, if it has a row.
    pub fn get(&self, ip: &IpAddress) -> (r: Option<PingResult>)
        requires
            self.wf(),
        ensures
            match position(self@.rows, *ip) {
                Some(i) => r == Some(self@.rows[i].result),
                None => r is None,
            },
    {
        match self.find(ip) {
            Some(i) => Some(self.rows[i].result),
            None => None,
        }
    }

    /// Notes that traffic to `ip` was seen at `now`. Where the destination
    /// is due, its row is stamped with `now`, a request for it is queued for
    /// the ping channel, and the answer is `true`: the caller starts the
    /// direct measurement. Otherwise nothing changes.
    pub fn check(&mut self, ip: IpAddress, now: u64) -> (requested: bool)
        requires
            old(self).wf(),
        ensures
            final(self).wf(),
            requested == (old(self)@.enabled && due(old(self)@.rows, ip, now)),
            requested ==> final(self)@ == (ProfilerView {
                rows: touched(old(self)@.rows, ip, now),
                outbound: old(self)@.outbound + spec_ip(ip),
                ..old(self)@
            }),
            !requested ==> final(self)@ == old(self)@,
    {
        if !self.enabled {
            return false;
        }
        let found = self.find(&ip);
        match found {
            Some(i) => {
                let row = self.rows[i];
                if now < row.result.last_time || now - row.result.last_time < REFRESH_SECS {
                    return false;
                }
                let stamped = Row { ip, result: PingResult { last_time: now, ..row.result } };
                proof {
                    lemma_update_keeps_unique(self@.rows, i as int, stamped);
                }
                self.rows[i] = stamped;
            },
            None => {
                let fresh = Row { ip, result: PingResult::new(now) };
                proof {
                    let after = self@.rows.push(fresh);
                    assert forall|a: int, b: int| 0 <= a < b < after.len() implies after[a].ip
                        != after[b].ip by {
                        if b == self@.rows.len() {
                            assert(self@.rows[a].ip != ip);
                        }
                    }
                }
                self.rows.push(fresh);
            },
        }
        self.send_remote_ip(&ip);
        true
    }

    /// Takes the direct measurement `result` into the table.
    fn record_local(&mut self, result: &LocalResult)
        requires
            old(self).wf(),
        ensures
            final(self).wf(),
            final(self)@ == (ProfilerView {
                rows: with_local(old(self)@.rows, result.ip, result.ping, result.lost),
                ..old(self)@
            }),
    {
        proof {
            lemma_with_local_unique(self@.rows, result.ip, result.ping, result.lost);
        }
        match self.find(&result.ip) {
            Some(i) => {
                let row = self.rows[i];
                let lost = if result.lost >= UNKNOWN_LOSS {
                    UNKNOWN_LOSS - 1
                } else {
                    result.lost
                };
                let ping = if result.ping >= UNKNOWN_PING {
                    UNKNOWN_PING - 1
                } else {
                    result.ping
                };
                self.rows[i] = Row {
                    ip: result.ip,
                    result: PingResult { local_lost: lost, local_ping: ping, ..row.result },
                };
            },
            None => {},
        }
    }

    /// Takes the relay's measurement of `ip` into the table.
    fn record_remote(&mut self, ip: &IpAddress, ping: u16, lost: u8)
        requires
            old(self).wf(),
        ensures
            final(self).wf(),
            final(self)@ == (ProfilerView {
                rows: with_remote(old(self)@.rows, *ip, ping, lost),
                ..old(self)@
            }),
    {
        proof {
            lemma_with_local_unique(self@.rows, *ip, ping, lost);
        }
        match self.find(ip) {
            Some(i) => {
                let row = self.rows[i];
                let lost = if lost >= UNKNOWN_LOSS {
                    UNKNOWN_LOSS - 1
                } else {
                    lost
                };
                let ping = if ping >= UNKNOWN_PING {
                    UNKNOWN_PING - 1
                } else {
                    ping
                };
                self.rows[i] = Row {
                    ip: *ip,
                    result: PingResult { remote_lost: lost, remote_ping: ping, ..row.result },
                };
            },
            None => {},
        }
    }

    /// One reconciliation pass. The direct measurements `responses` are
    /// taken into the table. Then, given the relay's baseline, every
    /// complete row yields its decision, and every incomplete row that has
    /// waited for more than [`STALE_SECS`] seconds is requested from the
    /// relay once more. Without a baseline the pass ends after the
    /// measurements; a disabled profiler does nothing at all.
    pub fn update(&mut self, responses: &[LocalResult], cond: Option<Condition>, now: u64) -> (plan:
        UpdatePlan)
        requires
            old(self).wf(),
        ensures
            final(self).wf(),
            final(self)@.enabled == old(self)@.enabled,
            final(self)@.inbound == old(self)@.inbound,
            !old(self)@.enabled ==> final(self)@ == old(self)@,
            old(self)@.enabled ==> final(self)@.rows == with_locals(old(self)@.rows, responses@),
            old(self)@.enabled && cond is Some ==> {
                &&& plan.decisions@ == decisions_of(final(self)@.rows, cond->0)
                &&& plan.resent@ == stale_of(final(self)@.rows, now)
                &&& final(self)@.outbound == old(self)@.outbound + requests_of(plan.resent@)
            },
            !(old(self)@.enabled && cond is Some) ==> {
                &&& plan.decisions@.len() == 0
                &&& plan.resent@.len() == 0
                &&& final(self)@.outbound == old(self)@.outbound
            },
            forall|i: int, j: int|
                0 <= i < j < plan.decisions@.len() ==> plan.decisions@[i].ip
                    != plan.decisions@[j].ip,
    {
        let mut plan = UpdatePlan { resent: Vec::new(), decisions: Vec::new() };
        if !self.enabled {
            return plan;
        }
        let mut k: usize = 0;
        while k < responses.len()
            invariant
                k <= responses@.len(),
                self.wf(),
                self@ == (ProfilerView {
                    rows: with_locals(old(self)@.rows, responses@.take(k as int)),
                    ..old(self)@
                }),
            decreases responses@.len() - k,
        {
            self.record_local(&responses[k]);
            proof {
                assert(responses@.take(k + 1).drop_last() =~= responses@.take(k as int));
            }
            k += 1;
        }
        assert(responses@.take(k as int) =~= responses@);
        let cond = match cond {
            Some(c) => c,
            None => {
                return plan;
            },
        };
        let ghost before = self@;
        let mut i: usize = 0;
        while i < self.rows.len()
            invariant
                i <= self.rows@.len(),
                self.wf(),
                self@ == (ProfilerView {
                    outbound: before.outbound + requests_of(plan.resent@),
                    ..before
                }),
                plan.decisions@ == decisions_of(self@.rows.take(i as int), cond),
                plan.resent@ == stale_of(self@.rows.take(i as int), now),
            decreases self.rows@.len() - i,
        {
            let row = self.rows[i];
            proof {
                assert(self@.rows.take(i + 1).drop_last() =~= self@.rows.take(i as int));
            }
            if row.result.is_complete() {
                let bypass = row.result.bypass(&cond);
                plan.decisions.push(Decision { ip: row.ip, bypass });
            } else if now > row.result.last_time && now - row.result.last_time > STALE_SECS {
                self.send_remote_ip(&row.ip);
                proof {
                    let ips = plan.resent@.push(row.ip);
                    assert(ips.drop_last() =~= plan.resent@);
                    assert(before.outbound + requests_of(plan.resent@) + spec_ip(row.ip)
                        =~= before.outbound + requests_of(ips));
                }
                plan.resent.push(row.ip);
            }
            i += 1;
        }
        proof {
            assert(self@.rows.take(i as int) =~= self@.rows);
            lemma_decisions(self@.rows, cond);
        }
        plan
    }

    /// Takes in bytes read from the ping channel: they join what was left
    /// over before, and the whole records among them are decoded. The
    /// answer is `false` when the bytes cannot be a run of records: the
    /// channel is then to be closed and opened again.
    pub fn on_remote_data(&mut self, data: &[u8]) -> (valid: bool)
        requires
            old(self).wf(),
        ensures
            final(self).wf(),
            ({
                let bytes = old(self)@.inbound + data@;
                let taken = absorb(old(self)@.rows, bytes);
                &&& valid == taken.valid
                &&& final(self)@ == (ProfilerView {
                    rows: taken.rows,
                    inbound: bytes.skip(taken.used as int),
                    ..old(self)@
                })
            }),
    {
        buf_extend_from_slice(&mut self.recv_buffer, data);
        self.decode()
    }

    /// Decodes the whole records among the bytes read from the ping
    /// channel. Every record updates the relay's side of its destination's
    /// row; what is left of a record stays buffered. The answer is `false`
    /// when no record begins where the last one ended.
    pub fn decode(&mut self) -> (valid: bool)
        requires
            old(self).wf(),
        ensures
            final(self).wf(),
            ({
                let bytes = old(self)@.inbound;
                let taken = absorb(old(self)@.rows, bytes);
                &&& valid == taken.valid
                &&& final(self)@ == (ProfilerView {
                    rows: taken.rows,
                    inbound: bytes.skip(taken.used as int),
                    ..old(self)@
                })
            }),
    {
        let ghost bytes = old(self)@.inbound;
        let ghost start_rows = old(self)@.rows;
        let ghost used: nat = 0;
        proof {
            assert(bytes.skip(0) =~= bytes);
        }
        loop
            invariant
                self.wf(),
                bytes == old(self)@.inbound,
                start_rows == old(self)@.rows,
                used <= bytes.len(),
                self@ == (ProfilerView {
                    rows: self@.rows,
                    inbound: bytes.skip(used as int),
                    ..old(self)@
                }),
                absorb(start_rows, bytes) == (Absorbed {
                    rows: absorb(self@.rows, self@.inbound).rows,
                    used: used + absorb(self@.rows, self@.inbound).used,
                    valid: absorb(self@.rows, self@.inbound).valid,
                }),
            decreases bytes.len() - used,
        {
            let ghost current = self@.inbound;
            let ghost rows = self@.rows;
            let view = buf_as_slice(&self.recv_buffer);
            let n = view.len();
            if n == 0 {
                return true;
            }
            let kind = view[0];
            let ip = if kind == IPV4 {
                if n < 8 {
                    return true;
                }
                let ip = IpAddress::read_v4(view, 1);
                buf_advance(&mut self.recv_buffer, 5);
                ip
            } else if kind == IPV6 {
                if n < 20 {
                    return true;
                }
                let ip = IpAddress::read_v6(view, 1);
                buf_advance(&mut self.recv_buffer, 17);
                ip
            } else {
                return false;
            };
            let ping = buf_get_u16(&mut self.recv_buffer);
            let lost = buf_get_u8(&mut self.recv_buffer);
            proof {
                let len: nat = if kind == IPV4 { 8 } else { 20 };
                let record = PingRecord { ip, ping, lost };
                assert(parse_ping_record(current) == (Parsed::Complete {
                    value: record,
                    used: len,
                }));
                lemma_absorb_step(rows, current, record, len);
                assert(self@.inbound =~= current.skip(len as int));
                assert(current.skip(len as int) =~= bytes.skip((used + len) as int));
                used = used + len;
            }
            self.record_remote(&ip, ping, lost);
        }
    }

    /// A read from the ping channel came to `outcome`. Bytes that were read
    /// are taken in as by [`NetProfiler::on_remote_data`]. The answer is
    /// whether the channel is still good. It is not after bytes that cannot
    /// be records, after the end of the stream and after a failure: what
    /// was left of its last record is then forgotten, and the caller closes
    /// the channel and opens it again.
    pub fn on_remote_read(&mut self, outcome: ReadOutcome<'_>) -> (alive: bool)
        requires
            old(self).wf(),
        ensures
            final(self).wf(),
            (alive, final(self)@) == spec_read(old(self)@, outcome@),
    {
        let alive = match outcome {
            ReadOutcome::Data(data) => data.len() > 0 && self.on_remote_data(data),
            ReadOutcome::WouldBlock => true,
            ReadOutcome::Failed => false,
        };
        if !alive {
            self.reset();
        }
        alive
    }

    /// The ping channel is ready: a read came to `read`, if one was made,
    /// and the channel can be written to or not. The answer tells whether
    /// the channel is still good, and holds the bytes to write now: none on
    /// a channel that is gone or cannot be written to, where they stay
    /// queued.
    pub fn ready(&mut self, read: Option<ReadOutcome<'_>>, writable: bool) -> (r: (
        bool,
        BytesMut,
    ))
        requires
            old(self).wf(),
        ensures
            final(self).wf(),
            ({
                let after = match read {
                    Some(outcome) => spec_read(old(self)@, outcome@),
                    None => (true, old(self)@),
                };
                let write = after.0 && writable;
                &&& r.0 == after.0
                &&& buffered(r.1) == if write {
                    after.1.outbound
                } else {
                    Seq::empty()
                }
                &&& final(self)@ == if write {
                    ProfilerView { outbound: Seq::empty(), ..after.1 }
                } else {
                    after.1
                }
            }),
    {
        let alive = match read {
            Some(outcome) => self.on_remote_read(outcome),
            None => true,
        };
        if alive && writable {
            (alive, self.take_outbound())
        } else {
            (alive, buf_new())
        }
    }

    /// Hands out the bytes waiting to be written to the ping channel.
    pub fn take_outbound(&mut self) -> (bytes: BytesMut)
        requires
            old(self).wf(),
        ensures
            final(self).wf(),
            buffered(bytes) == old(self)@.outbound,
            final(self)@ == (ProfilerView { outbound: Seq::empty(), ..old(self)@ }),
    {
        buf_split(&mut self.send_buffer)
    }

    /// Forgets what was read from a ping channel that is gone: the next
    /// channel starts with a fresh record. The table and the requests not
    /// yet written stay.
    pub fn reset(&mut self)
        requires
            old(self).wf(),
        ensures
            final(self).wf(),
            final(self)@ == (ProfilerView { inbound: Seq::empty(), ..old(self)@ }),
    {
        buf_clear(&mut self.recv_buffer);
    }
}

} // verus!
