//! One direct measurement of a path: a hundred echo requests a second
//! apart, the running average of the replies' latency and the count of the
//! requests that went unanswered.

use crate::profiler::{Condition, UNKNOWN_PING};
use vstd::prelude::*;

verus! {

/// The number of echo requests of one measurement.
pub const PROBE_COUNT: u32 = 100;

/// The time between two echo requests of one measurement, in milliseconds.
pub const PROBE_INTERVAL_MS: u64 = 1000;

/// The time an echo reply is waited for, in milliseconds.
pub const PROBE_TIMEOUT_MS: u64 = 999;

/// The tally of one measurement.
#[derive(Clone, Copy, Debug, PartialEq, Eq)]
pub struct ProbeStats {
    sent: u32,
    lost: u32,
    average: u64,
}

/// What a [`ProbeStats`] holds.
pub struct ProbeView {
    /// The number of echo requests accounted for.
    pub sent: nat,
    /// The number of those that went unanswered.
    pub lost: nat,
    /// The running average of the latencies, in milliseconds.
    pub average: nat,
}

/// The running average after the request with the number `index`, counted
/// from zero, was answered after `cost` milliseconds.
pub open spec fn running_average(average: nat, index: nat, cost: nat) -> nat {
    (average * index + cost) / (index + 1)
}

impl ProbeView {
    /// The tally after one more request, answered after `reply`
    /// milliseconds or not at all. A full tally takes no more.
    pub open spec fn step(self, reply: Option<u64>) -> ProbeView {
        if self.sent >= PROBE_COUNT {
            self
        } else {
            match reply {
                Some(cost) => ProbeView {
                    sent: self.sent + 1,
                    lost: self.lost,
                    average: running_average(self.average, self.sent, cost as nat),
                },
                None => ProbeView {
                    sent: self.sent + 1,
                    lost: self.lost + 1,
                    average: self.average,
                },
            }
        }
    }

    /// The measured latency as it is reported: the running average, kept
    /// below the value that stands for "unknown".
    pub open spec fn ping(self) -> u16 {
        if self.average >= UNKNOWN_PING {
            (UNKNOWN_PING - 1) as u16
        } else {
            self.average as u16
        }
    }
}

/// The running average never exceeds the greatest latency seen.
pub proof fn lemma_average_bounded(average: nat, index: nat, cost: nat, bound: nat)
    requires
        average <= bound,
        cost <= bound,
    ensures
        running_average(average, index, cost) <= bound,
{
    assert(average * index + cost <= bound * (index + 1)) by (nonlinear_arith)
        requires
            average <= bound,
            cost <= bound,
    ;
    assert((average * index + cost) / (index + 1) <= bound) by (nonlinear_arith)
        requires
            average * index + cost <= bound * (index + 1),
    ;
}

impl View for ProbeStats {
    type V = ProbeView;

    closed spec fn view(&self) -> ProbeView {
        ProbeView { sent: self.sent as nat, lost: self.lost as nat, average: self.average as nat }
    }
}

impl ProbeStats {
    #[verifier::type_invariant]
    spec fn inv(&self) -> bool {
        self.lost <= self.sent <= PROBE_COUNT
    }

    /// The tally before the first request.
    pub fn new() -> (stats: ProbeStats)
        ensures
            stats@ == (ProbeView { sent: 0, lost: 0, average: 0 }),
    {
        ProbeStats { sent: 0, lost: 0, average: 0 }
    }

    /// Accounts for one more echo request, answered after `reply`
    /// milliseconds or not at all.
    pub fn record(&mut self, reply: Option<u64>)
        ensures
            final(self)@ == old(self)@.step(reply),
    {
        proof {
            use_type_invariant(&*self);
        }
        if self.sent >= PROBE_COUNT {
            return;
        }
        match reply {
            Some(cost) => {
                let bound: u64 = if self.average >= cost {
                    self.average
                } else {
                    cost
                };
                proof {
                    lemma_average_bounded(
                        self.average as nat,
                        self.sent as nat,
                        cost as nat,
                        bound as nat,
                    );
                    assert(self.average * self.sent <= u64::MAX * 100) by (nonlinear_arith)
                        requires
                            self.average <= u64::MAX,
                            self.sent <= 100,
                    ;
                }
                let total: u128 = (self.average as u128) * (self.sent as u128) + (cost as u128);
                let average = (total / (self.sent as u128 + 1)) as u64;
                *self = ProbeStats { sent: self.sent + 1, lost: self.lost, average };
            },
            None => {
                *self = ProbeStats {
                    sent: self.sent + 1,
                    lost: self.lost + 1,
                    average: self.average,
                };
            },
        }
    }

    /// Whether all requests of the measurement are accounted for.
    pub fn is_done(&self) -> (done: bool)
        ensures
            done == (self@.sent >= PROBE_COUNT),
    {
        self.sent >= PROBE_COUNT
    }

    /// The measured latency in milliseconds, as it is reported.
    pub fn ping(&self) -> (ping: u16)
        ensures
            ping == self@.ping(),
            ping != UNKNOWN_PING,
    {
        if self.average >= UNKNOWN_PING as u64 {
            UNKNOWN_PING - 1
        } else {
            self.average as u16
        }
    }

    /// The number of requests that went unanswered.
    pub fn lost(&self) -> (lost: u8)
        ensures
            lost == self@.lost,
            lost <= PROBE_COUNT,
    {
        proof {
            use_type_invariant(self);
        }
        self.lost as u8
    }

    /// What the measurement says of the relay, where the relay is what was
    /// measured.
    pub fn condition(&self) -> (cond: Condition)
        ensures
            cond == (Condition { ping: self@.ping(), lost: self@.lost as u8 }),
    {
        Condition { ping: self.ping(), lost: self.lost() }
    }
}

/// How one measurement is to be carried out.
#[derive(Clone, Copy, Debug, PartialEq, Eq)]
pub struct ProbePlan {
    /// The identifier that the echo requests carry.
    pub id: u16,
    /// The number of echo requests.
    pub count: u32,
    /// The time between two requests, in milliseconds.
    pub interval_ms: u64,
    /// The time a reply is waited for, in milliseconds.
    pub timeout_ms: u64,
}

impl ProbePlan {
    /// The plan of every measurement, but for the identifier.
    pub open spec fn standard(self) -> bool {
        self.count == PROBE_COUNT && self.interval_ms == PROBE_INTERVAL_MS && self.timeout_ms
            == PROBE_TIMEOUT_MS
    }
}

/// The identifier of the direct measurement that follows the one with the
/// identifier `id`: the next number, starting over after the last.
pub fn next_probe_id(id: u16) -> (next: u16)
    ensures
        next == (id + 1) % 65536,
{
    if id == u16::MAX {
        0
    } else {
        id + 1
    }
}

/// The plan for the measurement of a destination, which carries the
/// identifier `id`.
pub fn destination_probe(id: u16) -> (plan: ProbePlan)
    ensures
        plan.standard(),
        plan.id == id,
{
    ProbePlan {
        id,
        count: PROBE_COUNT,
        interval_ms: PROBE_INTERVAL_MS,
        timeout_ms: PROBE_TIMEOUT_MS,
    }
}

/// What to do about a destination that the profiler asked to measure. A
/// destination that the routing sink holds already is not measured, and
/// uses up no identifier; any other is measured under the identifier `id`,
/// and the next measurement gets the next identifier.
pub fn request_probe(id: u16, in_sink: bool) -> (r: (Option<ProbePlan>, u16))
    ensures
        in_sink ==> r.0 is None && r.1 == id,
        !in_sink ==> r.0 is Some && r.0->0.standard() && r.0->0.id == id && r.1 == (id + 1)
            % 65536,
{
    if in_sink {
        (None, id)
    } else {
        (Some(destination_probe(id)), next_probe_id(id))
    }
}

/// `rand::random::<u16>`: a number drawn by the thread's generator. Nothing
/// is known of it but its type.
#[verifier::external_body]
fn random_u16() -> u16 {
    rand::random::<u16>()
}

/// The plan for a measurement of the relay itself. Its identifier is drawn
/// at random, so that the replies to two processes are not mixed up.
pub fn relay_probe() -> (plan: ProbePlan)
    ensures
        plan.standard(),
{
    destination_probe(random_u16())
}

} // verus!
