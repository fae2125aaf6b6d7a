//! The kinds of failure that the engine tells apart, and what each of them
//! brings about.

use vstd::prelude::*;

verus! {

/// A kind of failure.
#[derive(Clone, Copy, Debug, PartialEq, Eq)]
pub enum TrojanError {
    /// The TUN device or a socket failed.
    Io,
    /// The TLS handshake failed, or the relay sent an alert.
    Tls,
    /// A request, a record or a packet was malformed.
    Protocol,
    /// A lock on shared state was poisoned.
    LockPoisoned,
    /// The mobile bridge was used before it was initialised.
    MissingContext,
    /// The configuration cannot be used.
    ConfigInvalid,
    /// The relay cannot be reached.
    Unreachable,
}

/// Where a failure was met.
#[derive(Clone, Copy, Debug, PartialEq, Eq)]
pub enum Origin {
    /// On the worker of one flow.
    Flow,
    /// On the ping channel of the profiler.
    PingChannel,
    /// On the TUN device.
    Tun,
    /// While the engine was starting.
    Startup,
    /// In state that the whole engine shares.
    Shared,
}

/// What the engine does about a failure.
#[derive(Clone, Copy, Debug, PartialEq, Eq)]
pub enum Reaction {
    /// The flow is closed; nothing else is touched.
    CloseFlow,
    /// The ping channel is torn down and opened again.
    ReopenPingChannel,
    /// The host is told of the error; new flows are reset until the relay
    /// can be reached again.
    ReportError,
    /// The host is told that the engine stopped, and the engine leaves its
    /// loop.
    Stop,
}

/// What the engine does about a failure of the kind `error` met at `origin`.
pub open spec fn spec_reaction(error: TrojanError, origin: Origin) -> Reaction {
    match error {
        TrojanError::LockPoisoned => Reaction::Stop,
        TrojanError::Unreachable => Reaction::ReportError,
        _ => match origin {
            Origin::Flow => Reaction::CloseFlow,
            Origin::PingChannel => Reaction::ReopenPingChannel,
            Origin::Tun => Reaction::Stop,
            Origin::Startup => Reaction::Stop,
            Origin::Shared => Reaction::Stop,
        },
    }
}

/// What the engine does about a failure of the kind `error` met at `origin`.
pub fn reaction(error: TrojanError, origin: Origin) -> (r: Reaction)
    ensures
        r == spec_reaction(error, origin),
{
    match error {
        TrojanError::LockPoisoned => Reaction::Stop,
        TrojanError::Unreachable => Reaction::ReportError,
        _ => match origin {
            Origin::Flow => Reaction::CloseFlow,
            Origin::PingChannel => Reaction::ReopenPingChannel,
            Origin::Tun => Reaction::Stop,
            Origin::Startup => Reaction::Stop,
            Origin::Shared => Reaction::Stop,
        },
    }
}

} // verus!
