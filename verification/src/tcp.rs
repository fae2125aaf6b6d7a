//! The worker of one TCP flow: a tunnel connection is acquired, the request
//! is written, and then bytes are copied both ways until both sides have
//! finished.
//!
//! The worker owns no socket. Its caller reports what the two sockets did
//! and asks the worker what to do next.

use crate::addr::{Address, AddressView, Endpoint};
use crate::buffer::{buf_as_slice, buf_new};
use crate::proto::{spec_request, Command, TrojanRequest};
use vstd::prelude::*;
use vstd::slice::*;

verus! {

/// One direction of a flow: bytes read from one socket wait here until the
/// other socket has taken them.
pub struct CopyHalf {
    pending: Vec<u8>,
    limit: usize,
    eof: bool,
    shut: bool,
    read: Ghost<Seq<u8>>,
    written: Ghost<Seq<u8>>,
}

/// What a [`CopyHalf`] holds.
pub struct HalfView {
    /// Every byte read from the source so far.
    pub read: Seq<u8>,
    /// Every byte that the sink has taken so far.
    pub written: Seq<u8>,
    /// The bytes read and not yet taken.
    pub pending: Seq<u8>,
    /// The most bytes that are read at once.
    pub limit: usize,
    /// Whether the source has ended.
    pub eof: bool,
    /// Whether the end was passed on to the sink.
    pub shut: bool,
}

impl HalfView {
    /// A direction that has read nothing yet.
    pub open spec fn fresh(limit: usize) -> HalfView {
        HalfView {
            read: Seq::empty(),
            written: Seq::empty(),
            pending: Seq::empty(),
            limit,
            eof: false,
            shut: false,
        }
    }

    /// What the sink has taken, followed by what waits, is what was read:
    /// nothing is lost, added or reordered. Nothing is read past the end,
    /// and the end is passed on only when nothing waits.
    pub open spec fn wf(self) -> bool {
        &&& self.read =~= self.written + self.pending
        &&& self.shut ==> self.eof && self.pending.len() == 0
    }

    /// The number of bytes to read from the source now: none while bytes
    /// wait or after the end.
    pub open spec fn wanted(self) -> usize {
        if self.eof || self.pending.len() > 0 {
            0
        } else {
            self.limit
        }
    }

    /// The direction after `data` was read from the source. Nothing read
    /// means that the source has ended. What is read while nothing is
    /// wanted is refused.
    pub open spec fn after_read(self, data: Seq<u8>) -> HalfView {
        if self.eof || self.pending.len() > 0 {
            self
        } else if data.len() == 0 {
            HalfView { eof: true, ..self }
        } else {
            HalfView { read: self.read + data, pending: data, ..self }
        }
    }

    /// The direction after the sink took `n` of the waiting bytes.
    pub open spec fn after_write(self, n: usize) -> HalfView {
        let taken = if n <= self.pending.len() {
            n as int
        } else {
            self.pending.len() as int
        };
        HalfView {
            written: self.written + self.pending.take(taken),
            pending: self.pending.skip(taken),
            ..self
        }
    }
}

impl View for CopyHalf {
    type V = HalfView;

    closed spec fn view(&self) -> HalfView {
        HalfView {
            read: self.read@,
            written: self.written@,
            pending: self.pending@,
            limit: self.limit,
            eof: self.eof,
            shut: self.shut,
        }
    }
}

impl CopyHalf {
    /// A direction that reads at most `limit` bytes at once.
    pub fn new(limit: usize) -> (half: CopyHalf)
        ensures
            half@.wf(),
            half@ == HalfView::fresh(limit),
    {
        CopyHalf {
            pending: Vec::new(),
            limit,
            eof: false,
            shut: false,
            read: Ghost(Seq::empty()),
            written: Ghost(Seq::empty()),
        }
    }

    /// The number of bytes to read from the source now.
    pub fn wanted(&self) -> (n: usize)
        ensures
            n == self@.wanted(),
    {
        if self.eof || self.pending.len() > 0 {
            0
        } else {
            self.limit
        }
    }

    /// The bytes that wait for the sink.
    pub fn pending(&self) -> (bytes: &[u8])
        ensures
            bytes@ == self@.pending,
    {
        self.pending.as_slice()
    }

    /// Takes what was read from the source. The answer is whether it was
    /// accepted: it is refused while nothing is wanted.
    pub fn on_read(&mut self, data: &[u8]) -> (accepted: bool)
        requires
            old(self)@.wf(),
        ensures
            final(self)@.wf(),
            accepted == (old(self)@.wanted() > 0 || (!old(self)@.eof && old(self)@.pending.len()
                == 0)),
            final(self)@ == old(self)@.after_read(data@),
    {
        if self.eof || self.pending.len() > 0 {
            return false;
        }
        if data.len() == 0 {
            self.eof = true;
            return true;
        }
        self.pending.extend_from_slice(data);
        self.read = Ghost(self.read@ + data@);
        assert(self.pending@ =~= data@);
        true
    }

    /// The sink took `n` of the waiting bytes.
    pub fn on_written(&mut self, n: usize)
        requires
            old(self)@.wf(),
        ensures
            final(self)@.wf(),
            final(self)@ == old(self)@.after_write(n),
    {
        let len = self.pending.len();
        let taken = if n <= len {
            n
        } else {
            len
        };
        let rest = self.pending.split_off(taken);
        proof {
            let before = old(self)@;
            assert(before.pending =~= before.pending.take(taken as int) + before.pending.skip(
                taken as int,
            ));
        }
        self.written = Ghost(self.written@ + self.pending@);
        self.pending = rest;
    }

    /// Whether the end of the source is to be passed on to the sink now:
    /// the source has ended and nothing waits.
    pub fn wants_shutdown(&self) -> (r: bool)
        ensures
            r == (self@.eof && self@.pending.len() == 0 && !self@.shut),
    {
        self.eof && self.pending.len() == 0 && !self.shut
    }

    /// The end was passed on to the sink.
    pub fn on_shutdown(&mut self)
        requires
            old(self)@.wf(),
        ensures
            final(self)@.wf(),
            final(self)@ == if old(self)@.eof && old(self)@.pending.len() == 0 {
                HalfView { shut: true, ..old(self)@ }
            } else {
                old(self)@
            },
    {
        if self.eof && self.pending.len() == 0 {
            self.shut = true;
        }
    }

    /// Whether the direction has finished. Then every byte read was
    /// written, in the order in which it was read.
    pub fn is_done(&self) -> (done: bool)
        requires
            self@.wf(),
        ensures
            done == self@.shut,
            done ==> self@.read == self@.written,
    {
        self.shut
    }
}

/// Where a TCP flow stands.
#[derive(Clone, Copy, Debug, PartialEq, Eq)]
pub enum TcpState {
    /// The IP stack accepted the flow; a tunnel connection is asked for.
    Accepted,
    /// The tunnel connection is there; its handshake is awaited.
    ConnectingTls,
    /// The request is being written.
    PreambleSent,
    /// Bytes are copied both ways.
    Streaming,
    /// The local side has finished sending.
    HalfClosedLocal,
    /// The relay has finished sending.
    HalfClosedRemote,
    Closed,
}

/// What the caller does next with the sockets of a TCP flow.
#[derive(Clone, Copy, Debug, PartialEq, Eq)]
pub enum TcpAction {
    /// Nothing: wait for the next event.
    Wait,
    /// Write the request that is pending.
    WritePreamble,
    /// Copy: read and write as the two directions ask.
    Copy,
    /// Reset the local socket and let go of the flow.
    Reset,
    /// Close both sockets and let go of the flow.
    Close,
}

/// One TCP flow.
pub struct TcpFlow {
    stage: TcpState,
    peer: Endpoint,
    preamble: Vec<u8>,
    up: CopyHalf,
    down: CopyHalf,
}

/// What a [`TcpFlow`] holds.
pub struct TcpView {
    pub state: TcpState,
    /// The destination that the captured connection was meant for.
    pub peer: Endpoint,
    /// What is left to write of the request.
    pub preamble: Seq<u8>,
    /// The direction from the local socket to the relay.
    pub up: HalfView,
    /// The direction from the relay to the local socket.
    pub down: HalfView,
}

/// The state of a flow whose request is written, by what its two
/// directions have finished.
pub open spec fn open_state(up_done: bool, down_done: bool) -> TcpState {
    if up_done && down_done {
        TcpState::Closed
    } else if up_done {
        TcpState::HalfClosedLocal
    } else if down_done {
        TcpState::HalfClosedRemote
    } else {
        TcpState::Streaming
    }
}

impl TcpView {
    /// Whether bytes are copied in this state.
    pub open spec fn copying(self) -> bool {
        self.state == TcpState::Streaming || self.state == TcpState::HalfClosedLocal || self.state
            == TcpState::HalfClosedRemote
    }

    /// Both directions are in order; what is left of the request is the
    /// end of the request for the flow's destination, all of it until the
    /// tunnel connection is ready; and nothing was copied before the
    /// request was written.
    pub open spec fn wf(self) -> bool {
        let request = spec_request(Command::Connect, AddressView::of_endpoint(self.peer));
        &&& self.up.wf()
        &&& self.down.wf()
        &&& self.preamble.len() <= request.len()
        &&& self.preamble =~= request.skip(request.len() - self.preamble.len())
        &&& self.state == TcpState::Accepted || self.state == TcpState::ConnectingTls
            ==> self.preamble.len() == request.len()
        &&& self.state == TcpState::PreambleSent ==> self.preamble.len() > 0
        &&& self.copying() ==> self.preamble.len() == 0 && self.state == open_state(
            self.up.shut,
            self.down.shut,
        )
        &&& !self.copying() && self.state != TcpState::Closed ==> self.up.read.len() == 0
            && self.down.read.len() == 0 && !self.up.eof && !self.down.eof
    }
}

impl View for TcpFlow {
    type V = TcpView;

    closed spec fn view(&self) -> TcpView {
        TcpView {
            state: self.stage,
            peer: self.peer,
            preamble: self.preamble@,
            up: self.up@,
            down: self.down@,
        }
    }
}

impl TcpFlow {
    /// A flow that the IP stack has just accepted, meant for `peer`, which
    /// copies at most `buffer_size` bytes at once.
    pub fn new(peer: Endpoint, buffer_size: usize) -> (flow: TcpFlow)
        ensures
            flow@.wf(),
            flow@.state == TcpState::Accepted,
            flow@.peer == peer,
            flow@.preamble == spec_request(Command::Connect, AddressView::of_endpoint(peer)),
            flow@.up == HalfView::fresh(buffer_size),
            flow@.down == HalfView::fresh(buffer_size),
    {
        let mut request = buf_new();
        let addr = Address::from_endpoint(&peer);
        TrojanRequest::generate(&mut request, Command::Connect, &addr);
        let preamble = slice_to_vec(buf_as_slice(&request));
        TcpFlow {
            stage: TcpState::Accepted,
            peer,
            preamble,
            up: CopyHalf::new(buffer_size),
            down: CopyHalf::new(buffer_size),
        }
    }

    /// Where the flow stands.
    pub fn state(&self) -> (s: TcpState)
        ensures
            s == self@.state,
    {
        self.stage
    }

    /// The destination that the captured connection was meant for.
    pub fn peer(&self) -> (e: Endpoint)
        ensures
            e == self@.peer,
    {
        self.peer
    }

    /// A tunnel connection was acquired for the flow, or none could be had.
    /// Without one the local socket is reset.
    pub fn on_acquire(&mut self, acquired: bool) -> (action: TcpAction)
        requires
            old(self)@.wf(),
        ensures
            final(self)@.wf(),
            old(self)@.state != TcpState::Accepted ==> final(self)@ == old(self)@ && action
                == TcpAction::Wait,
            old(self)@.state == TcpState::Accepted ==> final(self)@ == (TcpView {
                state: if acquired {
                    TcpState::ConnectingTls
                } else {
                    TcpState::Closed
                },
                ..old(self)@
            }) && action == if acquired {
                TcpAction::Wait
            } else {
                TcpAction::Reset
            },
    {
        match self.stage {
            TcpState::Accepted => {
                if acquired {
                    self.stage = TcpState::ConnectingTls;
                    TcpAction::Wait
                } else {
                    self.stage = TcpState::Closed;
                    TcpAction::Reset
                }
            },
            _ => TcpAction::Wait,
        }
    }

    /// The handshake of the tunnel connection is complete: the request is
    /// to be written.
    pub fn on_tls_ready(&mut self) -> (action: TcpAction)
        requires
            old(self)@.wf(),
        ensures
            final(self)@.wf(),
            old(self)@.state != TcpState::ConnectingTls ==> final(self)@ == old(self)@ && action
                == TcpAction::Wait,
            old(self)@.state == TcpState::ConnectingTls ==> {
                &&& final(self)@ == (TcpView { state: TcpState::PreambleSent, ..old(self)@ })
                &&& final(self)@.preamble == spec_request(
                    Command::Connect,
                    AddressView::of_endpoint(old(self)@.peer),
                )
                &&& action == TcpAction::WritePreamble
            },
    {
        match self.stage {
            TcpState::ConnectingTls => {
                proof {
                    lemma_preamble_whole(self@);
                    crate::roundtrip::lemma_address_round_trip(
                        AddressView::of_endpoint(self@.peer),
                        Seq::empty(),
                    );
                }
                self.stage = TcpState::PreambleSent;
                TcpAction::WritePreamble
            },
            _ => TcpAction::Wait,
        }
    }

    /// What is left to write of the request.
    pub fn preamble(&self) -> (bytes: &[u8])
        ensures
            bytes@ == self@.preamble,
    {
        self.preamble.as_slice()
    }

    /// The tunnel connection took `n` bytes of the request. Once all of it
    /// is written, bytes are copied.
    pub fn on_preamble_written(&mut self, n: usize) -> (action: TcpAction)
        requires
            old(self)@.wf(),
        ensures
            final(self)@.wf(),
            old(self)@.state != TcpState::PreambleSent ==> final(self)@ == old(self)@ && action
                == TcpAction::Wait,
            old(self)@.state == TcpState::PreambleSent ==> {
                let taken = if n <= old(self)@.preamble.len() {
                    n as int
                } else {
                    old(self)@.preamble.len() as int
                };
                let left = old(self)@.preamble.skip(taken);
                &&& final(self)@ == (TcpView {
                    state: if left.len() == 0 {
                        TcpState::Streaming
                    } else {
                        TcpState::PreambleSent
                    },
                    preamble: left,
                    ..old(self)@
                })
                &&& action == if left.len() == 0 {
                    TcpAction::Copy
                } else {
                    TcpAction::WritePreamble
                }
            },
    {
        match self.stage {
            TcpState::PreambleSent => {
                let len = self.preamble.len();
                let taken = if n <= len {
                    n
                } else {
                    len
                };
                let rest = self.preamble.split_off(taken);
                self.preamble = rest;
                if self.preamble.len() == 0 {
                    self.stage = TcpState::Streaming;
                    TcpAction::Copy
                } else {
                    TcpAction::WritePreamble
                }
            },
            _ => TcpAction::Wait,
        }
    }

    /// The number of bytes to read from the local socket now.
    pub fn local_wanted(&self) -> (n: usize)
        ensures
            n == if self@.copying() {
                self@.up.wanted()
            } else {
                0
            },
    {
        if self.is_copying() {
            self.up.wanted()
        } else {
            0
        }
    }

    /// The number of bytes to read from the tunnel connection now.
    pub fn remote_wanted(&self) -> (n: usize)
        ensures
            n == if self@.copying() {
                self@.down.wanted()
            } else {
                0
            },
    {
        if self.is_copying() {
            self.down.wanted()
        } else {
            0
        }
    }

    /// The bytes that wait to be written to the tunnel connection.
    pub fn remote_pending(&self) -> (bytes: &[u8])
        ensures
            bytes@ == self@.up.pending,
    {
        self.up.pending()
    }

    /// The bytes that wait to be written to the local socket.
    pub fn local_pending(&self) -> (bytes: &[u8])
        ensures
            bytes@ == self@.down.pending,
    {
        self.down.pending()
    }

    fn is_copying(&self) -> (r: bool)
        ensures
            r == self@.copying(),
    {
        match self.stage {
            TcpState::Streaming => true,
            TcpState::HalfClosedLocal => true,
            TcpState::HalfClosedRemote => true,
            _ => false,
        }
    }

    /// Bytes were read from the local socket; none at all means that the
    /// local side has finished sending. The answer is whether they were
    /// accepted.
    pub fn on_local_read(&mut self, data: &[u8]) -> (accepted: bool)
        requires
            old(self)@.wf(),
        ensures
            final(self)@.wf(),
            accepted == (old(self)@.copying() && !old(self)@.up.eof && old(self)@.up.pending.len()
                == 0),
            final(self)@ == if old(self)@.copying() {
                TcpView { up: old(self)@.up.after_read(data@), ..old(self)@ }
            } else {
                old(self)@
            },
    {
        if !self.is_copying() {
            return false;
        }
        self.up.on_read(data)
    }

    /// Bytes were read from the tunnel connection; none at all means that
    /// the relay has finished sending. The answer is whether they were
    /// accepted.
    pub fn on_remote_read(&mut self, data: &[u8]) -> (accepted: bool)
        requires
            old(self)@.wf(),
        ensures
            final(self)@.wf(),
            accepted == (old(self)@.copying() && !old(self)@.down.eof
                && old(self)@.down.pending.len() == 0),
            final(self)@ == if old(self)@.copying() {
                TcpView { down: old(self)@.down.after_read(data@), ..old(self)@ }
            } else {
                old(self)@
            },
    {
        if !self.is_copying() {
            return false;
        }
        self.down.on_read(data)
    }

    /// The tunnel connection took `n` of the bytes that wait for it.
    pub fn on_remote_written(&mut self, n: usize)
        requires
            old(self)@.wf(),
        ensures
            final(self)@.wf(),
            final(self)@ == if old(self)@.copying() {
                TcpView { up: old(self)@.up.after_write(n), ..old(self)@ }
            } else {
                old(self)@
            },
    {
        if self.is_copying() {
            self.up.on_written(n);
        }
    }

    /// The local socket took `n` of the bytes that wait for it.
    pub fn on_local_written(&mut self, n: usize)
        requires
            old(self)@.wf(),
        ensures
            final(self)@.wf(),
            final(self)@ == if old(self)@.copying() {
                TcpView { down: old(self)@.down.after_write(n), ..old(self)@ }
            } else {
                old(self)@
            },
    {
        if self.is_copying() {
            self.down.on_written(n);
        }
    }

    /// Passes on the ends that are due: a direction whose source has ended
    /// and whose bytes are all written is shut. The answer tells which
    /// sockets the caller shuts for writing, the tunnel connection first,
    /// and what to do then: when both directions are shut, the flow is
    /// closed.
    pub fn settle(&mut self) -> (r: (bool, bool, TcpAction))
        requires
            old(self)@.wf(),
        ensures
            final(self)@.wf(),
            !old(self)@.copying() ==> final(self)@ == old(self)@ && r == (
                false,
                false,
                TcpAction::Wait,
            ),
            old(self)@.copying() ==> {
                let up_due = old(self)@.up.eof && old(self)@.up.pending.len() == 0;
                let down_due = old(self)@.down.eof && old(self)@.down.pending.len() == 0;
                &&& r.0 == (up_due && !old(self)@.up.shut)
                &&& r.1 == (down_due && !old(self)@.down.shut)
                &&& r.2 == if up_due && down_due {
                    TcpAction::Close
                } else {
                    TcpAction::Copy
                }
                &&& final(self)@ == (TcpView {
                    state: open_state(up_due, down_due),
                    up: HalfView { shut: up_due, ..old(self)@.up },
                    down: HalfView { shut: down_due, ..old(self)@.down },
                    ..old(self)@
                })
            },
    {
        if !self.is_copying() {
            return (false, false, TcpAction::Wait);
        }
        let shut_remote = self.up.wants_shutdown();
        let shut_local = self.down.wants_shutdown();
        self.up.on_shutdown();
        self.down.on_shutdown();
        let up_done = self.up.is_done();
        let down_done = self.down.is_done();
        if up_done && down_done {
            self.stage = TcpState::Closed;
            (shut_remote, shut_local, TcpAction::Close)
        } else if up_done {
            self.stage = TcpState::HalfClosedLocal;
            (shut_remote, shut_local, TcpAction::Copy)
        } else if down_done {
            self.stage = TcpState::HalfClosedRemote;
            (shut_remote, shut_local, TcpAction::Copy)
        } else {
            self.stage = TcpState::Streaming;
            (shut_remote, shut_local, TcpAction::Copy)
        }
    }

    /// A socket failed, or the worker was dropped: both sockets are closed
    /// and what was pending is discarded with the flow.
    pub fn on_error(&mut self) -> (action: TcpAction)
        requires
            old(self)@.wf(),
        ensures
            final(self)@.wf(),
            final(self)@ == (TcpView { state: TcpState::Closed, ..old(self)@ }),
            action == if old(self)@.state == TcpState::Closed {
                TcpAction::Wait
            } else {
                TcpAction::Close
            },
    {
        match self.stage {
            TcpState::Closed => TcpAction::Wait,
            _ => {
                self.stage = TcpState::Closed;
                TcpAction::Close
            },
        }
    }
}

/// Before the request is written, all of it is left to write.
pub proof fn lemma_preamble_whole(flow: TcpView)
    requires
        flow.wf(),
        flow.state == TcpState::Accepted || flow.state == TcpState::ConnectingTls,
    ensures
        flow.preamble == spec_request(Command::Connect, AddressView::of_endpoint(flow.peer)),
{
}

/// In every state of a flow, and in both directions, the bytes written are
/// the bytes read, in order, but for those that still wait; in a direction
/// that has finished, they are all the bytes read.
pub proof fn lemma_copy_exact(flow: TcpView)
    requires
        flow.wf(),
    ensures
        flow.up.read == flow.up.written + flow.up.pending,
        flow.down.read == flow.down.written + flow.down.pending,
        flow.up.shut ==> flow.up.read == flow.up.written,
        flow.down.shut ==> flow.down.read == flow.down.written,
{
}

} // verus!
