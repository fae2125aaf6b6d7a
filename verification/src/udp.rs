//! The worker of one UDP flow: the datagrams of one source endpoint, framed
//! as records on one tunnel connection in UDP-associate mode.
//!
//! The worker owns no socket. Its caller reports what the tunnel connection
//! did (a write that took some bytes, a read that brought some) and carries
//! out the action that the worker answers with.

use crate::addr::{Address, AddressView, Endpoint};
use crate::buffer::{buf_new, buffered};
use crate::proto::{
    datagram_views, drain_records, spec_request, Command, Datagram, Stream, TrojanRequest,
};
use bytes::BytesMut;
use vstd::prelude::*;
use vstd::slice::*;

verus! {

/// Where a flow stands.
#[derive(Clone, Copy, Debug, PartialEq, Eq)]
pub enum FlowState {
    /// The tunnel connection is not yet in UDP-associate mode.
    Connecting,
    /// The tunnel connection carries records.
    Associated,
    /// The tunnel connection is closed; the flow does nothing any more.
    Closed,
}

/// What the caller does next with the tunnel connection of a flow.
#[derive(Clone, Copy, Debug, PartialEq, Eq)]
pub enum FlowAction {
    /// Nothing.
    Nothing,
    /// Write the request that puts the connection into UDP-associate mode,
    /// and report whether it was written.
    Handshake,
    /// Read from the connection, and report what was read.
    Read,
    /// Write the bytes that the flow holds pending.
    Write,
    /// Flush what was written.
    Flush,
    /// Close the connection.
    Close,
}

/// What became of a datagram handed to a flow.
#[derive(Clone, Copy, Debug, PartialEq, Eq)]
pub enum LocalAction {
    /// The datagram was dropped: the flow is closed, or an earlier record
    /// is still waiting to be written.
    Discarded,
    /// The record waits until the connection is in UDP-associate mode.
    Cached,
    /// The record is pending: write it now.
    Send,
}

/// What a write to the tunnel connection came to.
#[derive(Clone, Copy, Debug, PartialEq, Eq)]
pub enum WriteOutcome {
    /// The connection took this many bytes.
    Wrote(usize),
    /// The connection takes no more for now.
    WouldBlock,
    /// The connection is broken.
    Failed,
}

/// What a flush of the tunnel connection came to.
#[derive(Clone, Copy, Debug, PartialEq, Eq)]
pub enum FlushOutcome {
    Done,
    WouldBlock,
    Failed,
}

/// What a read from the tunnel connection came to.
#[derive(Clone, Copy, Debug, PartialEq, Eq)]
pub enum ReadOutcome<'a> {
    /// The bytes read. None at all means that the relay closed the
    /// connection.
    Data(&'a [u8]),
    /// Nothing to read for now.
    WouldBlock,
    /// The connection is broken.
    Failed,
}

/// What a [`ReadOutcome`] stands for.
pub enum ReadView {
    Data(Seq<u8>),
    WouldBlock,
    Failed,
}

impl<'a> View for ReadOutcome<'a> {
    type V = ReadView;

    open spec fn view(&self) -> ReadView {
        match self {
            ReadOutcome::Data(bytes) => ReadView::Data(bytes@),
            ReadOutcome::WouldBlock => ReadView::WouldBlock,
            ReadOutcome::Failed => ReadView::Failed,
        }
    }
}

/// What the caller reports of a flow's tunnel connection.
#[derive(Clone, Copy, Debug, PartialEq, Eq)]
pub enum FlowEvent<'a> {
    /// The connection can be written to.
    Writable,
    /// The connection has something to read.
    Readable,
    /// The handshake was written (`true`) or could not be written.
    Handshake(bool),
    /// A write of the pending bytes came to this.
    Write(WriteOutcome),
    /// A flush came to this.
    Flush(FlushOutcome),
    /// A read came to this.
    Read(ReadOutcome<'a>),
}

/// What a [`FlowEvent`] stands for.
pub enum EventView {
    Writable,
    Readable,
    Handshake(bool),
    Write(WriteOutcome),
    Flush(FlushOutcome),
    Data(Seq<u8>),
    ReadBlocked,
    ReadFailed,
}

impl<'a> View for FlowEvent<'a> {
    type V = EventView;

    open spec fn view(&self) -> EventView {
        match self {
            FlowEvent::Writable => EventView::Writable,
            FlowEvent::Readable => EventView::Readable,
            FlowEvent::Handshake(sent) => EventView::Handshake(*sent),
            FlowEvent::Write(outcome) => EventView::Write(*outcome),
            FlowEvent::Flush(outcome) => EventView::Flush(*outcome),
            FlowEvent::Read(ReadOutcome::Data(bytes)) => EventView::Data(bytes@),
            FlowEvent::Read(ReadOutcome::WouldBlock) => EventView::ReadBlocked,
            FlowEvent::Read(ReadOutcome::Failed) => EventView::ReadFailed,
        }
    }
}

/// A flow after an event, with what the caller is to do.
pub struct Stepped {
    pub next: ConnectionView,
    pub action: FlowAction,
    /// The datagrams to deliver to the flow's source endpoint, in order.
    pub delivered: Seq<crate::proto::RecordView>,
}

/// One UDP flow.
pub struct Connection {
    token: usize,
    local: usize,
    endpoint: Endpoint,
    rclosed: bool,
    established: bool,
    rbuffer: Vec<u8>,
    lbuffer: Vec<u8>,
    last_active: u64,
    record: Ghost<Seq<u8>>,
}

/// What a [`Connection`] holds.
pub struct ConnectionView {
    /// The token of the flow's tunnel connection.
    pub token: usize,
    /// The handle of the flow's socket in the IP stack.
    pub local: usize,
    /// The source endpoint that the flow belongs to.
    pub endpoint: Endpoint,
    pub state: FlowState,
    /// The bytes waiting to be written to the tunnel connection.
    pub staged: Seq<u8>,
    /// The record that the staged bytes are the rest of.
    pub record: Seq<u8>,
    /// The bytes read from the tunnel connection behind the last whole
    /// record.
    pub residual: Seq<u8>,
    /// When a datagram of the flow was last seen, in seconds on the
    /// caller's clock.
    pub last_active: u64,
}

impl ConnectionView {
    /// A flow for the source `endpoint`, first seen at `now`, whose tunnel
    /// connection has just been asked for.
    pub open spec fn fresh(
        token: usize,
        local: usize,
        endpoint: Endpoint,
        now: u64,
    ) -> ConnectionView {
        ConnectionView {
            token,
            local,
            endpoint,
            state: FlowState::Connecting,
            staged: Seq::empty(),
            record: Seq::empty(),
            residual: Seq::empty(),
            last_active: now,
        }
    }

    /// The staging buffer is empty or holds the unwritten rest of one
    /// record.
    pub open spec fn wf(self) -> bool {
        self.staged.len() <= self.record.len() && self.staged =~= self.record.skip(
            self.record.len() - self.staged.len(),
        )
    }

    /// The bytes that the caller is to write now.
    pub open spec fn pending(self) -> Seq<u8> {
        if self.state == FlowState::Associated {
            self.staged
        } else {
            Seq::empty()
        }
    }

    /// What to do with the connection once nothing stands in the way of
    /// writing.
    pub open spec fn write_or_flush(self) -> FlowAction {
        if self.staged.len() > 0 {
            FlowAction::Write
        } else {
            FlowAction::Flush
        }
    }

    /// The flow with another state.
    pub open spec fn with_state(self, state: FlowState) -> ConnectionView {
        ConnectionView { state, ..self }
    }

    /// The flow after `event`, the action that the caller is to take, and
    /// the datagrams that came in. A closed flow takes no event.
    pub open spec fn step(self, event: EventView) -> Stepped {
        let same = Stepped { next: self, action: FlowAction::Nothing, delivered: Seq::empty() };
        let closed = Stepped {
            next: self.with_state(FlowState::Closed),
            action: FlowAction::Close,
            delivered: Seq::empty(),
        };
        if self.state == FlowState::Closed {
            same
        } else {
            match event {
                EventView::Writable => Stepped {
                    action: if self.state == FlowState::Connecting {
                        FlowAction::Handshake
                    } else {
                        self.write_or_flush()
                    },
                    ..same
                },
                EventView::Readable => Stepped { action: FlowAction::Read, ..same },
                EventView::Handshake(sent) => if self.state != FlowState::Connecting {
                    same
                } else if sent {
                    Stepped {
                        next: self.with_state(FlowState::Associated),
                        action: self.write_or_flush(),
                        delivered: Seq::empty(),
                    }
                } else {
                    closed
                },
                EventView::Write(outcome) => if self.state != FlowState::Associated {
                    same
                } else {
                    match outcome {
                        WriteOutcome::Wrote(n) => if n == 0 && self.staged.len() > 0 {
                            closed
                        } else {
                            let taken = if n <= self.staged.len() {
                                n as int
                            } else {
                                self.staged.len() as int
                            };
                            let next = ConnectionView { staged: self.staged.skip(taken), ..self };
                            Stepped {
                                next,
                                action: next.write_or_flush(),
                                delivered: Seq::empty(),
                            }
                        },
                        WriteOutcome::WouldBlock => Stepped { action: FlowAction::Flush, ..same },
                        WriteOutcome::Failed => closed,
                    }
                },
                EventView::Flush(outcome) => if outcome == FlushOutcome::Failed {
                    closed
                } else {
                    same
                },
                EventView::Data(bytes) => if bytes.len() == 0 {
                    closed
                } else {
                    let fed = (Stream {
                        records: Seq::empty(),
                        residual: self.residual,
                        valid: true,
                    }).feed(bytes);
                    Stepped {
                        next: ConnectionView {
                            state: if fed.valid {
                                self.state
                            } else {
                                FlowState::Closed
                            },
                            residual: fed.residual,
                            ..self
                        },
                        action: if fed.valid {
                            FlowAction::Read
                        } else {
                            FlowAction::Close
                        },
                        delivered: fed.records,
                    }
                },
                EventView::ReadBlocked => same,
                EventView::ReadFailed => closed,
            }
        }
    }
}

/// A closed flow stays closed, whatever is reported of its connection: it
/// changes no more, asks for nothing, delivers nothing and has nothing to
/// write.
pub proof fn lemma_closed_is_final(flow: ConnectionView, event: EventView)
    requires
        flow.state == FlowState::Closed,
    ensures
        flow.step(event).next == flow,
        flow.step(event).action == FlowAction::Nothing,
        flow.step(event).delivered.len() == 0,
        flow.pending().len() == 0,
{
}

/// A step never opens a closed connection again, and leaves the flow's
/// token, socket, source endpoint and staged record in order.
pub proof fn lemma_step_keeps_order(flow: ConnectionView, event: EventView)
    requires
        flow.wf(),
    ensures
        flow.step(event).next.wf(),
        flow.step(event).next.token == flow.token,
        flow.step(event).next.local == flow.local,
        flow.step(event).next.endpoint == flow.endpoint,
        flow.step(event).next.last_active == flow.last_active,
        flow.step(event).action == FlowAction::Close <==> flow.state != FlowState::Closed
            && flow.step(event).next.state == FlowState::Closed,
{
}

/// However the bytes of the relay are cut into reads, every record among
/// them is delivered once, in order: two reads in turn deliver what one read
/// of both would, and leave the flow where it would.
pub proof fn lemma_reads_join(flow: ConnectionView, first: Seq<u8>, second: Seq<u8>)
    requires
        flow.state != FlowState::Closed,
        first.len() > 0,
        second.len() > 0,
        flow.step(EventView::Data(first)).next.state != FlowState::Closed,
    ensures
        ({
            let one = flow.step(EventView::Data(first));
            let two = one.next.step(EventView::Data(second));
            let both = flow.step(EventView::Data(first + second));
            &&& one.delivered + two.delivered == both.delivered
            &&& two.next == both.next
            &&& two.action == both.action
        }),
{
    let start = Stream { records: Seq::empty(), residual: flow.residual, valid: true };
    let one = start.feed(first);
    let two = (Stream { records: Seq::empty(), residual: one.residual, valid: true }).feed(second);
    crate::roundtrip::lemma_feed_split(start, first, second);
    assert(one.feed(second).records =~= one.records + two.records);
}

impl View for Connection {
    type V = ConnectionView;

    closed spec fn view(&self) -> ConnectionView {
        ConnectionView {
            token: self.token,
            local: self.local,
            endpoint: self.endpoint,
            state: if self.rclosed {
                FlowState::Closed
            } else if self.established {
                FlowState::Associated
            } else {
                FlowState::Connecting
            },
            staged: self.rbuffer@,
            record: self.record@,
            residual: self.lbuffer@,
            last_active: self.last_active,
        }
    }
}

impl Connection {
    /// A flow for the source `endpoint`, first seen at `now`, whose tunnel
    /// connection has just been asked for.
    pub fn new(token: usize, local: usize, endpoint: Endpoint, now: u64) -> (c: Connection)
        ensures
            c@.wf(),
            c@ == ConnectionView::fresh(token, local, endpoint, now),
    {
        Connection {
            token,
            local,
            endpoint,
            rclosed: false,
            established: false,
            rbuffer: Vec::new(),
            lbuffer: Vec::new(),
            last_active: now,
            record: Ghost(Seq::empty()),
        }
    }

    /// The request that puts a tunnel connection into UDP-associate mode.
    pub fn handshake() -> (request: BytesMut)
        ensures
            buffered(request) == spec_request(Command::UdpAssociate, AddressView::wildcard()),
    {
        let mut request = buf_new();
        let addr = Address::wildcard();
        TrojanRequest::generate(&mut request, Command::UdpAssociate, &addr);
        request
    }

    /// The token of the flow's tunnel connection.
    pub fn token(&self) -> (t: usize)
        ensures
            t == self@.token,
    {
        self.token
    }

    /// The handle of the flow's socket in the IP stack.
    pub fn local(&self) -> (h: usize)
        ensures
            h == self@.local,
    {
        self.local
    }

    /// The source endpoint that the flow belongs to.
    pub fn endpoint(&self) -> (e: Endpoint)
        ensures
            e == self@.endpoint,
    {
        self.endpoint
    }

    /// Where the flow stands.
    pub fn state(&self) -> (s: FlowState)
        ensures
            s == self@.state,
    {
        if self.rclosed {
            FlowState::Closed
        } else if self.established {
            FlowState::Associated
        } else {
            FlowState::Connecting
        }
    }

    /// Whether the flow's tunnel connection is closed.
    pub fn is_closed(&self) -> (r: bool)
        ensures
            r == (self@.state == FlowState::Closed),
    {
        self.rclosed
    }

    /// When a datagram of the flow was last seen.
    pub fn last_active(&self) -> (t: u64)
        ensures
            t == self@.last_active,
    {
        self.last_active
    }

    /// Notes that a datagram of the flow was seen at `now`.
    pub fn touch(&mut self, now: u64)
        ensures
            final(self)@ == (ConnectionView { last_active: now, ..old(self)@ }),
    {
        self.last_active = now;
    }

    /// The bytes that the caller is to write to the tunnel connection now:
    /// what is staged, once the connection is in UDP-associate mode.
    pub fn pending(&self) -> (bytes: &[u8])
        ensures
            bytes@ == self@.pending(),
    {
        let all = self.rbuffer.as_slice();
        if self.established && !self.rclosed {
            all
        } else {
            slice_subrange(all, 0, 0)
        }
    }

    /// Takes a datagram from the local side, already framed as the record
    /// `header` followed by `body`. While an earlier record waits to be
    /// written the new one is dropped; a closed flow drops everything.
    pub fn do_local(&mut self, header: &[u8], body: &[u8]) -> (action: LocalAction)
        requires
            old(self)@.wf(),
        ensures
            final(self)@.wf(),
            old(self)@.state == FlowState::Closed || old(self)@.staged.len() > 0 ==> action
                == LocalAction::Discarded && final(self)@ == old(self)@,
            old(self)@.state != FlowState::Closed && old(self)@.staged.len() == 0 ==> {
                &&& action == if old(self)@.state == FlowState::Associated {
                    LocalAction::Send
                } else {
                    LocalAction::Cached
                }
                &&& final(self)@ == (ConnectionView {
                    staged: header@ + body@,
                    record: header@ + body@,
                    ..old(self)@
                })
            },
    {
        if self.rclosed || self.rbuffer.len() > 0 {
            return LocalAction::Discarded;
        }
        self.rbuffer.extend_from_slice(header);
        self.rbuffer.extend_from_slice(body);
        self.record = Ghost(header@ + body@);
        proof {
            assert(self.rbuffer@ =~= header@ + body@);
        }
        if self.established {
            LocalAction::Send
        } else {
            LocalAction::Cached
        }
    }

    /// Whether the handshake is still to be written: on a connection that
    /// is not yet in UDP-associate mode.
    pub fn needs_handshake(&self) -> (r: bool)
        ensures
            r == (self@.state == FlowState::Connecting),
    {
        !self.rclosed && !self.established
    }

    /// The handshake was written, or could not be written. Once it is
    /// written the connection is in UDP-associate mode and what was staged
    /// meanwhile is pending.
    pub fn on_handshake(&mut self, sent: bool) -> (action: FlowAction)
        requires
            old(self)@.wf(),
        ensures
            final(self)@.wf(),
            old(self)@.state != FlowState::Connecting ==> final(self)@ == old(self)@ && action
                == FlowAction::Nothing,
            old(self)@.state == FlowState::Connecting && sent ==> final(self)@ == (ConnectionView {
                state: FlowState::Associated,
                ..old(self)@
            }) && action == old(self)@.write_or_flush(),
            old(self)@.state == FlowState::Connecting && !sent ==> final(self)@ == (
            ConnectionView { state: FlowState::Closed, ..old(self)@ }) && action
                == FlowAction::Close,
    {
        if self.rclosed || self.established {
            return FlowAction::Nothing;
        }
        if sent {
            self.established = true;
            if self.rbuffer.len() > 0 {
                FlowAction::Write
            } else {
                FlowAction::Flush
            }
        } else {
            self.rclosed = true;
            FlowAction::Close
        }
    }

    /// A write of the pending bytes came to `outcome`. Bytes that were
    /// taken leave the staging buffer, first in, first out; a connection
    /// that takes nothing or fails is closed.
    pub fn local_to_remote(&mut self, outcome: WriteOutcome) -> (action: FlowAction)
        requires
            old(self)@.wf(),
        ensures
            final(self)@.wf(),
            old(self)@.state != FlowState::Associated ==> final(self)@ == old(self)@ && action
                == FlowAction::Nothing,
            old(self)@.state == FlowState::Associated ==> match outcome {
                WriteOutcome::Wrote(n) => if n == 0 && old(self)@.staged.len() > 0 {
                    final(self)@ == (ConnectionView { state: FlowState::Closed, ..old(self)@ })
                        && action == FlowAction::Close
                } else {
                    let taken = if n <= old(self)@.staged.len() {
                        n as int
                    } else {
                        old(self)@.staged.len() as int
                    };
                    final(self)@ == (ConnectionView {
                        staged: old(self)@.staged.skip(taken),
                        ..old(self)@
                    }) && action == final(self)@.write_or_flush()
                },
                WriteOutcome::WouldBlock => final(self)@ == old(self)@ && action
                    == FlowAction::Flush,
                WriteOutcome::Failed => final(self)@ == (ConnectionView {
                    state: FlowState::Closed,
                    ..old(self)@
                }) && action == FlowAction::Close,
            },
    {
        if self.rclosed || !self.established {
            return FlowAction::Nothing;
        }
        match outcome {
            WriteOutcome::Wrote(n) => {
                let len = self.rbuffer.len();
                if n == 0 && len > 0 {
                    self.rclosed = true;
                    return FlowAction::Close;
                }
                let taken = if n <= len {
                    n
                } else {
                    len
                };
                let rest = self.rbuffer.split_off(taken);
                self.rbuffer = rest;
                proof {
                    let before = old(self)@.staged;
                    let record = old(self)@.record;
                    assert(before.skip(taken as int) =~= record.skip(
                        record.len() - (before.len() - taken),
                    ));
                }
                if self.rbuffer.len() > 0 {
                    FlowAction::Write
                } else {
                    FlowAction::Flush
                }
            },
            WriteOutcome::WouldBlock => FlowAction::Flush,
            WriteOutcome::Failed => {
                self.rclosed = true;
                FlowAction::Close
            },
        }
    }

    /// A flush of the tunnel connection came to `outcome`. A connection
    /// that fails to flush is closed.
    pub fn flush_remote(&mut self, outcome: FlushOutcome) -> (action: FlowAction)
        requires
            old(self)@.wf(),
        ensures
            final(self)@.wf(),
            old(self)@.state != FlowState::Closed && outcome == FlushOutcome::Failed ==> {
                &&& final(self)@ == old(self)@.with_state(FlowState::Closed)
                &&& action == FlowAction::Close
            },
            old(self)@.state == FlowState::Closed || outcome != FlushOutcome::Failed ==> {
                &&& final(self)@ == old(self)@
                &&& action == FlowAction::Nothing
            },
    {
        if self.rclosed {
            return FlowAction::Nothing;
        }
        match outcome {
            FlushOutcome::Failed => {
                self.rclosed = true;
                FlowAction::Close
            },
            _ => FlowAction::Nothing,
        }
    }

    /// A read from the tunnel connection came to `outcome`. Bytes that were
    /// read join what was left over before; every whole record among them
    /// is handed out, in order, to be delivered to the flow's source
    /// endpoint, and the rest is kept. Bytes that cannot be records, the end
    /// of the stream and a failure close the connection.
    pub fn remote_to_local(&mut self, outcome: ReadOutcome<'_>) -> (delivered: Vec<Datagram>)
        requires
            old(self)@.wf(),
        ensures
            final(self)@.wf(),
            old(self)@.state == FlowState::Closed ==> final(self)@ == old(self)@
                && delivered@.len() == 0,
            old(self)@.state != FlowState::Closed ==> match outcome {
                ReadOutcome::Data(bytes) => if bytes@.len() == 0 {
                    final(self)@ == (ConnectionView { state: FlowState::Closed, ..old(self)@ })
                        && delivered@.len() == 0
                } else {
                    let fed = (Stream {
                        records: Seq::empty(),
                        residual: old(self)@.residual,
                        valid: true,
                    }).feed(bytes@);
                    &&& datagram_views(delivered@) == fed.records
                    &&& final(self)@ == (ConnectionView {
                        state: if fed.valid {
                            old(self)@.state
                        } else {
                            FlowState::Closed
                        },
                        residual: fed.residual,
                        ..old(self)@
                    })
                },
                ReadOutcome::WouldBlock => final(self)@ == old(self)@ && delivered@.len() == 0,
                ReadOutcome::Failed => final(self)@ == (ConnectionView {
                    state: FlowState::Closed,
                    ..old(self)@
                }) && delivered@.len() == 0,
            },
    {
        if self.rclosed {
            return Vec::new();
        }
        match outcome {
            ReadOutcome::Data(bytes) => {
                if bytes.len() == 0 {
                    self.rclosed = true;
                    return Vec::new();
                }
                self.lbuffer.extend_from_slice(bytes);
                assert(self.lbuffer@ =~= old(self)@.residual + bytes@);
                let drained = drain_records(self.lbuffer.as_slice());
                let rest = self.lbuffer.split_off(drained.used);
                self.lbuffer = rest;
                if !drained.valid {
                    self.rclosed = true;
                }
                proof {
                    let all = old(self)@.residual + bytes@;
                    assert(Seq::<crate::proto::RecordView>::empty() + datagram_views(
                        drained.datagrams@,
                    ) =~= datagram_views(drained.datagrams@));
                }
                drained.datagrams
            },
            ReadOutcome::WouldBlock => Vec::new(),
            ReadOutcome::Failed => {
                self.rclosed = true;
                Vec::new()
            },
        }
    }

    /// Closes the flow. The answer is `true` the first time: the caller
    /// closes the tunnel connection; a flow that is closed stays closed.
    pub fn close_remote(&mut self) -> (first: bool)
        requires
            old(self)@.wf(),
        ensures
            final(self)@.wf(),
            first == (old(self)@.state != FlowState::Closed),
            final(self)@ == (ConnectionView { state: FlowState::Closed, ..old(self)@ }),
    {
        if self.rclosed {
            return false;
        }
        self.rclosed = true;
        true
    }
    /// Takes what the caller reports of the tunnel connection and answers
    /// with the action to take and the datagrams that came in.
    pub fn do_remote(&mut self, event: FlowEvent<'_>) -> (reply: (FlowAction, Vec<Datagram>))
        requires
            old(self)@.wf(),
        ensures
            final(self)@.wf(),
            final(self)@ == old(self)@.step(event@).next,
            reply.0 == old(self)@.step(event@).action,
            datagram_views(reply.1@) == old(self)@.step(event@).delivered,
    {
        let was_closed = self.rclosed;
        match event {
            FlowEvent::Writable => {
                let action = if self.rclosed {
                    FlowAction::Nothing
                } else if !self.established {
                    FlowAction::Handshake
                } else if self.rbuffer.len() > 0 {
                    FlowAction::Write
                } else {
                    FlowAction::Flush
                };
                (action, Vec::new())
            },
            FlowEvent::Readable => {
                let action = if self.rclosed {
                    FlowAction::Nothing
                } else {
                    FlowAction::Read
                };
                (action, Vec::new())
            },
            FlowEvent::Handshake(sent) => {
                let action = self.on_handshake(sent);
                (action, Vec::new())
            },
            FlowEvent::Write(outcome) => {
                let action = self.local_to_remote(outcome);
                (action, Vec::new())
            },
            FlowEvent::Flush(outcome) => {
                let action = self.flush_remote(outcome);
                (action, Vec::new())
            },
            FlowEvent::Read(outcome) => {
                let more = match outcome {
                    ReadOutcome::Data(_) => true,
                    _ => false,
                };
                let delivered = self.remote_to_local(outcome);
                let action = if self.rclosed && !was_closed {
                    FlowAction::Close
                } else if more && !self.rclosed {
                    FlowAction::Read
                } else {
                    FlowAction::Nothing
                };
                (action, delivered)
            },
        }
    }
}

} // verus!
