//! The table of live UDP flows, indexed by source endpoint and by the token
//! of the tunnel connection, with the sweep that evicts idle flows.

use crate::addr::Endpoint;
use crate::buffer::{buf_as_slice, buf_clear, buf_with_capacity};
use crate::proto::{
    datagram_views, spec_record, Datagram, RecordView, UdpAssociate, MAX_DATAGRAM,
};
use crate::udp::{
    Connection, ConnectionView, FlowAction, FlowEvent, FlowState, LocalAction,
};
use bytes::BytesMut;
use vstd::prelude::*;

verus! {

/// A flow that saw no datagram for more than this many seconds is evicted.
pub const IDLE_SECS: u64 = 600;

/// The token that stands for `index` on the channel `channel` out of
/// `channels`.
pub open spec fn token_of(index: int, channels: int, channel: int) -> int {
    index * channels + channel
}

/// A token names its index and its channel: two tokens of one allocator
/// differ where their indices do.
pub proof fn lemma_token_names_index(index: int, channels: int, channel: int)
    requires
        0 <= index,
        0 <= channel < channels,
    ensures
        token_of(index, channels, channel) / channels == index,
        token_of(index, channels, channel) % channels == channel,
{
    assert((index * channels + channel) / channels == index && (index * channels + channel)
        % channels == channel) by (nonlinear_arith)
        requires
            0 <= index,
            0 <= channel < channels,
    ;
}

/// A counter that hands out tokens for tunnel connections: the indices of a
/// reserved range in turn, starting over at its end.
#[derive(Clone, Copy, Debug, PartialEq, Eq)]
pub struct TokenAllocator {
    next: usize,
    min: usize,
    max: usize,
    channels: usize,
    channel: usize,
}

/// What a [`TokenAllocator`] holds.
pub struct TokenView {
    /// The index that the next token stands for.
    pub next: usize,
    /// The first index of the range.
    pub min: usize,
    /// The index behind the last of the range.
    pub max: usize,
    /// The number of channels that share the token space.
    pub channels: usize,
    /// The channel of the tokens handed out.
    pub channel: usize,
}

impl TokenView {
    /// The token handed out next.
    pub open spec fn token(self) -> int {
        token_of(self.next as int, self.channels as int, self.channel as int)
    }

    /// The allocator after it handed out a token.
    pub open spec fn advanced(self) -> TokenView {
        TokenView {
            next: if self.next + 1 >= self.max {
                self.min
            } else {
                (self.next + 1) as usize
            },
            ..self
        }
    }

    /// The next index lies in the range, and every token of the range fits
    /// the machine word.
    pub open spec fn wf(self) -> bool {
        &&& self.min <= self.next < self.max
        &&& self.channel < self.channels
        &&& self.max * self.channels <= usize::MAX
    }
}

impl View for TokenAllocator {
    type V = TokenView;

    closed spec fn view(&self) -> TokenView {
        TokenView {
            next: self.next,
            min: self.min,
            max: self.max,
            channels: self.channels,
            channel: self.channel,
        }
    }
}

impl TokenAllocator {
    #[verifier::type_invariant]
    spec fn inv(&self) -> bool {
        self@.wf()
    }

    /// An allocator for the indices from `min` up to, not including, `max`,
    /// on the channel `channel` out of `channels`. There is none for an
    /// empty range, for a channel that does not exist, or where a token
    /// would not fit the machine word.
    pub fn new(min: usize, max: usize, channels: usize, channel: usize) -> (a: Option<
        TokenAllocator,
    >)
        ensures
            a is Some <==> min < max && channel < channels && max * channels <= usize::MAX,
            a is Some ==> a->0@ == (TokenView { next: min, min, max, channels, channel }),
    {
        if min >= max || channel >= channels {
            return None;
        }
        let most = usize::MAX / channels;
        assert((max <= most) <==> (max * channels <= usize::MAX)) by (nonlinear_arith)
            requires
                channels > 0,
                most == usize::MAX as int / channels as int,
        ;
        if max > most {
            return None;
        }
        Some(TokenAllocator { next: min, min, max, channels, channel })
    }

    /// The token that would be handed out next.
    pub fn peek(&self) -> (token: usize)
        ensures
            self@.wf(),
            token == self@.token(),
    {
        proof {
            use_type_invariant(self);
            assert(self.next * self.channels + self.channel < self.max * self.channels)
                by (nonlinear_arith)
                requires
                    self.next < self.max,
                    self.channel < self.channels,
            ;
        }
        self.next * self.channels + self.channel
    }

    /// Hands out the next token.
    pub fn next_token(&mut self) -> (token: usize)
        ensures
            old(self)@.wf(),
            token == old(self)@.token(),
            final(self)@ == old(self)@.advanced(),
    {
        let token = self.peek();
        proof {
            use_type_invariant(&*self);
        }
        let next = if self.next + 1 >= self.max {
            self.min
        } else {
            self.next + 1
        };
        *self = TokenAllocator {
            next,
            min: self.min,
            max: self.max,
            channels: self.channels,
            channel: self.channel,
        };
        token
    }
}

/// What each of the flows holds.
pub open spec fn flow_views(conns: Seq<Connection>) -> Seq<ConnectionView> {
    conns.map_values(|c: Connection| c@)
}

/// The index of the flow with the token `token`, if there is one.
pub open spec fn by_token(flows: Seq<ConnectionView>, token: usize) -> Option<int> {
    if exists|i: int| 0 <= i < flows.len() && flows[i].token == token {
        Some(choose|i: int| 0 <= i < flows.len() && flows[i].token == token)
    } else {
        None
    }
}

/// The index of the flow of the source endpoint `source`, if there is one.
pub open spec fn by_source(flows: Seq<ConnectionView>, source: Endpoint) -> Option<int> {
    if exists|i: int| 0 <= i < flows.len() && flows[i].endpoint == source {
        Some(choose|i: int| 0 <= i < flows.len() && flows[i].endpoint == source)
    } else {
        None
    }
}

/// Every flow of the table is live, no two flows share a tunnel connection,
/// and no source endpoint has two flows.
pub open spec fn table_wf(flows: Seq<ConnectionView>) -> bool {
    &&& forall|i: int|
        0 <= i < flows.len() ==> (#[trigger] flows[i]).wf() && flows[i].state != FlowState::Closed
    &&& forall|i: int, j: int|
        0 <= i < j < flows.len() ==> flows[i].token != flows[j].token && flows[i].endpoint
            != flows[j].endpoint
}

/// Whether a flow last active at `then` is idle at `now`.
pub open spec fn idle(then: u64, now: u64) -> bool {
    now - then > IDLE_SECS
}

/// The flows that are not idle at `now`, in table order.
pub open spec fn kept(flows: Seq<ConnectionView>, now: u64) -> Seq<ConnectionView>
    decreases flows.len(),
{
    if flows.len() == 0 {
        Seq::empty()
    } else if idle(flows.last().last_active, now) {
        kept(flows.drop_last(), now)
    } else {
        kept(flows.drop_last(), now).push(flows.last())
    }
}

/// A flow that was evicted: what the caller needs to release it.
#[derive(Clone, Copy, Debug, PartialEq, Eq)]
pub struct Evicted {
    /// The token of the tunnel connection to close.
    pub token: usize,
    /// The handle of the socket to remove from the IP stack.
    pub local: usize,
    /// The source endpoint that the flow belonged to.
    pub endpoint: Endpoint,
}

/// What is to be released for the flow `flow`.
pub open spec fn evicted_of(flow: ConnectionView) -> Evicted {
    Evicted { token: flow.token, local: flow.local, endpoint: flow.endpoint }
}

/// The flows that are idle at `now`, in table order.
pub open spec fn evicted(flows: Seq<ConnectionView>, now: u64) -> Seq<Evicted>
    decreases flows.len(),
{
    if flows.len() == 0 {
        Seq::empty()
    } else if idle(flows.last().last_active, now) {
        evicted(flows.drop_last(), now).push(evicted_of(flows.last()))
    } else {
        evicted(flows.drop_last(), now)
    }
}

/// The sweep keeps exactly the flows that are not idle: every flow kept is
/// a flow of the table that is not idle, and every such flow is kept.
pub proof fn lemma_kept(flows: Seq<ConnectionView>, now: u64)
    ensures
        kept(flows, now).len() + evicted(flows, now).len() == flows.len(),
        forall|i: int|
            0 <= i < kept(flows, now).len() ==> flows.contains(#[trigger] kept(flows, now)[i])
                && !idle(kept(flows, now)[i].last_active, now),
        forall|i: int|
            0 <= i < flows.len() && !idle((#[trigger] flows[i]).last_active, now) ==> kept(
                flows,
                now,
            ).contains(flows[i]),
        forall|i: int|
            0 <= i < flows.len() && idle((#[trigger] flows[i]).last_active, now) ==> evicted(
                flows,
                now,
            ).contains(evicted_of(flows[i])),
    decreases flows.len(),
{
    if flows.len() > 0 {
        let front = flows.drop_last();
        let last = flows.last();
        let k = kept(flows, now);
        let e = evicted(flows, now);
        lemma_kept(front, now);
        assert forall|i: int| 0 <= i < k.len() implies flows.contains(#[trigger] k[i]) && !idle(
            k[i].last_active,
            now,
        ) by {
            if i < kept(front, now).len() {
                assert(front.contains(kept(front, now)[i]));
                let j = choose|j: int| 0 <= j < front.len() && front[j] == kept(front, now)[i];
                assert(flows[j] == k[i]);
            } else {
                assert(flows[flows.len() - 1] == k[i]);
            }
        }
        assert forall|i: int|
            0 <= i < flows.len() && !idle(
                (#[trigger] flows[i]).last_active,
                now,
            ) implies k.contains(flows[i]) by {
            if i < front.len() {
                assert(front[i] == flows[i]);
                assert(kept(front, now).contains(front[i]));
                let j = choose|j: int|
                    0 <= j < kept(front, now).len() && kept(front, now)[j] == front[i];
                assert(k[j] == flows[i]);
            } else {
                assert(k[k.len() - 1] == flows[i]);
            }
        }
        assert forall|i: int|
            0 <= i < flows.len() && idle((#[trigger] flows[i]).last_active, now) implies e.contains(
            evicted_of(flows[i]),
        ) by {
            let x = evicted_of(flows[i]);
            if i < front.len() {
                assert(front[i] == flows[i]);
                assert(evicted(front, now).contains(x));
                let j = choose|j: int|
                    0 <= j < evicted(front, now).len() && evicted(front, now)[j] == x;
                assert(e[j] == x);
            } else {
                assert(e[e.len() - 1] == x);
            }
        }
    }
}

/// The sweep leaves the table in order, and the source endpoint of an
/// evicted flow has no flow any more: its next datagram opens a new one.
pub proof fn lemma_sweep(flows: Seq<ConnectionView>, now: u64)
    requires
        table_wf(flows),
    ensures
        table_wf(kept(flows, now)),
        forall|i: int|
            0 <= i < flows.len() && idle((#[trigger] flows[i]).last_active, now) ==> by_source(
                kept(flows, now),
                flows[i].endpoint,
            ) is None,
        forall|i: int|
            0 <= i < flows.len() && !idle((#[trigger] flows[i]).last_active, now) ==> by_source(
                kept(flows, now),
                flows[i].endpoint,
            ) is Some,
    decreases flows.len(),
{
    let k = kept(flows, now);
    lemma_kept(flows, now);
    if flows.len() > 0 {
        let front = flows.drop_last();
        let last = flows.last();
        assert(table_wf(front)) by {
            assert forall|i: int| 0 <= i < front.len() implies (#[trigger] front[i]).wf()
                && front[i].state != FlowState::Closed by {
                assert(flows[i].wf());
            }
            assert forall|i: int, j: int| 0 <= i < j < front.len() implies front[i].token
                != front[j].token && front[i].endpoint != front[j].endpoint by {
                assert(flows[i].token != flows[j].token);
            }
        }
        lemma_sweep(front, now);
        lemma_kept(front, now);
        let kf = kept(front, now);
        assert forall|i: int, j: int| 0 <= i < j < k.len() implies k[i].token != k[j].token
            && k[i].endpoint != k[j].endpoint by {
            if j == kf.len() {
                assert(front.contains(kf[i]));
                let a = choose|a: int| 0 <= a < front.len() && front[a] == kf[i];
                assert(flows[a].token != flows[flows.len() - 1].token);
            }
        }
        assert forall|i: int| 0 <= i < k.len() implies (#[trigger] k[i]).wf() && k[i].state
            != FlowState::Closed by {
            assert(flows.contains(k[i]));
            let a = choose|a: int| 0 <= a < flows.len() && flows[a] == k[i];
            assert(flows[a].wf());
        }
    }
    assert forall|i: int|
        0 <= i < flows.len() && idle((#[trigger] flows[i]).last_active, now) implies by_source(
        k,
        flows[i].endpoint,
    ) is None by {
        if by_source(k, flows[i].endpoint) is Some {
            let j = by_source(k, flows[i].endpoint)->0;
            assert(flows.contains(k[j]));
            let a = choose|a: int| 0 <= a < flows.len() && flows[a] == k[j];
            if a < i {
                assert(flows[a].endpoint != flows[i].endpoint);
            } else if i < a {
                assert(flows[i].endpoint != flows[a].endpoint);
            }
        }
    }
    assert forall|i: int|
        0 <= i < flows.len() && !idle((#[trigger] flows[i]).last_active, now) implies by_source(
        k,
        flows[i].endpoint,
    ) is Some by {
        assert(k.contains(flows[i]));
        let j = choose|j: int| 0 <= j < k.len() && k[j] == flows[i];
        assert(k[j].endpoint == flows[i].endpoint);
    }
}

/// What became of a datagram handed to the table.
#[derive(Clone, Copy, Debug, PartialEq, Eq)]
pub struct LocalPlan {
    /// The token of the flow that took the datagram, if one did.
    pub token: Option<usize>,
    /// Whether the flow was opened for this datagram: the caller then
    /// acquires a tunnel connection for the token.
    pub opened: bool,
    pub action: LocalAction,
}

/// What an event on a tunnel connection came to.
#[derive(Debug, PartialEq, Eq)]
pub struct FlowReply {
    pub action: FlowAction,
    /// The datagrams to deliver, in order.
    pub delivered: Vec<Datagram>,
    /// The source endpoint to deliver them to, if the token names a flow.
    pub to: Option<Endpoint>,
    /// The handle of the socket to deliver them through, if the token
    /// names a flow.
    pub local: Option<usize>,
    /// Whether the flow left the table.
    pub removed: bool,
}

/// The table of live UDP flows.
pub struct UdpServer {
    conns: Vec<Connection>,
    tokens: TokenAllocator,
    buffer: BytesMut,
}

/// What a [`UdpServer`] holds.
pub struct ServerView {
    /// The live flows, oldest first.
    pub flows: Seq<ConnectionView>,
    /// The allocator of the tokens.
    pub tokens: TokenView,
}

impl View for UdpServer {
    type V = ServerView;

    closed spec fn view(&self) -> ServerView {
        ServerView { flows: flow_views(self.conns@), tokens: self.tokens@ }
    }
}

impl UdpServer {
    /// The table is in order.
    pub open spec fn wf(&self) -> bool {
        table_wf(self@.flows)
    }

    /// An empty table whose tokens come from `tokens`.
    pub fn new(tokens: TokenAllocator) -> (server: UdpServer)
        ensures
            server.wf(),
            server@ == (ServerView { flows: Seq::empty(), tokens: tokens@ }),
    {
        let server = UdpServer { conns: Vec::new(), tokens, buffer: buf_with_capacity(1500) };
        assert(flow_views(server.conns@) =~= Seq::empty());
        server
    }

    /// The number of live flows.
    pub fn len(&self) -> (n: usize)
        ensures
            n == self@.flows.len(),
    {
        self.conns.len()
    }

    fn find_source(&self, source: &Endpoint) -> (r: Option<usize>)
        requires
            self.wf(),
        ensures
            match r {
                Some(i) => by_source(self@.flows, *source) == Some(i as int) && i
                    < self@.flows.len(),
                None => by_source(self@.flows, *source) is None,
            },
    {
        let mut i: usize = 0;
        while i < self.conns.len()
            invariant
                self.wf(),
                i <= self.conns@.len(),
                forall|j: int| 0 <= j < i ==> self@.flows[j].endpoint != *source,
            decreases self.conns@.len() - i,
        {
            let e = self.conns[i].endpoint();
            if e.same(source) {
                proof {
                    let flows = self@.flows;
                    assert(flows[i as int].endpoint == *source);
                    let c = choose|k: int| 0 <= k < flows.len() && flows[k].endpoint == *source;
                    if c < i {
                        assert(flows[c].endpoint != flows[i as int].endpoint);
                    } else if i < c {
                        assert(flows[i as int].endpoint != flows[c].endpoint);
                    }
                }
                return Some(i);
            }
            i += 1;
        }
        None
    }

    fn find_token(&self, token: usize) -> (r: Option<usize>)
        requires
            self.wf(),
        ensures
            match r {
                Some(i) => by_token(self@.flows, token) == Some(i as int) && i < self@.flows.len(),
                None => by_token(self@.flows, token) is None,
            },
    {
        let mut i: usize = 0;
        while i < self.conns.len()
            invariant
                self.wf(),
                i <= self.conns@.len(),
                forall|j: int| 0 <= j < i ==> self@.flows[j].token != token,
            decreases self.conns@.len() - i,
        {
            if self.conns[i].token() == token {
                proof {
                    let flows = self@.flows;
                    assert(flows[i as int].token == token);
                    let c = choose|k: int| 0 <= k < flows.len() && flows[k].token == token;
                    if c < i {
                        assert(flows[c].token != flows[i as int].token);
                    } else if i < c {
                        assert(flows[i as int].token != flows[c].token);
                    }
                }
                return Some(i);
            }
            i += 1;
        }
        None
    }

    /// The token of the flow of `source`, if it has one.
    pub fn token_of_source(&self, source: &Endpoint) -> (token: Option<usize>)
        requires
            self.wf(),
        ensures
            match by_source(self@.flows, *source) {
                Some(i) => token == Some(self@.flows[i].token),
                None => token is None,
            },
    {
        match self.find_source(source) {
            Some(i) => Some(self.conns[i].token()),
            None => None,
        }
    }

    /// Where the flow with the token `token` stands, if there is one.
    pub fn flow_state(&self, token: usize) -> (state: Option<FlowState>)
        requires
            self.wf(),
        ensures
            match by_token(self@.flows, token) {
                Some(i) => state == Some(self@.flows[i].state),
                None => state is None,
            },
    {
        match self.find_token(token) {
            Some(i) => Some(self.conns[i].state()),
            None => None,
        }
    }

    /// The bytes that the caller is to write to the tunnel connection with
    /// the token `token` now. A token without a flow has none.
    pub fn pending(&self, token: usize) -> (bytes: Vec<u8>)
        requires
            self.wf(),
        ensures
            match by_token(self@.flows, token) {
                Some(i) => bytes@ == self@.flows[i].pending(),
                None => bytes@.len() == 0,
            },
    {
        match self.find_token(token) {
            Some(i) => vstd::slice::slice_to_vec(self.conns[i].pending()),
            None => Vec::new(),
        }
    }

    /// Opens a flow for the source endpoint `source`, whose socket in the IP
    /// stack has the handle `local`. The answer is the token for which the
    /// caller acquires a tunnel connection. There is none where the source
    /// has a flow already, and none where the token that is next in turn
    /// still names a live flow; the token is then passed over.
    pub fn new_socket(&mut self, source: Endpoint, local: usize, now: u64) -> (token: Option<
        usize,
    >)
        requires
            old(self).wf(),
        ensures
            final(self).wf(),
            by_source(old(self)@.flows, source) is Some ==> {
                &&& token is None
                &&& final(self)@ == old(self)@
            },
            by_source(old(self)@.flows, source) is None ==> {
                let t = old(self)@.tokens.token() as usize;
                &&& final(self)@.tokens == old(self)@.tokens.advanced()
                &&& by_token(old(self)@.flows, t) is Some ==> {
                    &&& token is None
                    &&& final(self)@.flows == old(self)@.flows
                }
                &&& by_token(old(self)@.flows, t) is None ==> {
                    &&& token == Some(t)
                    &&& final(self)@.flows == old(self)@.flows.push(
                        ConnectionView::fresh(t, local, source, now),
                    )
                }
            },
    {
        if self.find_source(&source).is_some() {
            return None;
        }
        let token = self.tokens.next_token();
        if self.find_token(token).is_some() {
            return None;
        }
        let conn = Connection::new(token, local, source, now);
        proof {
            let before = self@.flows;
            let after = before.push(conn@);
            assert(flow_views(self.conns@.push(conn)) =~= after);
            assert forall|i: int, j: int| 0 <= i < j < after.len() implies after[i].token
                != after[j].token && after[i].endpoint != after[j].endpoint by {
                if j == before.len() {
                    assert(before[i].token != token);
                    assert(before[i].endpoint != source);
                }
            }
        }
        self.conns.push(conn);
        Some(token)
    }

    /// Takes a datagram that the IP stack captured on its way from `source`
    /// to `destination`. The flow of the source is opened if need be and
    /// stamped with `now`; the datagram is framed and handed to it. A
    /// datagram too long for a record is dropped, as is one for which no
    /// flow can be opened.
    pub fn do_local(
        &mut self,
        source: Endpoint,
        local: usize,
        destination: &Endpoint,
        payload: &[u8],
        now: u64,
    ) -> (plan: LocalPlan)
        requires
            old(self).wf(),
        ensures
            final(self).wf(),
            payload@.len() > MAX_DATAGRAM ==> final(self)@ == old(self)@ && plan == (LocalPlan {
                token: None,
                opened: false,
                action: LocalAction::Discarded,
            }),
            payload@.len() <= MAX_DATAGRAM ==> {
                let record = spec_record(
                    RecordView {
                        address: crate::addr::AddressView::of_endpoint(*destination),
                        payload: payload@,
                    },
                );
                match by_source(old(self)@.flows, source) {
                    Some(i) => {
                        let flow = old(self)@.flows[i];
                        &&& final(self)@.tokens == old(self)@.tokens
                        &&& plan.token == Some(flow.token)
                        &&& !plan.opened
                        &&& plan.action == if flow.staged.len() > 0 {
                            LocalAction::Discarded
                        } else if flow.state == FlowState::Associated {
                            LocalAction::Send
                        } else {
                            LocalAction::Cached
                        }
                        &&& final(self)@.flows == old(self)@.flows.update(
                            i,
                            if flow.staged.len() > 0 {
                                ConnectionView { last_active: now, ..flow }
                            } else {
                                ConnectionView {
                                    last_active: now,
                                    staged: record,
                                    record,
                                    ..flow
                                }
                            },
                        )
                    },
                    None => {
                        let t = old(self)@.tokens.token() as usize;
                        &&& final(self)@.tokens == old(self)@.tokens.advanced()
                        &&& by_token(old(self)@.flows, t) is Some ==> {
                            &&& final(self)@.flows == old(self)@.flows
                            &&& plan == (LocalPlan {
                                token: None,
                                opened: false,
                                action: LocalAction::Discarded,
                            })
                        }
                        &&& by_token(old(self)@.flows, t) is None ==> {
                            &&& plan == (LocalPlan {
                                token: Some(t),
                                opened: true,
                                action: LocalAction::Cached,
                            })
                            &&& final(self)@.flows == old(self)@.flows.push(
                                ConnectionView {
                                    staged: record,
                                    record,
                                    ..ConnectionView::fresh(t, local, source, now)
                                },
                            )
                        }
                    },
                }
            },
    {
        let dropped = LocalPlan { token: None, opened: false, action: LocalAction::Discarded };
        if payload.len() > MAX_DATAGRAM {
            return dropped;
        }
        let (index, opened) = match self.find_source(&source) {
            Some(i) => (i, false),
            None => {
                match self.new_socket(source, local, now) {
                    Some(_) => {
                        assert(self@.flows.len() == self.conns@.len());
                        (self.conns.len() - 1, true)
                    },
                    None => {
                        return dropped;
                    },
                }
            },
        };
        let ghost before = self@.flows;
        buf_clear(&mut self.buffer);
        UdpAssociate::generate_endpoint(&mut self.buffer, destination, payload.len() as u16);
        let header = buf_as_slice(&self.buffer);
        let mut conn = self.conns.remove(index);
        assert(conn@ == before[index as int] && before[index as int].wf());
        conn.touch(now);
        let action = conn.do_local(header, payload);
        let token = conn.token();
        proof {
            let record = spec_record(
                RecordView {
                    address: crate::addr::AddressView::of_endpoint(*destination),
                    payload: payload@,
                },
            );
            assert(header@ + payload@ =~= record);
            let after = before.update(index as int, conn@);
            assert(flow_views(self.conns@.insert(index as int, conn)) =~= after);
            assert forall|i: int, j: int| 0 <= i < j < after.len() implies after[i].token
                != after[j].token && after[i].endpoint != after[j].endpoint by {
                assert(before[i].token != before[j].token);
            }
            assert forall|i: int| 0 <= i < after.len() implies (#[trigger] after[i]).wf()
                && after[i].state != FlowState::Closed by {
                assert(before[i].wf());
            }
        }
        self.conns.insert(index, conn);
        LocalPlan { token: Some(token), opened, action }
    }

    /// Takes what the caller reports of the tunnel connection with the
    /// token `token`. The flow of the token takes its step; datagrams that
    /// came in stamp it with `now`; a flow that closed leaves the table. A
    /// token without a flow changes nothing.
    pub fn do_remote(&mut self, token: usize, event: FlowEvent<'_>, now: u64) -> (reply: FlowReply)
        requires
            old(self).wf(),
        ensures
            final(self).wf(),
            final(self)@.tokens == old(self)@.tokens,
            match by_token(old(self)@.flows, token) {
                None => {
                    &&& final(self)@ == old(self)@
                    &&& reply.action == FlowAction::Nothing
                    &&& reply.delivered@.len() == 0
                    &&& reply.to is None
                    &&& reply.local is None
                    &&& !reply.removed
                },
                Some(i) => {
                    let flow = old(self)@.flows[i];
                    let stepped = flow.step(event@);
                    &&& reply.action == stepped.action
                    &&& datagram_views(reply.delivered@) == stepped.delivered
                    &&& reply.to == Some(flow.endpoint)
                    &&& reply.local == Some(flow.local)
                    &&& reply.removed == (stepped.next.state == FlowState::Closed)
                    &&& final(self)@.flows == if stepped.next.state == FlowState::Closed {
                        old(self)@.flows.remove(i)
                    } else if stepped.delivered.len() > 0 {
                        old(self)@.flows.update(
                            i,
                            ConnectionView { last_active: now, ..stepped.next },
                        )
                    } else {
                        old(self)@.flows.update(i, stepped.next)
                    }
                },
            },
    {
        let index = match self.find_token(token) {
            Some(i) => i,
            None => {
                return FlowReply {
                    action: FlowAction::Nothing,
                    delivered: Vec::new(),
                    to: None,
                    local: None,
                    removed: false,
                };
            },
        };
        let ghost before = self@.flows;
        let mut conn = self.conns.remove(index);
        proof {
            assert(flow_views(self.conns@) =~= before.remove(index as int));
            lemma_remove_keeps_order(before, index as int);
        }
        let to = conn.endpoint();
        let local = conn.local();
        let (action, delivered) = conn.do_remote(event);
        if conn.is_closed() {
            return FlowReply { action, delivered, to: Some(to), local: Some(local), removed: true };
        }
        if delivered.len() > 0 {
            conn.touch(now);
        }
        proof {
            assert(datagram_views(delivered@).len() == delivered@.len());
            let after = before.update(index as int, conn@);
            assert(flow_views(self.conns@.insert(index as int, conn)) =~= after);
            assert forall|i: int, j: int| 0 <= i < j < after.len() implies after[i].token
                != after[j].token && after[i].endpoint != after[j].endpoint by {
                assert(before[i].token != before[j].token);
            }
            assert forall|i: int| 0 <= i < after.len() implies (#[trigger] after[i]).wf()
                && after[i].state != FlowState::Closed by {
                assert(before[i].wf());
            }
        }
        self.conns.insert(index, conn);
        FlowReply { action, delivered, to: Some(to), local: Some(local), removed: false }
    }

    /// Takes the flow with the token `token` out of the table, as when no
    /// tunnel connection could be acquired for it. The answer is whether
    /// there was one.
    pub fn remove(&mut self, token: usize) -> (removed: bool)
        requires
            old(self).wf(),
        ensures
            final(self).wf(),
            final(self)@.tokens == old(self)@.tokens,
            match by_token(old(self)@.flows, token) {
                Some(i) => removed && final(self)@.flows == old(self)@.flows.remove(i),
                None => !removed && final(self)@ == old(self)@,
            },
    {
        match self.find_token(token) {
            Some(i) => {
                let ghost before = self@.flows;
                let _ = self.conns.remove(i);
                proof {
                    assert(flow_views(self.conns@) =~= before.remove(i as int));
                    lemma_remove_keeps_order(before, i as int);
                }
                true
            },
            None => false,
        }
    }

    /// The sweep: every flow that saw no datagram for more than
    /// [`IDLE_SECS`] seconds leaves the table. The answer lists what the
    /// caller is to release for each of them.
    pub fn check_timeout(&mut self, now: u64) -> (gone: Vec<Evicted>)
        requires
            old(self).wf(),
        ensures
            final(self).wf(),
            final(self)@.tokens == old(self)@.tokens,
            final(self)@.flows == kept(old(self)@.flows, now),
            gone@ == evicted(old(self)@.flows, now),
            forall|i: int|
                0 <= i < final(self)@.flows.len() ==> !idle(
                    (#[trigger] final(self)@.flows[i]).last_active,
                    now,
                ),
    {
        let ghost before = self@.flows;
        let mut gone: Vec<Evicted> = Vec::new();
        let mut i: usize = 0;
        let ghost mut seen: int = 0;
        proof {
            assert(before.take(0) =~= Seq::empty());
            assert(flow_views(self.conns@) =~= kept(before.take(0), now) + before.skip(0));
        }
        while i < self.conns.len()
            invariant
                before == old(self)@.flows,
                self@.tokens == old(self)@.tokens,
                0 <= seen <= before.len(),
                i == kept(before.take(seen), now).len(),
                self@.flows == kept(before.take(seen), now) + before.skip(seen),
                gone@ == evicted(before.take(seen), now),
            decreases before.len() - seen,
        {
            let conn = &self.conns[i];
            let then = conn.last_active();
            proof {
                assert(self@.flows[i as int] == before[seen]);
                assert(before.take(seen + 1).drop_last() =~= before.take(seen));
                assert(before.take(seen + 1).last() == before[seen]);
            }
            if now > then && now - then > IDLE_SECS {
                let out = Evicted {
                    token: conn.token(),
                    local: conn.local(),
                    endpoint: conn.endpoint(),
                };
                let ghost flows = self@.flows;
                let _ = self.conns.remove(i);
                gone.push(out);
                proof {
                    assert(flow_views(self.conns@) =~= flows.remove(i as int));
                    assert(flows.remove(i as int) =~= kept(before.take(seen + 1), now)
                        + before.skip(seen + 1));
                }
            } else {
                proof {
                    assert(self@.flows =~= kept(before.take(seen + 1), now) + before.skip(
                        seen + 1,
                    ));
                }
                i += 1;
            }
            proof {
                seen = seen + 1;
            }
        }
        proof {
            assert(seen == before.len()) by {
                assert(self@.flows.len() == i);
            }
            assert(before.take(seen) =~= before);
            assert(self@.flows =~= kept(before, now));
            lemma_sweep(before, now);
            lemma_kept(before, now);
        }
        gone
    }
}

/// No two flows of a table in order share a tunnel connection or a source
/// endpoint, and none of them is closed: a flow whose connection is closed
/// is not in the table.
pub proof fn lemma_flows_apart(flows: Seq<ConnectionView>, i: int, j: int)
    requires
        table_wf(flows),
        0 <= i < flows.len(),
        0 <= j < flows.len(),
        i != j,
    ensures
        flows[i].token != flows[j].token,
        flows[i].endpoint != flows[j].endpoint,
        flows[i].state != FlowState::Closed,
        by_token(flows, flows[i].token) == Some(i),
        by_source(flows, flows[i].endpoint) == Some(i),
{
    if i < j {
        assert(flows[i].token != flows[j].token);
    } else {
        assert(flows[j].token != flows[i].token);
    }
    assert(flows[i].wf());
    let t = choose|k: int| 0 <= k < flows.len() && flows[k].token == flows[i].token;
    if t < i {
        assert(flows[t].token != flows[i].token);
    } else if i < t {
        assert(flows[i].token != flows[t].token);
    }
    let e = choose|k: int| 0 <= k < flows.len() && flows[k].endpoint == flows[i].endpoint;
    if e < i {
        assert(flows[e].endpoint != flows[i].endpoint);
    } else if i < e {
        assert(flows[i].endpoint != flows[e].endpoint);
    }
}

/// Taking a flow out of a table in order leaves a table in order.
pub proof fn lemma_remove_keeps_order(flows: Seq<ConnectionView>, index: int)
    requires
        table_wf(flows),
        0 <= index < flows.len(),
    ensures
        table_wf(flows.remove(index)),
{
    let after = flows.remove(index);
    assert forall|i: int| 0 <= i < after.len() implies (#[trigger] after[i]).wf() && after[i].state
        != FlowState::Closed by {
        if i < index {
            assert(flows[i].wf());
        } else {
            assert(flows[i + 1].wf());
        }
    }
    assert forall|i: int, j: int| 0 <= i < j < after.len() implies after[i].token
        != after[j].token && after[i].endpoint != after[j].endpoint by {
        let a = if i < index { i } else { i + 1 };
        let b = if j < index { j } else { j + 1 };
        assert(flows[a].token != flows[b].token);
    }
}

} // verus!
