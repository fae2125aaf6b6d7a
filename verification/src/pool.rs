//! The pool of tunnel connections that are opened ahead of need: which of
//! them are idle, which one a new flow gets, and how long to wait before
//! the relay is tried again after it could not be reached.
//!
//! The pool holds tokens, not sockets: the caller opens and closes the
//! connections and tells the pool.

use vstd::prelude::*;

verus! {

/// The wait before the first retry, in milliseconds.
pub const BACKOFF_START_MS: u64 = 100;

/// The longest wait between two retries, in milliseconds.
pub const BACKOFF_CAP_MS: u64 = 30000;

/// The time a connection attempt may take, in milliseconds.
pub const CONNECT_TIMEOUT_MS: u64 = 10000;

/// The wait that follows the wait `delay`: twice as long, up to the cap.
pub open spec fn next_delay(delay: u64) -> u64 {
    if delay * 2 >= BACKOFF_CAP_MS {
        BACKOFF_CAP_MS
    } else {
        (delay * 2) as u64
    }
}

/// The pool of idle tunnel connections.
pub struct IdlePool {
    size: usize,
    idle: Vec<usize>,
    delay: u64,
}

/// What an [`IdlePool`] holds.
pub struct PoolView {
    /// The number of idle connections that the pool aims for.
    pub size: usize,
    /// The tokens of the idle connections, oldest first.
    pub idle: Seq<usize>,
    /// The wait before the next retry, in milliseconds.
    pub delay: u64,
}

impl PoolView {
    /// No connection is idle twice, the pool is not over its size, and the
    /// wait lies between its start and its cap.
    pub open spec fn wf(self) -> bool {
        &&& self.idle.len() <= self.size
        &&& self.idle.no_duplicates()
        &&& BACKOFF_START_MS <= self.delay <= BACKOFF_CAP_MS
    }
}

impl View for IdlePool {
    type V = PoolView;

    closed spec fn view(&self) -> PoolView {
        PoolView { size: self.size, idle: self.idle@, delay: self.delay }
    }
}

impl IdlePool {
    /// An empty pool that aims for `size` idle connections.
    pub fn new(size: usize) -> (pool: IdlePool)
        ensures
            pool@.wf(),
            pool@ == (PoolView { size, idle: Seq::empty(), delay: BACKOFF_START_MS }),
    {
        IdlePool { size, idle: Vec::new(), delay: BACKOFF_START_MS }
    }

    /// The number of connections that the refill still has to open.
    pub fn missing(&self) -> (n: usize)
        requires
            self@.wf(),
        ensures
            n == self@.size - self@.idle.len(),
    {
        self.size - self.idle.len()
    }

    /// Hands out the idle connection that has waited longest. With none
    /// idle the answer is `None`: the caller opens a connection itself and
    /// the flow waits for it. A connection handed out never returns to the
    /// pool.
    pub fn acquire(&mut self) -> (token: Option<usize>)
        requires
            old(self)@.wf(),
        ensures
            final(self)@.wf(),
            old(self)@.idle.len() == 0 ==> token is None && final(self)@ == old(self)@,
            old(self)@.idle.len() > 0 ==> token == Some(old(self)@.idle[0]) && final(self)@ == (
            PoolView { idle: old(self)@.idle.drop_first(), ..old(self)@ })
                && !final(self)@.idle.contains(old(self)@.idle[0]),
    {
        if self.idle.len() == 0 {
            return None;
        }
        let token = self.idle.remove(0);
        proof {
            let before = old(self)@.idle;
            assert(self.idle@ =~= before.drop_first());
            let after = self.idle@;
            assert forall|i: int, j: int|
                0 <= i < after.len() && 0 <= j < after.len() && i != j implies after[i]
                != after[j] by {
                assert(before[i + 1] != before[j + 1]);
            }
            if self.idle@.contains(token) {
                let k = choose|k: int| 0 <= k < self.idle@.len() && self.idle@[k] == token;
                assert(before[k + 1] != before[0]);
            }
        }
        Some(token)
    }

    /// The refill opened the connection `token`. It joins the idle ones,
    /// unless the pool is full or holds the token already, and the wait
    /// before a retry starts over. The answer is whether it joined; a
    /// connection that did not is the caller's to close.
    pub fn on_opened(&mut self, token: usize) -> (joined: bool)
        requires
            old(self)@.wf(),
        ensures
            final(self)@.wf(),
            joined == (old(self)@.idle.len() < old(self)@.size && !old(self)@.idle.contains(token)),
            final(self)@ == (PoolView {
                idle: if joined {
                    old(self)@.idle.push(token)
                } else {
                    old(self)@.idle
                },
                delay: BACKOFF_START_MS,
                ..old(self)@
            }),
    {
        self.delay = BACKOFF_START_MS;
        if self.idle.len() >= self.size || self.holds(token) {
            return false;
        }
        proof {
            let after = self.idle@.push(token);
            assert forall|i: int, j: int|
                0 <= i < after.len() && 0 <= j < after.len() && i != j implies after[i]
                != after[j] by {
                if i == self.idle@.len() {
                    assert(self.idle@[j] != token);
                } else if j == self.idle@.len() {
                    assert(self.idle@[i] != token);
                }
            }
        }
        self.idle.push(token);
        true
    }

    /// Whether the connection `token` is idle in the pool.
    pub fn holds(&self, token: usize) -> (r: bool)
        ensures
            r == self@.idle.contains(token),
    {
        let mut i: usize = 0;
        while i < self.idle.len()
            invariant
                i <= self.idle@.len(),
                forall|j: int| 0 <= j < i ==> self.idle@[j] != token,
            decreases self.idle@.len() - i,
        {
            if self.idle[i] == token {
                return true;
            }
            i += 1;
        }
        false
    }

    /// The relay could not be reached. The answer is the number of
    /// milliseconds to wait before the next attempt; the wait after that
    /// is twice as long, up to the cap.
    pub fn on_open_failed(&mut self) -> (wait: u64)
        requires
            old(self)@.wf(),
        ensures
            final(self)@.wf(),
            wait == old(self)@.delay,
            final(self)@ == (PoolView { delay: next_delay(old(self)@.delay), ..old(self)@ }),
    {
        let wait = self.delay;
        self.delay = if wait * 2 >= BACKOFF_CAP_MS {
            BACKOFF_CAP_MS
        } else {
            wait * 2
        };
        wait
    }

    /// The idle connection `token` was lost: the relay closed it, or it
    /// failed. It leaves the pool; the answer is whether the pool held it.
    pub fn on_closed(&mut self, token: usize) -> (held: bool)
        requires
            old(self)@.wf(),
        ensures
            final(self)@.wf(),
            held == old(self)@.idle.contains(token),
            !final(self)@.idle.contains(token),
            final(self)@.size == old(self)@.size,
            final(self)@.delay == old(self)@.delay,
            !held ==> final(self)@.idle == old(self)@.idle,
            held ==> exists|i: int|
                0 <= i < old(self)@.idle.len() && old(self)@.idle[i] == token
                    && final(self)@.idle == old(self)@.idle.remove(i),
    {
        let ghost before = self.idle@;
        let mut i: usize = 0;
        while i < self.idle.len()
            invariant
                self@.size == old(self)@.size,
                self@.delay == old(self)@.delay,
                before == old(self)@.idle,
                old(self)@.wf(),
                i <= self.idle@.len(),
                self.idle@ == before,
                forall|j: int| 0 <= j < i ==> self.idle@[j] != token,
            decreases self.idle@.len() - i,
        {
            if self.idle[i] == token {
                let _ = self.idle.remove(i);
                proof {
                    let after = self.idle@;
                    assert(after =~= before.remove(i as int));
                    assert forall|a: int, b: int|
                        0 <= a < after.len() && 0 <= b < after.len() && a != b implies after[a]
                        != after[b] by {
                        let x = if a < i { a } else { a + 1 };
                        let y = if b < i { b } else { b + 1 };
                        assert(before[x] != before[y]);
                    }
                    assert forall|a: int| 0 <= a < after.len() implies after[a] != token by {
                        let x = if a < i { a } else { a + 1 };
                        assert(before[x] != before[i as int]);
                    }
                }
                return true;
            }
            i += 1;
        }
        false
    }
}

} // verus!
