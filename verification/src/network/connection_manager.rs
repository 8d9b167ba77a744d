//! The life of a connection to one node.

use vstd::prelude::*;

verus! {

/// The first delay between two attempts, in milliseconds.
pub const FIRST_RETRY_MS: u64 = 100;

/// The longest delay between two attempts, in milliseconds.
pub const LAST_RETRY_MS: u64 = 30_000;

/// The first delay between two attempts to reach a seed node, in seconds.
pub const SEED_RETRY_SECS: u64 = 5;

/// The longest delay between two attempts to reach a seed node, in seconds.
pub const SEED_RETRY_CAP_SECS: u64 = 300;

/// Where a connection stands.
#[derive(Clone, Copy, Debug, PartialEq, Eq, Structural)]
pub enum ConnState {
    /// Never connected: connect on first use.
    Fresh,
    /// Connected.
    Connected,
    /// Was connected and dropped: the caller must authenticate anew.
    Down,
}

/// What to do with a connection that is to be used.
#[derive(Clone, Copy, Debug, PartialEq, Eq, Structural)]
pub enum ConnStep {
    /// Connect, then use it.
    Connect,
    /// Use it.
    Use,
    /// Refuse.
    Refuse,
}

impl ConnState {
    /// What to do when the connection is to be used; `closed` says whether a
    /// live one was closed meanwhile.
    pub open spec fn step(self, closed: bool) -> ConnStep {
        match self {
            ConnState::Fresh => ConnStep::Connect,
            ConnState::Connected => if closed {
                ConnStep::Refuse
            } else {
                ConnStep::Use
            },
            ConnState::Down => ConnStep::Refuse,
        }
    }

    /// The state after that decision.
    pub open spec fn after_step(self, closed: bool) -> ConnState {
        if self == ConnState::Connected && closed {
            ConnState::Down
        } else {
            self
        }
    }

    /// Decide what to do when the connection is to be used.
    pub fn use_connection(&mut self, closed: bool) -> (r: ConnStep)
        ensures
            r == old(self).step(closed),
            *final(self) == old(self).after_step(closed),
    {
        match *self {
            ConnState::Fresh => ConnStep::Connect,
            ConnState::Connected => {
                if closed {
                    *self = ConnState::Down;
                    ConnStep::Refuse
                } else {
                    ConnStep::Use
                }
            },
            ConnState::Down => ConnStep::Refuse,
        }
    }

    /// An attempt to connect succeeded.
    pub fn connected(&mut self)
        ensures
            *final(self) == ConnState::Connected,
    {
        *self = ConnState::Connected;
    }

    /// The connection was lost.
    pub fn lost(&mut self)
        ensures
            *final(self) == ConnState::Down,
    {
        *self = ConnState::Down;
    }
}

/// Twice a delay, but no more than the cap.
pub open spec fn doubled(delay: u64, cap: u64) -> u64 {
    if delay * 2 < cap {
        (delay * 2) as u64
    } else {
        cap
    }
}

/// The delay before attempt `n + 2`.
pub open spec fn delay_after(first: u64, cap: u64, n: nat) -> u64
    decreases n,
{
    if n == 0 {
        first
    } else {
        doubled(delay_after(first, cap, (n - 1) as nat), cap)
    }
}

/// Delays between attempts that double up to a cap.
#[derive(Debug)]
pub struct Backoff {
    pub delay: u64,
    pub cap: u64,
}

impl Backoff {
    /// Delays between attempts to reach a node, in milliseconds.
    pub fn for_node() -> (r: Backoff)
        ensures
            r.delay == FIRST_RETRY_MS,
            r.cap == LAST_RETRY_MS,
    {
        Backoff { delay: FIRST_RETRY_MS, cap: LAST_RETRY_MS }
    }

    /// Delays between attempts to reach a seed node, in seconds.
    pub fn for_seed() -> (r: Backoff)
        ensures
            r.delay == SEED_RETRY_SECS,
            r.cap == SEED_RETRY_CAP_SECS,
    {
        Backoff { delay: SEED_RETRY_SECS, cap: SEED_RETRY_CAP_SECS }
    }

    /// The delay after a failure; the next one is twice as long, up to the
    /// cap.
    pub fn next_delay(&mut self) -> (r: u64)
        ensures
            r == old(self).delay,
            final(self).delay == doubled(old(self).delay, old(self).cap),
            final(self).cap == old(self).cap,
    {
        let now: u64 = self.delay;
        self.delay = if self.delay < self.cap / 2 || (self.delay <= self.cap / 2 && self.cap % 2
            != 0) {
            self.delay * 2
        } else {
            self.cap
        };
        now
    }

    /// What to do after attempt `attempt` of `max_attempts` failed: wait for
    /// the given time and try again, or give up.
    pub fn after_failure(&mut self, attempt: u32, max_attempts: u32) -> (r: Option<u64>)
        ensures
            if attempt < max_attempts {
                r == Some(old(self).delay) && final(self).delay == doubled(
                    old(self).delay,
                    old(self).cap,
                ) && final(self).cap == old(self).cap
            } else {
                r is None && *final(self) == *old(self)
            },
    {
        if attempt < max_attempts {
            Some(self.next_delay())
        } else {
            None
        }
    }
}

/// A connection that was lost is never used again without a new one: once
/// down, it stays down.
pub proof fn down_stays_down(closed: bool)
    ensures
        ConnState::Down.step(closed) == ConnStep::Refuse,
        ConnState::Down.after_step(closed) == ConnState::Down,
{
}

/// Delays never shrink and never exceed the cap.
pub proof fn delays_grow_up_to_the_cap(first: u64, cap: u64, n: nat)
    requires
        first <= cap,
    ensures
        delay_after(first, cap, n) <= cap,
        delay_after(first, cap, n) <= delay_after(first, cap, n + 1),
    decreases n,
{
    if n > 0 {
        delays_grow_up_to_the_cap(first, cap, (n - 1) as nat);
    }
}

} // verus!
