//! The time of each sender's last accepted message, and the rule that says
//! when a further message comes too soon after it.

use std::collections::HashMap;
use vstd::prelude::*;

verus! {

/// Whether a message at `timestamp` falls into the window of `delay` after a
/// message accepted at `last`. The end of the window is part of it.
pub open spec fn within_window(last: i32, delay: i64, timestamp: i32) -> bool {
    last + delay >= timestamp
}

/// Whether a message of `sender` at `timestamp` is to be throttled, given the
/// times recorded in `accepted`: only where a time is recorded for `sender`,
/// and the message falls into the window after it.
pub open spec fn throttles(
    accepted: Map<i64, i32>,
    sender: i64,
    timestamp: i32,
    delay: i64,
) -> bool {
    accepted.contains_key(sender) && within_window(accepted[sender], delay, timestamp)
}

/// The last accepted message time of each sender. An entry is made with the
/// first accepted message of a sender and replaced with every further one;
/// none is ever taken out.
///
/// A limiter is made to be shared behind a lock. Where that lock is found
/// poisoned, `poison` says so to the limiter: from then on the table reads
/// as empty and takes no more entries.
pub struct RateLimiter {
    accepted: HashMap<i64, i32>,
    poisoned: bool,
}

impl View for RateLimiter {
    type V = Map<i64, i32>;

    /// The times that a reader finds.
    closed spec fn view(&self) -> Map<i64, i32> {
        if self.poisoned {
            Map::empty()
        } else {
            self.accepted@
        }
    }
}

impl RateLimiter {
    /// Whether the table is out of reach.
    pub closed spec fn is_poisoned(&self) -> bool {
        self.poisoned
    }

    /// A table without entries.
    pub fn new() -> (r: Self)
        ensures
            r@ == Map::<i64, i32>::empty(),
            !r.is_poisoned(),
    {
        RateLimiter { accepted: HashMap::new(), poisoned: false }
    }

    /// The time of the last accepted message of `sender`, if one is recorded.
    pub fn last_accepted(&self, sender: i64) -> (r: Option<i32>)
        ensures
            r == if self@.contains_key(sender) {
                Some(self@[sender])
            } else {
                None
            },
    {
        if self.poisoned {
            return None;
        }
        match self.accepted.get(&sender) {
            Some(last) => Some(*last),
            None => None,
        }
    }

    /// Whether a message of `sender` at `timestamp` is to be throttled. The
    /// table is left as it is: a throttled message does not move the window.
    pub fn check_and_should_throttle(&self, sender: i64, timestamp: i32, delay: i64) -> (r: bool)
        ensures
            r == throttles(self@, sender, timestamp, delay),
    {
        match self.last_accepted(sender) {
            Some(last) => delay >= timestamp as i64 - last as i64,
            None => false,
        }
    }

    /// Records `timestamp` as the time of the last accepted message of
    /// `sender`, whatever was recorded before.
    pub fn record_accepted(&mut self, sender: i64, timestamp: i32)
        ensures
            final(self).is_poisoned() == old(self).is_poisoned(),
            final(self)@ == if old(self).is_poisoned() {
                old(self)@
            } else {
                old(self)@.insert(sender, timestamp)
            },
    {
        if !self.poisoned {
            self.accepted.insert(sender, timestamp);
        }
    }

    /// Puts the table out of reach, for good.
    pub fn poison(&mut self)
        ensures
            final(self).is_poisoned(),
            final(self)@ == Map::<i64, i32>::empty(),
    {
        self.poisoned = true;
    }

    /// Whether the table is out of reach.
    pub fn poisoned(&self) -> (r: bool)
        ensures
            r == self.is_poisoned(),
    {
        self.poisoned
    }
}

/// A message at the very end of the window is throttled, one a tick later is
/// not.
pub proof fn lemma_window_boundary(
    accepted: Map<i64, i32>,
    sender: i64,
    delay: i64,
    at_end: i32,
    after_end: i32,
)
    requires
        accepted.contains_key(sender),
        at_end == accepted[sender] + delay,
        after_end == at_end + 1,
    ensures
        throttles(accepted, sender, at_end, delay),
        !throttles(accepted, sender, after_end, delay),
{
}

/// A sender without a recorded time is never throttled.
pub proof fn lemma_first_message_passes(
    accepted: Map<i64, i32>,
    sender: i64,
    timestamp: i32,
    delay: i64,
)
    requires
        !accepted.contains_key(sender),
    ensures
        !throttles(accepted, sender, timestamp, delay),
{
}

} // verus!
