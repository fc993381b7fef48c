//! The randomness seam: 128-bit identifiers for users and tokens.

use vstd::prelude::*;

use crate::model::UserId;

verus! {

/// Supplies random 128-bit identifiers. Drawing consumes entropy, so the
/// source steps to a new state on every call.
pub trait Random: Sized {
    /// Which draws this source can make: `step(pre, r, post)` holds when a
    /// source in state `pre` may hand out `r` and continue as `post`.
    spec fn step(pre: Self, r: u128, post: Self) -> bool;

    fn uuid(&mut self) -> (r: u128)
        ensures
            Self::step(*old(self), r, *final(self)),
    ;

    fn user_id(&mut self) -> (r: UserId)
        ensures
            Self::step(*old(self), r@, *final(self)),
    ;
}

/// The operating system's entropy source.
#[derive(Clone, Copy, Debug)]
pub struct SystemRandom;

/// Relies on uuid::Uuid::new_v4 for a random 128-bit identifier; nothing
/// is assumed of the value.
#[verifier::external_body]
fn os_random_id() -> u128 {
    uuid::Uuid::new_v4().as_u128()
}

impl Random for SystemRandom {
    open spec fn step(pre: Self, r: u128, post: Self) -> bool {
        true
    }

    fn uuid(&mut self) -> (r: u128)
        ensures
            Self::step(*old(self), r, *final(self)),
    {
        os_random_id()
    }

    fn user_id(&mut self) -> (r: UserId)
        ensures
            Self::step(*old(self), r@, *final(self)),
    {
        UserId(self.uuid())
    }
}

/// A source that replays a fixed list of draws, for deterministic tests.
/// Once the list is exhausted it keeps returning zero.
#[derive(Clone, Debug)]
pub struct SequenceRandom {
    pub draws: Vec<u128>,
    pub next: usize,
}

impl SequenceRandom {
    pub fn new(draws: Vec<u128>) -> (r: SequenceRandom)
        ensures
            r.draws == draws,
            r.next == 0,
    {
        SequenceRandom { draws, next: 0 }
    }
}

impl Random for SequenceRandom {
    open spec fn step(pre: Self, r: u128, post: Self) -> bool {
        &&& post.draws == pre.draws
        &&& if pre.next < pre.draws@.len() {
            r == pre.draws@[pre.next as int] && post.next == pre.next + 1
        } else {
            r == 0 && post.next == pre.next
        }
    }

    fn uuid(&mut self) -> (r: u128)
        ensures
            Self::step(*old(self), r, *final(self)),
    {
        if self.next < self.draws.len() {
            let r = self.draws[self.next];
            self.next = self.next + 1;
            r
        } else {
            0
        }
    }

    fn user_id(&mut self) -> (r: UserId)
        ensures
            Self::step(*old(self), r@, *final(self)),
    {
        UserId(self.uuid())
    }
}

} // verus!
