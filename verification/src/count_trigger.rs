//! A frame counter that gates callbacks on simple conditions.
//!
//! `CountTrigger` wraps a `u64` count; the combinators run a closure when
//! the count is a multiple of `n`, at least a threshold, below one, or
//! exactly one, handing the closure the current count.

use vstd::prelude::*;

verus! {

/// A monotone frame counter with condition-gated callbacks.
#[derive(Debug, Clone, Copy, PartialEq, Eq, PartialOrd, Ord, Hash, Structural)]
pub struct CountTrigger {
    count: u64,
}

impl View for CountTrigger {
    type V = u64;

    closed spec fn view(&self) -> u64 {
        self.count
    }
}

impl CountTrigger {
    /// A counter starting at zero.
    pub fn new() -> (c: Self)
        ensures
            c@ == 0,
    {
        CountTrigger { count: 0 }
    }

    /// The current count.
    #[inline(always)]
    pub fn frame_count(self) -> (n: u64)
        ensures
            n == self@,
    {
        self.count
    }

    /// Overwrite the count.
    #[inline(always)]
    pub fn set_count(&mut self, count: u64)
        ensures
            final (self)@ == count,
    {
        self.count = count;
    }

    /// Advance the count by one and return the new value.
    #[inline(always)]
    pub fn increment(&mut self) -> (n: u64)
        requires
            old(self)@ < u64::MAX,
        ensures
            final (self)@ == old(self)@ + 1,
            n == final (self)@,
    {
        self.count = self.count + 1;
        self.count
    }

    /// Advance the count and return the new value.
    #[inline(always)]
    pub fn add(&mut self, add: u64) -> (n: u64)
        requires
            old(self)@ + add <= u64::MAX,
        ensures
            final (self)@ == old(self)@ + add,
            n == final (self)@,
    {
        self.count = self.count + add;
        self.count
    }

    /// Set the count back to zero.
    #[inline(always)]
    pub fn reset(&mut self)
        ensures
            final (self)@ == 0,
    {
        self.count = 0;
    }

    /// Run `f` with the count exactly when the count is a multiple of
    /// `nth`.
    #[inline(always)]
    pub fn every_nth<R, F: FnOnce(u64) -> R>(self, nth: u64, f: F) -> (r: Option<R>)
        requires
            nth != 0,
            self@ % nth == 0 ==> call_requires(f, (self@,)),
        ensures
            r is Some <==> self@ % nth == 0,
            r matches Some(v) ==> call_ensures(f, (self@,), v),
    {
        if self.count % nth == 0 {
            Some(f(self.count))
        } else {
            None
        }
    }

    /// Run `f` with the count exactly when the count is at least `lhs`.
    #[inline(always)]
    pub fn ge<R, F: FnOnce(u64) -> R>(self, lhs: u64, f: F) -> (r: Option<R>)
        requires
            self@ >= lhs ==> call_requires(f, (self@,)),
        ensures
            r is Some <==> self@ >= lhs,
            r matches Some(v) ==> call_ensures(f, (self@,), v),
    {
        if self.count >= lhs {
            Some(f(self.count))
        } else {
            None
        }
    }

    /// Run `f` with the count exactly when the count is below `lhs`.
    #[inline(always)]
    pub fn lt<R, F: FnOnce(u64) -> R>(self, lhs: u64, f: F) -> (r: Option<R>)
        requires
            self@ < lhs ==> call_requires(f, (self@,)),
        ensures
            r is Some <==> self@ < lhs,
            r matches Some(v) ==> call_ensures(f, (self@,), v),
    {
        if self.count < lhs {
            Some(f(self.count))
        } else {
            None
        }
    }

    /// Run `f` with the count exactly when the count equals `nth`.
    #[inline(always)]
    pub fn nth<R, F: FnOnce(u64) -> R>(self, nth: u64, f: F) -> (r: Option<R>)
        requires
            self@ == nth ==> call_requires(f, (self@,)),
        ensures
            r is Some <==> self@ == nth,
            r matches Some(v) ==> call_ensures(f, (self@,), v),
    {
        if self.count == nth {
            Some(f(self.count))
        } else {
            None
        }
    }
}

} // verus!
