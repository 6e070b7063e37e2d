//! A value that is only refreshed after a configured age has elapsed.

use vstd::prelude::*;

verus! {

/// Wraps a value together with the instant of its last refresh.
///
/// A missing instant means the value was never refreshed and is
/// unconditionally stale.  Timestamps are plain milliseconds supplied by the
/// caller, so all of the gating logic is deterministic.
pub struct Throttle<T> {
    last_update: Option<u64>,
    value: T,
}

impl<T> Throttle<T> {
    /// The wrapped value.
    pub closed spec fn spec_value(self) -> T {
        self.value
    }

    /// The instant of the last successful refresh, if any.
    pub closed spec fn spec_last_update(self) -> Option<u64> {
        self.last_update
    }

    /// Whether a refresh is due at `now_ms` for the given maximum age.
    pub open spec fn spec_stale(self, max_age_ms: u64, now_ms: u64) -> bool {
        match self.spec_last_update() {
            None => true,
            Some(t) => now_ms >= t + max_age_ms,
        }
    }

    /// Creates a new `Throttle` holding `value`, considered fresh at `now_ms`.
    pub fn new(value: T, now_ms: u64) -> (r: Throttle<T>)
        ensures
            r.spec_value() == value,
            r.spec_last_update() == Some(now_ms),
    {
        Throttle { last_update: Some(now_ms), value }
    }

    /// Creates a new `Throttle` holding `value`, considered stale.
    pub fn new_stale(value: T) -> (r: Throttle<T>)
        ensures
            r.spec_value() == value,
            r.spec_last_update() is None,
    {
        Throttle { last_update: None, value }
    }

    /// Read-only access to the wrapped value, available at all times.
    pub fn value(&self) -> (r: &T)
        ensures
            *r == self.spec_value(),
    {
        &self.value
    }

    /// Whether a refresh is due at `now_ms`.
    pub fn stale(&self, max_age_ms: u64, now_ms: u64) -> (r: bool)
        ensures
            r == self.spec_stale(max_age_ms, now_ms),
    {
        match self.last_update {
            None => true,
            Some(t) => now_ms >= t && now_ms - t >= max_age_ms,
        }
    }

    /// Replaces the wrapped value and records `now_ms` as the refresh time.
    pub fn set(&mut self, value: T, now_ms: u64)
        ensures
            final(self).spec_value() == value,
            final(self).spec_last_update() == Some(now_ms),
    {
        self.value = value;
        self.last_update = Some(now_ms);
    }

    /// Runs `f` over the wrapped value only if it is stale at `now_ms`.
    ///
    /// `f` produces a candidate replacement and a success flag.  On success
    /// the replacement is stored and `now_ms` recorded; on failure both the
    /// value and the refresh time are left untouched, so the next attempt
    /// retries immediately.
    pub fn try_refresh<F: FnOnce(&T) -> (T, bool)>(
        &mut self,
        max_age_ms: u64,
        now_ms: u64,
        f: F,
    ) -> (ok: bool)
        requires
            f.requires((&old(self).spec_value(),)),
        ensures
            !old(self).spec_stale(max_age_ms, now_ms) ==> *final(self) == *old(self) && ok,
            old(self).spec_stale(max_age_ms, now_ms) ==> (exists|candidate: T|
                {
                    &&& #[trigger] f.ensures((&old(self).spec_value(),), (candidate, ok))
                    &&& ok ==> final(self).spec_value() == candidate
                        && final(self).spec_last_update() == Some(now_ms)
                    &&& !ok ==> final(self).spec_value() == old(self).spec_value()
                        && final(self).spec_last_update() == old(self).spec_last_update()
                }),
    {
        if self.stale(max_age_ms, now_ms) {
            let (candidate, ok) = f(&self.value);
            if ok {
                self.value = candidate;
                self.last_update = Some(now_ms);
            }
            ok
        } else {
            true
        }
    }
}

/// Throttle gating: once refreshed at `t0`, a throttle is not stale at any
/// instant before `t0 + max_age_ms`, so two refresh attempts within the
/// cache duration of each other trigger at most one.
pub proof fn lemma_throttle_gating<T>(t: Throttle<T>, max_age_ms: u64, t0: u64, t1: u64)
    requires
        t.spec_last_update() == Some(t0),
        t1 < t0 + max_age_ms,
    ensures
        !t.spec_stale(max_age_ms, t1),
{
}

} // verus!
