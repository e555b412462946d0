//! How long to wait before trying again.

use vstd::prelude::*;

verus! {

/// The longest delay, in seconds.
pub const LONGEST: u64 = 30;

/// The shortest delay of a camera, in seconds.
pub const CAMERA_SHORTEST: u64 = 2;

/// A stream that ran longer than this, in nanoseconds, counts as one that worked.
pub const SETTLED_NANOS: u128 = 60_000_000_000;

/// A delay that doubles with every failure up to a limit, and is short again after a success.
pub struct Backoff {
    first: u64,
    secs: u64,
}

/// Twice the delay, but at most the longest one.
pub open spec fn doubled(secs: u64) -> u64 {
    if 2 * secs < LONGEST {
        (2 * secs) as u64
    } else {
        LONGEST
    }
}

/// The delay after `n` failures.
pub open spec fn delay_after(first: u64, n: nat) -> u64
    decreases n,
{
    if n == 0 {
        first
    } else {
        doubled(delay_after(first, (n - 1) as nat))
    }
}

/// The delay after a stream that ran for some nanoseconds, where the delay was to be `current`.
pub open spec fn wait_after(shortest: u64, current: u64, ran_nanos: u128) -> u64 {
    if ran_nanos > SETTLED_NANOS {
        shortest
    } else {
        current
    }
}

/// The delay that is to follow once streams have run for `runs` nanoseconds, one after the other.
pub open spec fn current_after(shortest: u64, runs: Seq<u128>) -> u64
    decreases runs.len(),
{
    if runs.len() == 0 {
        shortest
    } else {
        doubled(
            wait_after(shortest, current_after(shortest, runs.drop_last()), runs.last()),
        )
    }
}

/// The delay after the run at position `i`, the first of which begins without any before it.
pub open spec fn wait_at(shortest: u64, runs: Seq<u128>, i: int) -> u64 {
    wait_after(shortest, current_after(shortest, runs.take(i)), runs[i])
}

impl Backoff {
    #[verifier::type_invariant]
    spec fn in_range(self) -> bool {
        1 <= self.first <= self.secs <= LONGEST
    }

    /// The delay after a success.
    pub closed spec fn shortest(self) -> u64 {
        self.first
    }

    /// The delay now.
    pub closed spec fn current(self) -> u64 {
        self.secs
    }

    /// The delays of the signaling connection: one second at first.
    pub fn signaling() -> (r: Backoff)
        ensures
            r.shortest() == 1,
            r.current() == 1,
    {
        Backoff { first: 1, secs: 1 }
    }

    /// The delays of a camera: two seconds at first.
    pub fn camera() -> (r: Backoff)
        ensures
            r.shortest() == CAMERA_SHORTEST,
            r.current() == CAMERA_SHORTEST,
    {
        Backoff { first: CAMERA_SHORTEST, secs: CAMERA_SHORTEST }
    }

    /// The delay now, in seconds.
    pub fn delay(&self) -> (r: u64)
        ensures
            r == self.current(),
            1 <= self.shortest() <= r <= LONGEST,
    {
        proof {
            use_type_invariant(self);
        }
        self.secs
    }

    /// Notes a success.
    pub fn succeeded(&mut self)
        ensures
            final(self).shortest() == old(self).shortest(),
            final(self).current() == old(self).shortest(),
    {
        proof {
            use_type_invariant(&*self);
        }
        *self = Backoff { first: self.first, secs: self.first };
    }

    /// Notes a failure.
    pub fn failed(&mut self)
        ensures
            final(self).shortest() == old(self).shortest(),
            final(self).current() == doubled(old(self).current()),
    {
        proof {
            use_type_invariant(&*self);
        }
        let secs: u64 = if self.secs * 2 < LONGEST {
            self.secs * 2
        } else {
            LONGEST
        };
        *self = Backoff { first: self.first, secs };
    }

    /// Notes how a reconnection ended: the delay is short again where there is a connection, and
    /// longer where there is none.
    pub fn reconnected(&mut self, connected: bool)
        ensures
            final(self).shortest() == old(self).shortest(),
            final(self).current() == (if connected {
                old(self).shortest()
            } else {
                doubled(old(self).current())
            }),
    {
        if connected {
            self.succeeded();
        } else {
            self.failed();
        }
    }

    /// Notes the end of a stream that ran for some nanoseconds; gives the delay before the next
    /// one, in seconds. The delay after that one is longer, unless it runs long enough.
    pub fn stream_ended(&mut self, ran_nanos: u128) -> (r: u64)
        ensures
            r == wait_after(old(self).shortest(), old(self).current(), ran_nanos),
            final(self).shortest() == old(self).shortest(),
            final(self).current() == doubled(r),
            1 <= old(self).shortest() <= r <= LONGEST,
    {
        if ran_nanos > SETTLED_NANOS {
            self.succeeded();
        }
        let r: u64 = self.delay();
        self.failed();
        r
    }
}

/// A delay never leaves its range, and never falls below the one before it but for a success.
pub proof fn law_delay_range(first: u64, n: nat)
    requires
        1 <= first <= LONGEST,
    ensures
        first <= delay_after(first, n) <= LONGEST,
        delay_after(first, n) <= delay_after(first, n + 1),
    decreases n,
{
    if n > 0 {
        law_delay_range(first, (n - 1) as nat);
    }
}

/// From the fifth failure on the delay is the longest one.
pub proof fn law_delay_settles(first: u64, n: nat)
    requires
        1 <= first <= LONGEST,
        n >= 5,
    ensures
        delay_after(first, n) == LONGEST,
    decreases n,
{
    if n == 5 {
        reveal_with_fuel(delay_after, 6);
    } else {
        law_delay_settles(first, (n - 1) as nat);
    }
}

/// The delays after a sequence of runs: the first is the shortest one, so is one after a run that
/// was long enough, and every other is twice the one before it but at most the longest one. So
/// none leaves the range from the shortest to the longest.
pub proof fn law_waits(shortest: u64, runs: Seq<u128>, i: int)
    requires
        1 <= shortest <= LONGEST,
        0 <= i < runs.len(),
    ensures
        i == 0 ==> wait_at(shortest, runs, i) == shortest,
        runs[i] > SETTLED_NANOS ==> wait_at(shortest, runs, i) == shortest,
        i > 0 && runs[i] <= SETTLED_NANOS ==> wait_at(shortest, runs, i) == doubled(
            wait_at(shortest, runs, i - 1),
        ),
        shortest <= wait_at(shortest, runs, i) <= LONGEST,
    decreases i,
{
    assert(runs.take(0) =~= Seq::empty());
    if i > 0 {
        law_waits(shortest, runs, i - 1);
        assert(runs.take(i).drop_last() =~= runs.take(i - 1));
        assert(runs.take(i).last() == runs[i - 1]);
    }
}

/// As long as no run is long enough, the delays are those after so many failures: for a camera 2,
/// 4, 8, 16, 30, 30 seconds, and so on.
pub proof fn law_short_runs(shortest: u64, runs: Seq<u128>, i: int)
    requires
        1 <= shortest <= LONGEST,
        0 <= i < runs.len(),
        forall|k: int| 0 <= k <= i ==> #[trigger] runs[k] <= SETTLED_NANOS,
    ensures
        wait_at(shortest, runs, i) == delay_after(shortest, i as nat),
    decreases i,
{
    law_waits(shortest, runs, i);
    if i > 0 {
        law_short_runs(shortest, runs, i - 1);
    }
}

} // verus!
