//! Deadlines of queries.

use std::time::Instant;

use vstd::prelude::*;

use crate::rqe_iterator::RQEIteratorError;

verus! {

/// `std::time::Instant`, a reading of the monotonic clock. Nothing is known of what is inside.
#[verifier::external_type_specification]
#[verifier::external_body]
pub struct ExInstant(std::time::Instant);

/// `Instant::now` reads the clock. Nothing is claimed of the reading.
pub assume_specification[ Instant::now ]() -> Instant
;

/// Calls `Instant::elapsed` and gives the time that it returns in nanoseconds.
///
/// The result hangs on the clock alone, so nothing is claimed of it.
#[verifier::external_body]
fn nanos_since(start: &Instant) -> (nanos: u128) {
    start.elapsed().as_nanos()
}

/// When asked for the time since `start`, the clock can give `nanos` nanoseconds.
pub closed spec fn clock_gives(start: Instant, nanos: u128) -> bool {
    call_ensures(nanos_since, (&start,), nanos)
}

/// When asked for the time since `start`, the clock can give less than `timeout` nanoseconds.
pub open spec fn clock_can_be_in_front(start: Instant, timeout: u128) -> bool {
    exists|nanos: u128| #[trigger] clock_gives(start, nanos) && nanos < timeout
}

/// When asked for the time since `start`, the clock can give `timeout` nanoseconds or more.
pub open spec fn clock_can_be_at_or_behind(start: Instant, timeout: u128) -> bool {
    exists|nanos: u128| #[trigger] clock_gives(start, nanos) && nanos >= timeout
}

/// Tracks a deadline, and looks at the clock only once in so many checks.
///
/// The deadline lies a fixed time after the moment when the context was made.
pub struct TimeoutContext {
    start: Instant,
    timeout_nanos: u128,
    counter: u32,
    limit: u32,
    checked: Ghost<nat>,
}

impl TimeoutContext {
    #[verifier::type_invariant]
    spec fn inv(self) -> bool {
        self.counter < self.limit
    }

    /// The time from the start to the deadline, in nanoseconds.
    pub closed spec fn timeout(&self) -> u128 {
        self.timeout_nanos
    }

    /// How many checks have been made since the last look at the clock or the last reset.
    pub closed spec fn count(&self) -> nat {
        self.counter as nat
    }

    /// The number of checks that leads to a look at the clock.
    pub closed spec fn granularity(&self) -> nat {
        self.limit as nat
    }

    /// How many checks have been made in all.
    pub closed spec fn checks(&self) -> nat {
        self.checked@
    }

    /// The reading of the clock from which the deadline counts.
    pub closed spec fn started(&self) -> Instant {
        self.start
    }

    /// The two differ in how many checks have been made at most.
    pub open spec fn same_deadline(&self, other: &TimeoutContext) -> bool {
        &&& self.started() == other.started()
        &&& self.timeout() == other.timeout()
        &&& self.granularity() == other.granularity()
    }

    /// The clock can give a time that has not reached the deadline.
    #[verifier::inline]
    pub open spec fn can_be_early(&self) -> bool {
        clock_can_be_in_front(self.started(), self.timeout())
    }

    /// The clock can give a time that has reached or exceeded the deadline.
    #[verifier::inline]
    pub open spec fn can_be_late(&self) -> bool {
        clock_can_be_at_or_behind(self.started(), self.timeout())
    }

    /// The deadline has passed: every time that the clock gives has reached or exceeded it.
    pub open spec fn has_passed(&self) -> bool {
        !self.can_be_early()
    }

    /// The count after one more check.
    pub open spec fn next_count(&self) -> nat {
        if self.count() + 1 < self.granularity() {
            self.count() + 1
        } else {
            0
        }
    }

    /// A context whose deadline lies `timeout_nanos` nanoseconds from now,
    /// and which looks at the clock at every check number `limit`.
    pub fn new(timeout_nanos: u128, limit: u32) -> (ctx: TimeoutContext)
        requires
            limit > 0,
        ensures
            ctx.timeout() == timeout_nanos,
            ctx.granularity() == limit,
            ctx.count() == 0,
            ctx.checks() == 0,
            call_ensures(Instant::now, (), ctx.started()),
    {
        TimeoutContext {
            start: Instant::now(),
            timeout_nanos,
            counter: 0,
            limit,
            checked: Ghost(0),
        }
    }

    /// Counts one check. At every check number `limit` the count starts anew
    /// and the clock decides: the check fails if and only if the time since the start that the
    /// clock gives has reached or exceeded the deadline.
    pub fn check_timeout(&mut self) -> (r: Result<(), RQEIteratorError>)
        ensures
            old(self).same_deadline(final(self)),
            final(self).count() == old(self).next_count(),
            final(self).checks() == old(self).checks() + 1,
            old(self).count() + 1 < old(self).granularity() ==> r is Ok,
            old(self).count() + 1 >= old(self).granularity() ==> exists|nanos: u128| #[trigger]
                clock_gives(old(self).started(), nanos) && (r is Err <==> nanos
                    >= old(self).timeout()),
            r matches Err(error) ==> error == RQEIteratorError::TimedOut,
    {
        proof {
            use_type_invariant(&*self);
        }
        self.checked = Ghost(self.checked@ + 1);
        if self.counter + 1 < self.limit {
            self.counter = self.counter + 1;
            Ok(())
        } else {
            let elapsed_nanos: u128 = nanos_since(&self.start);
            assert(clock_gives(self.started(), elapsed_nanos));
            self.check_elapsed(elapsed_nanos)
        }
    }

    /// Starts the count anew, and fails if a deadline that was set
    /// `elapsed_nanos` nanoseconds ago has been reached or exceeded.
    pub fn check_elapsed(&mut self, elapsed_nanos: u128) -> (r: Result<(), RQEIteratorError>)
        ensures
            old(self).same_deadline(final(self)),
            final(self).count() == 0,
            final(self).checks() == old(self).checks(),
            elapsed_nanos >= old(self).timeout() ==> r == Err::<(), _>(RQEIteratorError::TimedOut),
            elapsed_nanos < old(self).timeout() ==> r is Ok,
    {
        proof {
            use_type_invariant(&*self);
        }
        self.counter = 0;
        if elapsed_nanos >= self.timeout_nanos {
            Err(RQEIteratorError::TimedOut)
        } else {
            Ok(())
        }
    }

    /// Starts the count anew.
    pub fn reset_counter(&mut self)
        ensures
            old(self).same_deadline(final(self)),
            final(self).count() == 0,
            final(self).checks() == old(self).checks(),
    {
        proof {
            use_type_invariant(&*self);
        }
        self.counter = 0;
    }
}

/// The clock gives the very number of nanoseconds that it returns when it is asked.
proof fn law_clock_gives_what_it_returns(start: Instant, nanos: u128)
    ensures
        clock_gives(start, nanos) <==> call_ensures(nanos_since, (&start,), nanos),
{
}

/// A check that looks at the clock asks it for the time since the start of the context, and
/// compares the very number of nanoseconds that it returns with the deadline: the check fails
/// if and only if the deadline has been reached or exceeded.
proof fn law_look_at_the_clock_decides()
    ensures
        forall|ctx: &mut TimeoutContext, r: Result<(), RQEIteratorError>| #[trigger]
            call_ensures(TimeoutContext::check_timeout, (ctx,), r) && ctx.count() + 1
                >= ctx.granularity() ==> exists|nanos: u128| #[trigger]
                call_ensures(nanos_since, (&ctx.started(),), nanos) && if nanos >= ctx.timeout() {
                    r == Err::<(), _>(RQEIteratorError::TimedOut)
                } else {
                    r is Ok
                },
{
    assert forall|ctx: &mut TimeoutContext, r: Result<(), RQEIteratorError>| #[trigger]
        call_ensures(TimeoutContext::check_timeout, (ctx,), r) && ctx.count() + 1
            >= ctx.granularity() implies exists|nanos: u128| #[trigger]
        call_ensures(nanos_since, (&ctx.started(),), nanos) && if nanos >= ctx.timeout() {
            r == Err::<(), _>(RQEIteratorError::TimedOut)
        } else {
            r is Ok
        } by {
        let nanos = choose|nanos: u128| #[trigger]
            clock_gives(ctx.started(), nanos) && (r is Err <==> nanos >= ctx.timeout());
        law_clock_gives_what_it_returns(ctx.started(), nanos);
        assert(call_ensures(nanos_since, (&ctx.started(),), nanos));
    }
}

/// A new context looks at the clock at check number `limit`, and its deadline lies
/// `timeout_nanos` nanoseconds behind the reading of the clock at its start.
pub proof fn law_new_context_starts_now()
    ensures
        forall|timeout_nanos: u128, limit: u32, ctx: TimeoutContext| #[trigger]
            call_ensures(TimeoutContext::new, (timeout_nanos, limit), ctx) ==> {
                &&& ctx.timeout() == timeout_nanos
                &&& ctx.granularity() == limit
                &&& ctx.count() == 0
                &&& ctx.checks() == 0
                &&& call_ensures(Instant::now, (), ctx.started())
            },
{
}

/// A check counts itself, and neither moves the deadline nor the start. Only a check that
/// completes the count looks at the clock, and starts the count anew; no other check fails.
pub proof fn law_check_counts_itself()
    ensures
        forall|ctx: &mut TimeoutContext, r: Result<(), RQEIteratorError>| #[trigger]
            call_ensures(TimeoutContext::check_timeout, (ctx,), r) ==> {
                &&& final(ctx).started() == ctx.started()
                &&& final(ctx).timeout() == ctx.timeout()
                &&& final(ctx).granularity() == ctx.granularity()
                &&& ctx.count() + 1 < ctx.granularity() ==> r is Ok && final(ctx).count()
                    == ctx.count() + 1
                &&& ctx.count() + 1 >= ctx.granularity() ==> final(ctx).count() == 0
                &&& final(ctx).checks() == ctx.checks() + 1
                &&& r matches Err(error) ==> error == RQEIteratorError::TimedOut
            },
{
}

/// The deadline counts as passed from the moment when it is reached.
pub proof fn law_deadline_is_reached_or_not()
    ensures
        forall|ctx: &mut TimeoutContext, elapsed: u128, r: Result<(), RQEIteratorError>| #[trigger]
            call_ensures(TimeoutContext::check_elapsed, (ctx, elapsed), r) ==> {
                &&& final(ctx).started() == ctx.started()
                &&& final(ctx).timeout() == ctx.timeout()
                &&& final(ctx).granularity() == ctx.granularity()
                &&& final(ctx).count() == 0
                &&& final(ctx).checks() == ctx.checks()
                &&& elapsed < ctx.timeout() ==> r is Ok
                &&& elapsed >= ctx.timeout() ==> r == Err::<(), _>(RQEIteratorError::TimedOut)
            },
{
}

/// A reset starts the count anew, and leaves the deadline and the start alone.
pub proof fn law_reset_leaves_the_deadline_alone()
    ensures
        forall|ctx: &mut TimeoutContext| #[trigger]
            call_ensures(TimeoutContext::reset_counter, (ctx,), ()) ==> {
                &&& final(ctx).started() == ctx.started()
                &&& final(ctx).timeout() == ctx.timeout()
                &&& final(ctx).granularity() == ctx.granularity()
                &&& final(ctx).count() == 0
                &&& final(ctx).checks() == ctx.checks()
            },
{
}

/// Contexts of the same deadline have the same start, the same timeout and the same granularity.
pub proof fn law_same_deadline(a: TimeoutContext, b: TimeoutContext)
    ensures
        a.same_deadline(&b) <==> a.started() == b.started() && a.timeout() == b.timeout()
            && a.granularity() == b.granularity(),
{
}

/// The count goes up by one, and starts anew when it is complete.
pub proof fn law_next_count(ctx: TimeoutContext)
    ensures
        ctx.count() + 1 < ctx.granularity() ==> ctx.next_count() == ctx.count() + 1,
        ctx.count() + 1 >= ctx.granularity() ==> ctx.next_count() == 0,
{
}

/// A deadline has passed if and only if the clock gives no time in front of it.
/// Whatever the clock gives, it is either in front of the deadline or not.
pub proof fn law_passed_deadline(ctx: TimeoutContext)
    ensures
        ctx.has_passed() <==> forall|nanos: u128| #[trigger]
            clock_gives(ctx.started(), nanos) ==> nanos >= ctx.timeout(),
        ctx.can_be_early() <==> exists|nanos: u128| #[trigger]
            clock_gives(ctx.started(), nanos) && nanos < ctx.timeout(),
        ctx.can_be_late() <==> exists|nanos: u128| #[trigger]
            clock_gives(ctx.started(), nanos) && nanos >= ctx.timeout(),
        ctx.timeout() == 0 ==> ctx.has_passed(),
{
}

/// A context can be made for every timeout and every number of checks but 0, and be asked
/// at every moment.
pub proof fn law_context_can_be_asked()
    ensures
        forall|timeout_nanos: u128, limit: u32|
            limit > 0 ==> #[trigger] call_requires(TimeoutContext::new, (timeout_nanos, limit)),
        forall|ctx: &mut TimeoutContext| #[trigger]
            call_requires(TimeoutContext::check_timeout, (ctx,)),
        forall|ctx: &mut TimeoutContext, elapsed_nanos: u128| #[trigger]
            call_requires(TimeoutContext::check_elapsed, (ctx, elapsed_nanos)),
        forall|ctx: &mut TimeoutContext| #[trigger]
            call_requires(TimeoutContext::reset_counter, (ctx,)),
{
}

} // verus!
