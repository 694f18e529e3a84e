//! The sequential negation of an iterator.

use vstd::prelude::*;

use crate::empty::empty_cursor;
use crate::index_result::{t_docId, RSIndexResult, Weight, RS_FIELDMASK_ALL};
use crate::maybe_empty::MaybeEmpty;
use crate::rqe_iterator::{
    after_id, from_id, is_first, Cursor, RQEIterator, RQEIteratorError, RQEValidateStatus,
    Revalidation, SkipToOutcome,
};
use crate::timeout::TimeoutContext;

verus! {

/// How many checks of the deadline lead to one look at the clock.
pub const TIMEOUT_GRANULARITY: u32 = 5_000;

/// The ids from 1 to `max_doc_id` that are not in `docs`.
pub open spec fn complement(docs: Set<t_docId>, max_doc_id: t_docId) -> Set<t_docId> {
    Set::new(|d: t_docId| 1 <= d <= max_doc_id && !docs.contains(d))
}

/// Up to `max_doc_id` there are at most `max_doc_id` ids.
pub proof fn lemma_complement_is_bounded(docs: Set<t_docId>, max_doc_id: t_docId)
    ensures
        complement(docs, max_doc_id).finite(),
        complement(docs, max_doc_id).len() <= max_doc_id,
    decreases max_doc_id,
{
    if max_doc_id == 0 {
        assert(complement(docs, max_doc_id) =~= Set::<t_docId>::empty());
    } else {
        let before = complement(docs, (max_doc_id - 1) as t_docId);
        lemma_complement_is_bounded(docs, (max_doc_id - 1) as t_docId);
        if docs.contains(max_doc_id) {
            assert(complement(docs, max_doc_id) =~= before);
        } else {
            assert(complement(docs, max_doc_id) =~= before.insert(max_doc_id));
        }
    }
}

/// An iterator that negates the results of its child iterator.
///
/// Yields all document ids from 1 to `max_doc_id` (inclusive) that are **not**
/// present in the child iterator.
pub struct Not<I> {
    /// The child iterator whose results are negated.
    child: MaybeEmpty<I>,
    /// The child has answered that nothing is left, so the place where it stands
    /// need not be a document of it.
    child_ran_out: bool,
    /// The maximum document id to iterate up to (inclusive).
    max_doc_id: t_docId,
    /// Set to `true` when the deadline was found to have passed,
    /// and reset to `false` by `rewind`.
    forced_eof: bool,
    /// The result that is handed out, one object for all documents.
    result: RSIndexResult,
    /// Tracks the deadline of this iterator, for its whole life: `rewind` does not reset it.
    timeout_ctx: Option<TimeoutContext>,
}

impl<I> Not<I> {
    /// The child, if there is one.
    pub closed spec fn held(&self) -> MaybeEmpty<I> {
        self.child
    }

    /// The child has answered that nothing is left.
    pub closed spec fn drained(&self) -> bool {
        self.child_ran_out
    }

    /// The largest id that the iterator goes up to.
    pub closed spec fn max(&self) -> t_docId {
        self.max_doc_id
    }

    /// The deadline has been found to have passed since the last `rewind`.
    pub closed spec fn timed_out(&self) -> bool {
        self.forced_eof
    }

    /// The result object as it is now.
    pub closed spec fn record(&self) -> RSIndexResult {
        self.result
    }

    /// The deadline, if one is enforced.
    pub closed spec fn deadline(&self) -> Option<TimeoutContext> {
        self.timeout_ctx
    }

    /// The id where the iterator stands.
    pub open spec fn place(&self) -> t_docId {
        self.record().doc_id
    }

    /// The two have the same bounds, the same deadline, and a child or none.
    pub open spec fn same_setup(&self, other: &Not<I>) -> bool {
        &&& self.max() == other.max()
        &&& self.held().iterator is Some <==> other.held().iterator is Some
        &&& match (self.deadline(), other.deadline()) {
            (Some(a), Some(b)) => a.same_deadline(&b),
            (None, None) => true,
            _ => false,
        }
    }
}

impl<I: RQEIterator> Not<I> {
    /// The child has `d` ahead of it, or stands on it as one of its documents.
    #[verifier::inline]
    pub open spec fn claims(&self, d: t_docId) -> bool {
        self.held()@.claims(self.drained(), d)
    }

    /// Everything that the child has ahead of it lies ahead of this iterator too.
    pub open spec fn aligned(&self) -> bool {
        self.aligned_with(self.held()@)
    }

    /// Everything that `child` has ahead of it lies ahead of this iterator too.
    pub open spec fn aligned_with(&self, child: Cursor) -> bool {
        &&& child.reliable
        &&& forall|d: t_docId| #[trigger] child.pending.contains(d) ==> d > self.place()
    }

    /// `d` is the next id behind `from` that the child does not claim.
    pub open spec fn is_next_free(&self, from: t_docId, d: t_docId) -> bool {
        &&& from < d <= self.max()
        &&& !self.claims(d)
        &&& forall|e: t_docId| from < e < d ==> #[trigger] self.claims(e)
    }

    /// The child claims all ids behind `from`.
    pub open spec fn none_free(&self, from: t_docId) -> bool {
        forall|e: t_docId| from < e <= self.max() ==> #[trigger] self.claims(e)
    }

    /// So many checks of the deadline in a row can succeed: if they come to a look at the clock,
    /// it can give a time that has not reached the deadline.
    pub open spec fn in_time(&self, checks: int) -> bool {
        self.deadline() matches Some(ctx) ==> checks > 0 && ctx.count() + checks
            >= ctx.granularity() ==> ctx.can_be_early()
    }

    /// From this moment to `next` so many checks of the deadline have been made, if there is one.
    pub open spec fn has_checked(&self, next: &Not<I>, checks: int) -> bool {
        self.deadline() matches Some(ctx) ==> next.deadline()->0.checks() == ctx.checks() + checks
    }

    /// A child that has answered that nothing is left says so of itself.
    pub open spec fn settled(&self) -> bool {
        self.drained() ==> self.held()@.ended
    }

    /// The child is ahead of this iterator, or has ended.
    pub open spec fn child_is_ahead(&self) -> bool {
        self.held()@.ended || self.held()@.last > self.place()
    }

    /// The deadline has passed, and the child claims so many ids in a row that
    /// a `read` comes to look at the clock.
    pub open spec fn meets_deadline(&self) -> bool {
        &&& self.deadline() matches Some(ctx)
        &&& ctx.has_passed()
        &&& 0 < ctx.granularity()
        &&& self.place() + ctx.granularity() <= self.max()
        &&& forall|e: t_docId|
            self.place() < e <= self.place() + ctx.granularity() ==> #[trigger] self.claims(e)
    }

    /// `next` is this iterator after one check of the deadline that has succeeded.
    pub open spec fn passes_check(&self, next: &Not<I>) -> bool {
        &&& self.same_setup(next)
        &&& self.in_time(1)
        &&& self.deadline() matches Some(ctx) ==> next.deadline()->0.count() == ctx.next_count()
    }

    /// This is `before` after a rewind.
    pub open spec fn is_rewound(&self, before: &Not<I>) -> bool {
        &&& before.same_setup(self)
        &&& !self.timed_out()
        &&& !self.drained()
        &&& self.record() == (RSIndexResult { doc_id: 0, ..before.record() })
        &&& self.deadline() == before.deadline()
        &&& before.held()@.same_source(self.held()@)
        &&& self.held()@.last == 0
        &&& before.held()@.sound ==> {
            &&& self.held()@.reliable
            &&& self.held()@.pending =~= self.held()@.docs
        }
    }

    /// The answers of `child`, which has run out or not, tell which documents it has,
    /// from here to the end.
    pub open spec fn in_step_with(&self, child: Cursor, ran_out: bool) -> bool {
        &&& !self.timed_out()
        &&& child.reliable
        &&& self.place() < self.max() ==> {
            &&& self.aligned_with(child)
            &&& forall|d: t_docId|
                d > self.place() ==> (#[trigger] child.docs.contains(d) <==> child.claims(
                    ran_out,
                    d,
                ))
        }
    }

    /// What this iterator is over a child that is `child` and has run out or not.
    pub open spec fn view_over(&self, child: Cursor, ran_out: bool) -> Cursor {
        let docs = complement(child.docs, self.max());
        Cursor {
            index: child.index,
            docs,
            pending: after_id(docs, self.place()),
            last: self.place(),
            ended: self.timed_out() || self.place() >= self.max(),
            shown: Some(self.record()),
            reliable: self.in_step_with(child, ran_out),
            sound: child.sound,
            faults: if self.deadline() is Some {
                child.faults.insert(RQEIteratorError::TimedOut)
            } else {
                child.faults
            },
            estimate: self.max() as usize,
            known_empty: false,
            matches_all: false,
        }
    }

    /// This is a negation of `child` as `new` makes it.
    pub open spec fn is_new(
        &self,
        child: I,
        max_doc_id: t_docId,
        weight: Weight,
        timeout_nanos: u128,
        skip_timeout_checks: bool,
    ) -> bool {
        &&& self.held().iterator == Some(child)
        &&& !self.drained()
        &&& self.max() == max_doc_id
        &&& !self.timed_out()
        &&& self.record() == RSIndexResult {
            doc_id: 0,
            freq: 0,
            field_mask: RS_FIELDMASK_ALL,
            weight,
        }
        &&& skip_timeout_checks <==> self.deadline() is None
        &&& self.deadline() matches Some(ctx) ==> {
            &&& ctx.timeout() == timeout_nanos
            &&& ctx.granularity() == TIMEOUT_GRANULARITY
            &&& ctx.count() == 0
        }
    }

    /// A negation of `child` that goes up to `max_doc_id`.
    ///
    /// Unless `skip_timeout_checks` is set, the deadline lies `timeout_nanos` nanoseconds from now.
    pub fn new(
        child: I,
        max_doc_id: t_docId,
        weight: Weight,
        timeout_nanos: u128,
        skip_timeout_checks: bool,
    ) -> (not: Self)
        ensures
            not.is_new(child, max_doc_id, weight, timeout_nanos, skip_timeout_checks),
    {
        Not {
            child: MaybeEmpty::new(child),
            child_ran_out: false,
            max_doc_id,
            forced_eof: false,
            result: RSIndexResult::virt(weight, RS_FIELDMASK_ALL),
            timeout_ctx: if skip_timeout_checks {
                None
            } else {
                Some(TimeoutContext::new(timeout_nanos, TIMEOUT_GRANULARITY))
            },
        }
    }

    /// Checks the deadline, and marks this iterator as ended if it has passed.
    ///
    /// Without a deadline there is nothing to check.
    fn check_timeout(&mut self) -> (r: Result<(), RQEIteratorError>)
        ensures
            final(self).held() == old(self).held(),
            final(self).drained() == old(self).drained(),
            final(self).record() == old(self).record(),
            old(self).same_setup(final(self)),
            old(self).deadline() is None ==> r is Ok,
            r is Ok ==> final(self).timed_out() == old(self).timed_out(),
            r matches Err(error) ==> {
                &&& error == RQEIteratorError::TimedOut
                &&& final(self).timed_out()
            },
            old(self).deadline() matches Some(ctx) ==> {
                &&& final(self).deadline()->0.count() == ctx.next_count()
                &&& final(self).deadline()->0.checks() == ctx.checks() + 1
                &&& ctx.count() + 1 < ctx.granularity() ==> r is Ok
                &&& ctx.count() + 1 >= ctx.granularity() && r is Ok ==> ctx.can_be_early()
                &&& r is Err ==> ctx.can_be_late()
                &&& exists|before: &mut TimeoutContext| #[trigger]
                    call_ensures(TimeoutContext::check_timeout, (before,), r) && *before == ctx
                        && final(self).deadline() == Some(*final(before))
            },
            old(self).deadline() is None ==> *final(self) == *old(self),
    {
        let result = match self.timeout_ctx.as_mut() {
            Some(ctx) => ctx.check_timeout(),
            None => return Ok(()),
        };
        if matches!(result, Err(RQEIteratorError::TimedOut)) {
            self.forced_eof = true;
        }
        result
    }

    /// Starts the count of the checks anew.
    ///
    /// Without a deadline there is nothing to do.
    fn reset_timeout(&mut self)
        ensures
            final(self).held() == old(self).held(),
            final(self).drained() == old(self).drained(),
            final(self).record() == old(self).record(),
            final(self).timed_out() == old(self).timed_out(),
            old(self).same_setup(final(self)),
            final(self).deadline() matches Some(ctx) ==> ctx.count() == 0,
            old(self).deadline() matches Some(ctx) ==> final(self).deadline()->0.checks()
                == ctx.checks(),
    {
        if let Some(ctx) = self.timeout_ctx.as_mut() {
            ctx.reset_counter();
        }
    }

    /// Brings the child up to `doc_id` if it lags behind, and tells whether the child has it.
    fn child_has(&mut self, doc_id: t_docId) -> (r: Result<bool, RQEIteratorError>)
        ensures
            final(self).max() == old(self).max(),
            final(self).timed_out() == old(self).timed_out(),
            final(self).record() == old(self).record(),
            final(self).deadline() == old(self).deadline(),
            final(self).held().iterator is Some <==> old(self).held().iterator is Some,
            old(self).held()@.same_source(final(self).held()@),
            old(self).held()@.last > doc_id || old(self).held()@.ended && old(self).held()@.last
                < doc_id || old(self).drained() && old(self).held()@.last == doc_id ==> (
            r matches Ok(false)) && *final(self) == *old(self),
            old(self).held()@.last >= doc_id ==> *final(self) == *old(self),
            r matches Err(error) ==> {
                &&& old(self).held()@.last < doc_id
                &&& old(self).held()@.faults.contains(error)
                &&& final(self).drained() == old(self).drained()
            },
            old(self).held()@.reliable ==> match r {
                Ok(present) => {
                    &&& present == old(self).claims(doc_id)
                    &&& final(self).held()@.reliable
                    &&& old(self).settled() ==> final(self).settled()
                    &&& present ==> final(self).held()@.last == doc_id
                    &&& !present && old(self).settled() ==> final(self).held()@.ended
                        || final(self).held()@.last > doc_id
                    &&& forall|d: t_docId| #[trigger]
                        final(self).held()@.pending.contains(d) ==> d > doc_id
                    &&& forall|e: t_docId|
                        #![trigger final(self).claims(e)]
                        #![trigger old(self).claims(e)]
                        e > doc_id ==> (final(self).claims(e) <==> old(self).claims(e))
                },
                Err(_) => true,
            },
    {
        proof {
            self.child.lemma_consistent();
        }
        // The child is ahead, or has run out in front of `doc_id`, or stands there after it
        // has run out: `doc_id` is not in the child.
        if self.child.last_doc_id() > doc_id || (self.child.at_eof() && doc_id
            > self.child.last_doc_id()) || (self.child_ran_out && doc_id
            == self.child.last_doc_id()) {
            return Ok(false);
        }
        // The child is behind `doc_id`: it has to tell whether it has `doc_id`.
        if self.child.last_doc_id() < doc_id {
            let ghost ahead = self.child@.pending;
            let outcome = self.child.skip_to(doc_id)?;
            self.child_ran_out = outcome.is_none();
            match outcome {
                Some(SkipToOutcome::Found(_)) => {},
                None | Some(SkipToOutcome::NotFound(_)) => {
                    assert(forall|d: t_docId| #[trigger]
                        ahead.contains(d) && d >= doc_id ==> from_id(ahead, doc_id).contains(d));
                    return Ok(false);
                },
            }
        }
        Ok(true)
    }

    /// Concludes a revalidation in which this has become of the child.
    ///
    /// Only an aborted child is dropped; this iterator stays where it stands in any case.
    pub fn settle_child(&mut self, fate: Revalidation) -> (status: RQEValidateStatus<'_>)
        ensures
            status matches RQEValidateStatus::Valid,
            fate == Revalidation::Aborted ==> final(self).held().iterator is None,
            fate != Revalidation::Aborted ==> final(self).held() == old(self).held(),
            match fate {
                Revalidation::Valid => final(self).drained() == old(self).drained(),
                Revalidation::Moved => !final(self).drained(),
                Revalidation::MovedToEnd => final(self).drained(),
                Revalidation::Aborted => !final(self).drained(),
            },
            final(self).drained() == fate.leaves_ran_out(old(self).drained()),
            final(self).max() == old(self).max(),
            final(self).timed_out() == old(self).timed_out(),
            final(self).record() == old(self).record(),
            final(self).deadline() == old(self).deadline(),
    {
        match fate {
            Revalidation::Aborted => {
                self.child = MaybeEmpty::new_empty();
                self.child_ran_out = false;
            },
            // A child that has moved has moved forward, so the document of this iterator
            // is still none of the child.
            Revalidation::Moved => {
                self.child_ran_out = false;
            },
            Revalidation::MovedToEnd => {
                self.child_ran_out = true;
            },
            Revalidation::Valid => {},
        }
        RQEValidateStatus::Valid
    }

    /// The child, if there is one.
    pub fn child(&self) -> (r: Option<&I>)
        ensures
            r is Some <==> self.held().iterator is Some,
            r matches Some(child) ==> self.held().iterator == Some(*child),
    {
        self.child.as_ref()
    }

    /// Replaces the child. This iterator stays where it stands.
    pub fn set_child(&mut self, new_child: I)
        ensures
            final(self).held().iterator == Some(new_child),
            !final(self).drained(),
            final(self).max() == old(self).max(),
            final(self).timed_out() == old(self).timed_out(),
            final(self).record() == old(self).record(),
            final(self).deadline() == old(self).deadline(),
    {
        self.child = MaybeEmpty::new(new_child);
        self.child_ran_out = false;
    }

    /// Drops the child.
    pub fn unset_child(&mut self)
        ensures
            final(self).held().iterator is None,
            !final(self).drained(),
            final(self).max() == old(self).max(),
            final(self).timed_out() == old(self).timed_out(),
            final(self).record() == old(self).record(),
            final(self).deadline() == old(self).deadline(),
    {
        self.child = MaybeEmpty::new_empty();
        self.child_ran_out = false;
    }

    /// Gives the child away, if there is one.
    pub fn take_child(&mut self) -> (r: Option<I>)
        ensures
            r == old(self).held().iterator,
            final(self).held().iterator is None,
            !final(self).drained(),
            final(self).max() == old(self).max(),
            final(self).timed_out() == old(self).timed_out(),
            final(self).record() == old(self).record(),
            final(self).deadline() == old(self).deadline(),
    {
        self.child_ran_out = false;
        self.child.take_iterator()
    }
}

/// What is free behind `from` depends on nothing but what the child claims there.
proof fn lemma_same_claims<I: RQEIterator>(a: &Not<I>, b: &Not<I>, from: t_docId)
    requires
        a.max() == b.max(),
        forall|e: t_docId|
            #![trigger a.claims(e)]
            #![trigger b.claims(e)]
            e > from ==> (a.claims(e) <==> b.claims(e)),
    ensures
        a.none_free(from) <==> b.none_free(from),
        forall|d: t_docId|
            #![trigger a.is_next_free(from, d)]
            #![trigger b.is_next_free(from, d)]
            a.is_next_free(from, d) <==> b.is_next_free(from, d),
{
}

impl<I: RQEIterator> RQEIterator for Not<I> {
    open spec fn view(&self) -> Cursor {
        self.view_over(self.held()@, self.drained())
    }

    open spec fn revalidates_to(&self, outcome: Revalidation, next: Cursor) -> bool {
        &&& outcome == Revalidation::Valid
        &&& exists|fate: Revalidation, child: Cursor| #[trigger]
            self.held().revalidates_to(fate, child) && next == self.view_over(
                if fate == Revalidation::Aborted {
                    empty_cursor()
                } else {
                    child
                },
                fate.leaves_ran_out(self.drained()),
            )
    }

    proof fn lemma_consistent(&self) {
    }

    fn current(&mut self) -> (r: Option<&mut RSIndexResult>)
        ensures
            r matches Some(result) && *result == old(self).record() && *final(result)
                == final(self).record(),
            final(self).held() == old(self).held(),
            final(self).drained() == old(self).drained(),
            final(self).timed_out() == old(self).timed_out(),
            final(self).deadline() == old(self).deadline(),
            old(self).same_setup(final(self)),
    {
        Some(&mut self.result)
    }

    fn read(&mut self) -> (r: Result<Option<&mut RSIndexResult>, RQEIteratorError>)
        ensures
            old(self).same_setup(final(self)),
            old(self).held()@.same_source(final(self).held()@),
            old(self)@.ended ==> (r matches Ok(None)) && *final(self) == *old(self),
            r matches Ok(Some(result)) ==> {
                &&& *result == (RSIndexResult { doc_id: result.doc_id, ..old(self).record() })
                &&& result.doc_id <= old(self).max()
                &&& final(self).record() == *final(result)
                &&& !final(self).timed_out()
                &&& final(self).deadline() matches Some(ctx) ==> ctx.count() == 0
                &&& old(self).in_time(result.doc_id - old(self).place() - 1)
                &&& old(self).has_checked(final(self), result.doc_id - old(self).place() - 1)
            },
            (r matches Ok(None)) && !old(self)@.ended ==> {
                &&& final(self).record() == (RSIndexResult {
                    doc_id: old(self).max(),
                    ..old(self).record()
                })
                &&& !final(self).timed_out()
                &&& old(self).in_time(old(self).max() - old(self).place())
                &&& old(self).has_checked(final(self), old(self).max() - old(self).place())
                &&& old(self).deadline() matches Some(ctx) ==> {
                    let checks = old(self).max() - old(self).place();
                    ctx.count() + checks < ctx.granularity()
                        ==> final(self).deadline()->0.count() == ctx.count() + checks
                }
            },
            r matches Err(error) ==> {
                &&& !old(self)@.ended
                &&& old(self).place() < final(self).place() <= old(self).max()
                &&& final(self).record() == (RSIndexResult {
                    doc_id: final(self).place(),
                    ..old(self).record()
                })
                &&& if final(self).timed_out() {
                    &&& error == RQEIteratorError::TimedOut
                    &&& old(self).deadline() matches Some(ctx)
                    &&& ctx.count() + (final(self).place() - old(self).place())
                        >= ctx.granularity()
                    &&& ctx.can_be_late()
                    &&& old(self).has_checked(final(self), final(self).place() - old(self).place())
                } else {
                    &&& old(self).held()@.faults.contains(error)
                    &&& old(self).has_checked(
                        final(self),
                        final(self).place() - old(self).place() - 1,
                    )
                    &&& old(self).deadline() matches Some(ctx) ==> {
                        let checks = final(self).place() - old(self).place() - 1;
                        checks == 0 || ctx.count() + checks < ctx.granularity()
                            ==> final(self).deadline()->0.count() == ctx.count() + checks
                    }
                }
            },
            old(self).aligned() && !old(self)@.ended && old(self).meets_deadline() ==> r is Err,
            !old(self)@.ended && old(self).held()@.last > old(self).place() + 1 ==> {
                &&& r matches Ok(Some(result)) && result.doc_id == old(self).place() + 1
                &&& final(self).held() == old(self).held()
                &&& final(self).drained() == old(self).drained()
            },
            old(self).aligned() && !old(self)@.ended ==> match r {
                Ok(Some(result)) => {
                    &&& old(self).is_next_free(old(self).place(), result.doc_id)
                    &&& old(self).settled() ==> final(self).settled() && (
                    final(self).held()@.ended || final(self).held()@.last > result.doc_id)
                    &&& final(result).doc_id == result.doc_id ==> final(self).aligned() && (
                    old(self).settled() ==> final(self).child_is_ahead())
                    &&& forall|e: t_docId|
                        e > result.doc_id ==> (#[trigger] final(self).claims(e)
                            <==> old(self).claims(e))
                },
                Ok(None) => old(self).none_free(old(self).place()),
                Err(_) => forall|e: t_docId|
                    old(self).place() < e < final(self).place() || final(self).timed_out() && e
                        == final(self).place() ==> #[trigger] old(self).claims(e),
            },
            old(self).held()@.reliable && !old(self).aligned() && !old(self)@.ended ==> match r {
                Ok(Some(result)) => {
                    &&& result.doc_id == old(self).place() + 1
                    &&& exists|first: t_docId| #[trigger]
                        is_first(old(self).held()@.pending, first)
                            && old(self).held()@.advanced_to(first, final(self).held()@)
                },
                Ok(None) => false,
                Err(error) => old(self).held()@.faults.contains(error),
            },
    {
        // Skips all documents of the child, as long as neither this iterator has ended
        // nor the child has moved past it.
        while !self.at_eof()
            invariant
                old(self).same_setup(self),
                old(self).held()@.same_source(self.held()@),
                !self.timed_out() || *self == *old(self),
                old(self)@.ended ==> *self == *old(self),
                old(self).place() <= self.place(),
                self.place() <= self.max() || *self == *old(self),
                self.record() == (RSIndexResult { doc_id: self.place(), ..old(self).record() }),
                old(self).held()@.last > old(self).place() + 1 ==> *self == *old(self),
                old(self).in_time(self.place() - old(self).place()),
                old(self).has_checked(self, self.place() - old(self).place()),
                old(self).aligned() && old(self).settled() ==> self.settled(),
                old(self).deadline() matches Some(ctx) ==> {
                    self.place() == old(self).place() || ctx.count() + (self.place()
                        - old(self).place()) < ctx.granularity()
                        ==> self.deadline()->0.count() == ctx.count() + (self.place()
                        - old(self).place())
                },
                old(self).held()@.reliable && !old(self).aligned() ==> *self == *old(self),
                old(self).aligned() ==> {
                    &&& self.aligned()
                    &&& forall|e: t_docId|
                        old(self).place() < e <= self.place()
                            ==> #[trigger] old(self).claims(e)
                    &&& forall|e: t_docId|
                        e > self.place() ==> (#[trigger] old(self).claims(e)
                            <==> self.claims(e))
                },
            decreases self.max() - self.place(),
        {
            proof {
                self.child.lemma_consistent();
            }
            self.result.doc_id += 1;

            // Brings the child up if this iterator has moved past its last known position.
            let child_at_eof = if self.result.doc_id > self.child.last_doc_id() {
                self.child_ran_out = self.child.read()?.is_none();
                self.child_ran_out
            } else {
                self.child_ran_out
            };

            // A document is a result if the child has run out, has not come to it, or skipped it.
            if child_at_eof || self.result.doc_id != self.child.last_doc_id() {
                assert(old(self).aligned() ==> !old(self).claims(self.place()));
                self.reset_timeout();
                return Ok(Some(&mut self.result));
            }
            self.check_timeout()?;
        }
        Ok(None)
    }

    #[verifier::rlimit(90)]
    fn skip_to(&mut self, doc_id: t_docId) -> (r: Result<
        Option<SkipToOutcome<'_>>,
        RQEIteratorError,
    >)
        ensures
            old(self).same_setup(final(self)),
            old(self).held()@.same_source(final(self).held()@),
            old(self)@.ended ==> (r matches Ok(None)) && *final(self) == *old(self),
            !old(self)@.ended && doc_id > old(self).max() ==> {
                &&& r matches Ok(None)
                &&& final(self).record() == (RSIndexResult {
                    doc_id: old(self).max(),
                    ..old(self).record()
                })
                &&& final(self).held() == old(self).held()
                &&& final(self).drained() == old(self).drained()
                &&& final(self).timed_out() == old(self).timed_out()
                &&& final(self).deadline() == old(self).deadline()
            },
            r matches Ok(Some(SkipToOutcome::Found(result))) ==> {
                &&& *result == (RSIndexResult { doc_id, ..old(self).record() })
                &&& doc_id <= old(self).max()
                &&& final(self).record() == *final(result)
                &&& !final(self).timed_out()
                &&& old(self).passes_check(final(self))
                &&& old(self).has_checked(final(self), 1)
            },
            r matches Ok(Some(SkipToOutcome::NotFound(result))) ==> {
                &&& *result == (RSIndexResult { doc_id: result.doc_id, ..old(self).record() })
                &&& doc_id < result.doc_id <= old(self).max()
                &&& final(self).record() == *final(result)
                &&& !final(self).timed_out()
                &&& final(self).deadline() matches Some(ctx) ==> ctx.count() == 0
                &&& old(self).in_time(result.doc_id - doc_id)
                &&& old(self).has_checked(final(self), result.doc_id - doc_id)
            },
            (r matches Ok(None)) && !old(self)@.ended ==> {
                &&& final(self).record() == (RSIndexResult {
                    doc_id: old(self).max(),
                    ..old(self).record()
                })
                &&& !final(self).timed_out()
                &&& doc_id <= old(self).max() ==> old(self).in_time(
                    1 + old(self).max() - doc_id,
                ) && old(self).has_checked(final(self), 1 + old(self).max() - doc_id)
            },
            !old(self)@.ended && doc_id <= old(self).max() && (old(self).held()@.last > doc_id
                || old(self).held()@.ended && old(self).held()@.last < doc_id
                || old(self).drained() && old(self).held()@.last == doc_id) ==> {
                &&& final(self).held() == old(self).held()
                &&& final(self).drained() == old(self).drained()
            },
            r matches Err(error) ==> {
                &&& !old(self)@.ended
                &&& doc_id <= old(self).max()
                &&& final(self).place() == old(self).place() || doc_id <= final(self).place()
                    <= old(self).max()
                &&& final(self).record() == (RSIndexResult {
                    doc_id: final(self).place(),
                    ..old(self).record()
                })
                &&& if final(self).timed_out() {
                    &&& error == RQEIteratorError::TimedOut
                    &&& old(self).deadline() matches Some(ctx)
                    &&& ctx.can_be_late()
                    &&& old(self).has_checked(
                        final(self),
                        if final(self).place() > doc_id {
                            1 + final(self).place() - doc_id
                        } else {
                            1
                        },
                    )
                    &&& final(self).place() <= doc_id ==> ctx.count() + 1 >= ctx.granularity()
                    &&& final(self).place() > doc_id ==> ctx.count() + 1 + (final(self).place()
                        - doc_id) >= ctx.granularity()
                } else {
                    &&& old(self).held()@.faults.contains(error)
                    &&& final(self).place() == old(self).place() || final(self).place() > doc_id
                    &&& final(self).place() == old(self).place() ==> final(self).deadline()
                        == old(self).deadline()
                    &&& final(self).place() > doc_id ==> old(self).has_checked(
                        final(self),
                        final(self).place() - doc_id,
                    )
                }
            },
            old(self).held()@.reliable && !old(self)@.ended && doc_id <= old(self).max()
                ==> match r {
                Ok(Some(SkipToOutcome::Found(result))) => {
                    &&& !old(self).claims(doc_id)
                    &&& old(self).settled() ==> final(self).settled() && (
                    final(self).held()@.ended || final(self).held()@.last > doc_id)
                    &&& final(result).doc_id == doc_id ==> final(self).aligned() && (
                    old(self).settled() ==> final(self).child_is_ahead())
                    &&& forall|e: t_docId|
                        e > doc_id ==> (#[trigger] final(self).claims(e)
                            <==> old(self).claims(e))
                },
                Ok(Some(SkipToOutcome::NotFound(result))) => {
                    &&& old(self).claims(doc_id)
                    &&& old(self).is_next_free(doc_id, result.doc_id)
                    &&& old(self).settled() ==> final(self).settled() && (
                    final(self).held()@.ended || final(self).held()@.last > result.doc_id)
                    &&& final(result).doc_id == result.doc_id ==> final(self).aligned() && (
                    old(self).settled() ==> final(self).child_is_ahead())
                    &&& forall|e: t_docId|
                        e > result.doc_id ==> (#[trigger] final(self).claims(e)
                            <==> old(self).claims(e))
                },
                Ok(None) => old(self).claims(doc_id) && old(self).none_free(doc_id),
                Err(_) => {
                    &&& final(self).place() == doc_id ==> !old(self).claims(doc_id)
                    &&& final(self).place() == old(self).place() ==> if final(self).timed_out() {
                        old(self).claims(doc_id)
                    } else {
                        old(self).held()@.last < doc_id
                    }
                    &&& final(self).place() > doc_id ==> {
                        &&& old(self).claims(doc_id)
                        &&& forall|e: t_docId|
                            doc_id < e < final(self).place() || final(self).timed_out() && e
                                == final(self).place() ==> #[trigger] old(self).claims(e)
                    }
                },
            },
    {
        if self.at_eof() {
            return Ok(None);
        }
        // Does not skip beyond `max_doc_id`.
        if doc_id > self.max_doc_id {
            self.result.doc_id = self.max_doc_id;
            return Ok(None);
        }
        if !self.child_has(doc_id)? {
            self.result.doc_id = doc_id;
            self.check_timeout()?;
            return Ok(Some(SkipToOutcome::Found(&mut self.result)));
        }
        self.check_timeout()?;

        // The child has `doc_id`, so the next id that it does not have is the answer.
        self.result.doc_id = doc_id;
        let ghost from = *self;
        proof {
            if old(self).held()@.reliable {
                lemma_same_claims(&from, old(self), doc_id);
                assert(forall|e: t_docId|
                    e > doc_id ==> (#[trigger] old(self).claims(e) <==> from.claims(e)));
            }
            if old(self)@.reliable {
                assert(from@.reliable);
                assert(!old(self)@.pending.contains(doc_id));
                assert(from@.pending =~= from_id(old(self)@.pending, doc_id));
            }
        }
        match self.read()? {
            Some(_) => {
                proof {
                    if old(self).held()@.reliable {
                        assert(from.is_next_free(doc_id, self.place()));
                        assert(forall|e: t_docId|
                            e > self.place() ==> (#[trigger] self.claims(e) <==> from.claims(e)));
                    }
                }
                Ok(Some(SkipToOutcome::NotFound(&mut self.result)))
            },
            None => Ok(None),
        }
    }

    fn revalidate(&mut self) -> (r: Result<RQEValidateStatus<'_>, RQEIteratorError>)
        ensures
            r is Ok ==> (r matches Ok(RQEValidateStatus::Valid)),
            final(self).max() == old(self).max(),
            final(self).timed_out() == old(self).timed_out(),
            final(self).record() == old(self).record(),
            final(self).deadline() == old(self).deadline(),
            old(self).held().iterator is None ==> r is Ok && final(self).held().iterator is None,
            r matches Err(error) ==> {
                &&& final(self).held().iterator is Some
                &&& final(self).drained() == old(self).drained()
                &&& old(self).held()@.faults.contains(error)
            },
            r is Ok ==> exists|fate: Revalidation, child: Cursor| #[trigger]
                old(self).held().revalidates_to(fate, child) && final(self).drained()
                    == fate.leaves_ran_out(old(self).drained()) && if fate
                    == Revalidation::Aborted {
                    final(self).held().iterator is None
                } else {
                    &&& final(self).held()@ == child
                    &&& final(self).held().iterator is Some <==> old(self).held().iterator is Some
                },
            r is Ok && final(self).held().iterator is Some ==> {
                &&& final(self).held()@.last >= old(self).held()@.last
                &&& old(self).held()@.last > old(self).place() ==> final(self).held()@.last
                    > final(self).place()
            },
    {
        let fate = match self.child.revalidate()? {
            RQEValidateStatus::Aborted => Revalidation::Aborted,
            RQEValidateStatus::Moved { current: Some(_) } => Revalidation::Moved,
            RQEValidateStatus::Moved { current: None } => Revalidation::MovedToEnd,
            RQEValidateStatus::Valid => Revalidation::Valid,
        };
        Ok(self.settle_child(fate))
    }

    fn rewind(&mut self)
        ensures
            final(self).is_rewound(old(self)),
            final(self).record() == (RSIndexResult { doc_id: 0, ..old(self).record() }),
            final(self)@.shown == Some(RSIndexResult { doc_id: 0, ..old(self).record() }),
            final(self).deadline() == old(self).deadline(),
    {
        self.forced_eof = false;
        self.result.doc_id = 0;
        self.child_ran_out = false;
        self.child.rewind();
        proof {
            self.child.lemma_consistent();
        }
    }

    fn num_estimated(&self) -> (r: usize) {
        self.max_doc_id as usize
    }

    fn last_doc_id(&self) -> (r: t_docId) {
        self.result.doc_id
    }

    fn at_eof(&self) -> (r: bool) {
        self.forced_eof || self.result.doc_id >= self.max_doc_id
    }

    fn is_wildcard(&self) -> (r: bool) {
        false
    }

    fn is_empty(&self) -> (r: bool) {
        false
    }
}

} // verus!
