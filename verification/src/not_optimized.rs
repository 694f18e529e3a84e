//! The negation of an iterator over the documents of a wildcard.

use vstd::prelude::*;

use crate::empty::empty_cursor;
use crate::index_result::{t_docId, RSIndexResult, Weight, RS_FIELDMASK_ALL};
use crate::maybe_empty::MaybeEmpty;
use crate::not::{complement, lemma_complement_is_bounded, TIMEOUT_GRANULARITY};
use crate::rqe_iterator::{
    after_id, from_id, is_first, Cursor, RQEIterator, RQEIteratorError, RQEValidateStatus,
    Revalidation, SkipToOutcome,
};
use crate::timeout::TimeoutContext;

verus! {

/// A negation that is backed by a wildcard iterator.
///
/// Yields the documents of the wildcard from 1 to `max_doc_id` (inclusive) that are **not**
/// present in the child iterator.
pub struct NotOptimized<W, I> {
    /// The wildcard, which goes through the documents that exist.
    wcii: W,
    /// The child iterator whose results are negated.
    child: MaybeEmpty<I>,
    /// The child has answered that nothing is left, so the place where it stands
    /// need not be a document of it.
    child_ran_out: bool,
    /// The maximum document id to iterate up to (inclusive).
    max_doc_id: t_docId,
    /// Set to `true` when no document is left, and reset to `false` by `rewind`.
    exhausted: bool,
    /// The result that is handed out, one object for all documents.
    result: RSIndexResult,
    /// Tracks the deadline of this iterator, for its whole life: `rewind` does not reset it.
    timeout_ctx: Option<TimeoutContext>,
}

impl<W, I> NotOptimized<W, I> {
    /// The wildcard.
    pub closed spec fn wildcard(&self) -> W {
        self.wcii
    }

    /// The child, if there is one.
    pub closed spec fn held(&self) -> MaybeEmpty<I> {
        self.child
    }

    /// The child has answered that nothing is left.
    pub closed spec fn drained(&self) -> bool {
        self.child_ran_out
    }

    /// The largest id that the iterator goes up to.
    pub closed spec fn max(&self) -> t_docId {
        self.max_doc_id
    }

    /// No document is left before the next `rewind`.
    pub closed spec fn done(&self) -> bool {
        self.exhausted
    }

    /// The result object as it is now.
    pub closed spec fn record(&self) -> RSIndexResult {
        self.result
    }

    /// The deadline, if one is enforced.
    pub closed spec fn deadline(&self) -> Option<TimeoutContext> {
        self.timeout_ctx
    }

    /// The id where the iterator stands.
    pub open spec fn place(&self) -> t_docId {
        self.record().doc_id
    }

    /// The two have the same bounds, the same deadline, and a child or none.
    pub open spec fn same_setup(&self, other: &NotOptimized<W, I>) -> bool {
        &&& self.max() == other.max()
        &&& self.held().iterator is Some <==> other.held().iterator is Some
        &&& match (self.deadline(), other.deadline()) {
            (Some(a), Some(b)) => a.same_deadline(&b),
            (None, None) => true,
            _ => false,
        }
    }
}

impl<W: RQEIterator, I: RQEIterator> NotOptimized<W, I> {
    /// The documents that the iterator goes through over `wildcard` and `child`.
    pub open spec fn ids_over(&self, wildcard: Cursor, child: Cursor) -> Set<t_docId> {
        complement(child.docs, self.max()).intersect(wildcard.docs)
    }

    /// The child has `d` ahead of it, or stands on it as one of its documents.
    #[verifier::inline]
    pub open spec fn claims(&self, d: t_docId) -> bool {
        self.held()@.claims(self.drained(), d)
    }

    /// The ids from `from` to `to` that the wildcard has ahead of it and the child claims,
    /// as far as this iterator goes.
    pub open spec fn excluded(&self, from: t_docId, to: t_docId) -> Set<t_docId> {
        self.wildcard()@.pending.filter(
            |d: t_docId| from <= d <= to && d <= self.max() && self.claims(d),
        )
    }

    /// So many checks of the deadline in a row can succeed: if they come to a look at the clock,
    /// it can give a time that has not reached the deadline.
    pub open spec fn in_time(&self, checks: nat) -> bool {
        self.deadline() matches Some(ctx) ==> checks > 0 && ctx.count() + checks
            >= ctx.granularity() ==> ctx.can_be_early()
    }

    /// From this moment to `next` so many checks of the deadline have been made, if there is one.
    pub open spec fn has_checked(&self, next: &NotOptimized<W, I>, checks: nat) -> bool {
        self.deadline() matches Some(ctx) ==> next.deadline()->0.checks() == ctx.checks() + checks
    }

    /// The answers of `wildcard` and of `child`, which has run out or not, tell which documents
    /// they have, from here to the end.
    pub open spec fn in_step_with(&self, wildcard: Cursor, child: Cursor, ran_out: bool) -> bool {
        &&& wildcard.reliable
        &&& child.reliable
        &&& !self.done() ==> {
            &&& wildcard.last >= self.place()
            &&& forall|d: t_docId| #[trigger]
                self.ids_over(wildcard, child).contains(d) && d > self.place()
                    ==> wildcard.pending.contains(d)
            &&& forall|d: t_docId|
                d > wildcard.last ==> (#[trigger] child.docs.contains(d) <==> child.claims(
                    ran_out,
                    d,
                ))
        }
    }

    /// What this iterator is over a wildcard that is `wildcard` and a child that is `child`
    /// and has run out or not.
    pub open spec fn view_over(&self, wildcard: Cursor, child: Cursor, ran_out: bool) -> Cursor {
        let docs = self.ids_over(wildcard, child);
        Cursor {
            index: wildcard.index,
            docs,
            pending: if self.done() {
                Set::empty()
            } else {
                after_id(docs, self.place())
            },
            last: self.place(),
            ended: self.done() || self.place() >= self.max(),
            shown: Some(self.record()),
            reliable: self.in_step_with(wildcard, child, ran_out),
            sound: wildcard.sound && child.sound,
            faults: if self.deadline() is Some {
                wildcard.faults.union(child.faults).insert(RQEIteratorError::TimedOut)
            } else {
                wildcard.faults.union(child.faults)
            },
            estimate: wildcard.estimate,
            known_empty: false,
            matches_all: false,
        }
    }

    /// This is a negation of `child` among the documents of `wcii`, as `new` makes it.
    pub open spec fn is_new(
        &self,
        wcii: W,
        child: I,
        max_doc_id: t_docId,
        weight: Weight,
        timeout_nanos: u128,
        skip_timeout_checks: bool,
    ) -> bool {
        &&& self.wildcard() == wcii
        &&& self.held().iterator == Some(child)
        &&& !self.drained()
        &&& self.max() == max_doc_id
        &&& !self.done()
        &&& self.record() == RSIndexResult {
            doc_id: 0,
            freq: 0,
            field_mask: RS_FIELDMASK_ALL,
            weight,
        }
        &&& skip_timeout_checks <==> self.deadline() is None
        &&& self.deadline() matches Some(ctx) ==> {
            &&& ctx.timeout() == timeout_nanos
            &&& ctx.granularity() == TIMEOUT_GRANULARITY
            &&& ctx.count() == 0
        }
    }

    /// A negation of `child` among the documents of `wcii` that goes up to `max_doc_id`.
    ///
    /// Unless `skip_timeout_checks` is set, the deadline lies `timeout_nanos` nanoseconds from now.
    pub fn new(
        wcii: W,
        child: I,
        max_doc_id: t_docId,
        weight: Weight,
        timeout_nanos: u128,
        skip_timeout_checks: bool,
    ) -> (not: Self)
        ensures
            not.is_new(wcii, child, max_doc_id, weight, timeout_nanos, skip_timeout_checks),
    {
        NotOptimized {
            wcii,
            child: MaybeEmpty::new(child),
            child_ran_out: false,
            max_doc_id,
            exhausted: false,
            result: RSIndexResult::virt(weight, RS_FIELDMASK_ALL),
            timeout_ctx: if skip_timeout_checks {
                None
            } else {
                Some(TimeoutContext::new(timeout_nanos, TIMEOUT_GRANULARITY))
            },
        }
    }

    /// Checks the deadline. Without one there is nothing to check.
    fn check_timeout(&mut self) -> (r: Result<(), RQEIteratorError>)
        ensures
            final(self).wildcard() == old(self).wildcard(),
            final(self).held() == old(self).held(),
            final(self).drained() == old(self).drained(),
            final(self).done() == old(self).done(),
            final(self).record() == old(self).record(),
            old(self).same_setup(final(self)),
            old(self).deadline() is None ==> r is Ok,
            r matches Err(error) ==> error == RQEIteratorError::TimedOut,
            old(self).deadline() matches Some(ctx) ==> {
                &&& final(self).deadline()->0.count() == ctx.next_count()
                &&& final(self).deadline()->0.checks() == ctx.checks() + 1
                &&& ctx.count() + 1 < ctx.granularity() ==> r is Ok
                &&& ctx.count() + 1 >= ctx.granularity() && r is Ok ==> ctx.can_be_early()
                &&& r is Err ==> ctx.can_be_late()
                &&& exists|before: &mut TimeoutContext| #[trigger]
                    call_ensures(TimeoutContext::check_timeout, (before,), r) && *before == ctx
                        && final(self).deadline() == Some(*final(before))
            },
            old(self).deadline() is None ==> *final(self) == *old(self),
    {
        match self.timeout_ctx.as_mut() {
            Some(ctx) => ctx.check_timeout(),
            None => Ok(()),
        }
    }

    /// Starts the count of the checks anew. Without a deadline there is nothing to do.
    fn reset_timeout(&mut self)
        ensures
            final(self).wildcard() == old(self).wildcard(),
            final(self).held() == old(self).held(),
            final(self).drained() == old(self).drained(),
            final(self).done() == old(self).done(),
            final(self).record() == old(self).record(),
            old(self).same_setup(final(self)),
            final(self).deadline() matches Some(ctx) ==> ctx.count() == 0,
            old(self).deadline() matches Some(ctx) ==> final(self).deadline()->0.checks()
                == ctx.checks(),
    {
        if let Some(ctx) = self.timeout_ctx.as_mut() {
            ctx.reset_counter();
        }
    }

    /// Brings the child up to `doc_id`, and tells whether the child has it.
    fn child_has(&mut self, doc_id: t_docId) -> (r: Result<bool, RQEIteratorError>)
        ensures
            final(self).wildcard() == old(self).wildcard(),
            final(self).max() == old(self).max(),
            final(self).done() == old(self).done(),
            final(self).record() == old(self).record(),
            final(self).deadline() == old(self).deadline(),
            final(self).held().iterator is Some <==> old(self).held().iterator is Some,
            old(self).held()@.same_source(final(self).held()@),
            r matches Err(error) ==> {
                &&& old(self).held()@.last < doc_id
                &&& old(self).held()@.faults.contains(error)
                &&& final(self).drained() == old(self).drained()
            },
            old(self).held()@.last >= doc_id ==> *final(self) == *old(self),
            old(self).held()@.reliable ==> match r {
                Ok(has) => {
                    &&& final(self).held()@.reliable
                    &&& has == old(self).claims(doc_id)
                    &&& forall|d: t_docId|
                        d > doc_id ==> (#[trigger] final(self).claims(d) <==> old(self).claims(d))
                },
                Err(_) => true,
            },
    {
        proof {
            self.child.lemma_consistent();
        }
        let last = self.child.last_doc_id();
        if last < doc_id {
            let ghost ahead = self.child@.pending;
            let outcome = self.child.skip_to(doc_id)?;
            self.child_ran_out = outcome.is_none();
            match outcome {
                Some(SkipToOutcome::Found(_)) => Ok(true),
                None | Some(SkipToOutcome::NotFound(_)) => {
                    assert(forall|d: t_docId| #[trigger]
                        ahead.contains(d) && d >= doc_id ==> from_id(ahead, doc_id).contains(d));
                    Ok(false)
                },
            }
        } else {
            Ok(last == doc_id && !self.child_ran_out)
        }
    }

    /// The child, if there is one.
    pub fn child(&self) -> (r: Option<&I>)
        ensures
            r is Some <==> self.held().iterator is Some,
            r matches Some(child) ==> self.held().iterator == Some(*child),
    {
        self.child.as_ref()
    }

    /// Replaces the child. This iterator stays where it stands.
    pub fn set_child(&mut self, new_child: I)
        ensures
            final(self).held().iterator == Some(new_child),
            !final(self).drained(),
            final(self).wildcard() == old(self).wildcard(),
            final(self).max() == old(self).max(),
            final(self).done() == old(self).done(),
            final(self).record() == old(self).record(),
            final(self).deadline() == old(self).deadline(),
    {
        self.child = MaybeEmpty::new(new_child);
        self.child_ran_out = false;
    }

    /// Gives the child away, if there is one.
    pub fn take_child(&mut self) -> (r: Option<I>)
        ensures
            r == old(self).held().iterator,
            final(self).held().iterator is None,
            !final(self).drained(),
            final(self).wildcard() == old(self).wildcard(),
            final(self).max() == old(self).max(),
            final(self).done() == old(self).done(),
            final(self).record() == old(self).record(),
            final(self).deadline() == old(self).deadline(),
    {
        self.child_ran_out = false;
        self.child.take_iterator()
    }
}

/// If the wildcard has nothing ahead of it behind `at` and up to `to`,
/// nothing is excluded there.
proof fn lemma_nothing_excluded<W: RQEIterator, I: RQEIterator>(
    not: &NotOptimized<W, I>,
    from: t_docId,
    at: t_docId,
    to: t_docId,
)
    requires
        forall|d: t_docId| #[trigger]
            not.wildcard()@.pending.contains(d) && from <= d && at < d <= not.max() ==> d > to,
        at <= to || to == not.max(),
    ensures
        not.excluded(from, to) =~= not.excluded(from, at),
{
}

/// If `d` is the first id that the wildcard has ahead of it behind `at`,
/// nothing but `d` is excluded from there to `d`.
proof fn lemma_one_excluded<W: RQEIterator, I: RQEIterator>(
    not: &NotOptimized<W, I>,
    from: t_docId,
    at: t_docId,
    d: t_docId,
)
    requires
        is_first(after_id(not.wildcard()@.pending, at), d),
        from <= d <= not.max(),
        not.excluded(from, at).finite(),
    ensures
        not.excluded(from, d).finite(),
        not.excluded(from, d).len() == not.excluded(from, at).len() + if not.claims(d) {
            1nat
        } else {
            0nat
        },
{
    assert(after_id(not.wildcard()@.pending, at).contains(d));
    assert forall|e: t_docId| #[trigger]
        not.wildcard()@.pending.contains(e) && at < e implies d <= e by {
        assert(after_id(not.wildcard()@.pending, at).contains(e));
    }
    if not.claims(d) {
        assert(not.excluded(from, d) =~= not.excluded(from, at).insert(d));
    } else {
        assert(not.excluded(from, d) =~= not.excluded(from, at));
    }
}

/// If a skip to `doc_id` has brought the wildcard to its first id from there on, which the child
/// claims, and has made one check of the deadline that succeeded, then the checks for all that
/// is excluded can succeed if the checks that are left can.
proof fn lemma_first_excluded<W: RQEIterator, I: RQEIterator>(
    before: &NotOptimized<W, I>,
    after: &NotOptimized<W, I>,
    doc_id: t_docId,
)
    requires
        before.same_setup(after),
        before.in_time(1),
        before.deadline() matches Some(ctx) ==> after.deadline()->0.count() == ctx.next_count(),
        is_first(from_id(before.wildcard()@.pending, doc_id), after.wildcard()@.last),
        after.wildcard()@.last <= before.max(),
        before.claims(after.wildcard()@.last),
        after.wildcard()@.pending =~= after_id(
            before.wildcard()@.pending,
            after.wildcard()@.last,
        ),
        forall|d: t_docId|
            #![trigger before.claims(d)]
            #![trigger after.claims(d)]
            d > after.wildcard()@.last ==> (before.claims(d) <==> after.claims(d)),
    ensures
        forall|to: t_docId|
            after.wildcard()@.last <= to && #[trigger] after.in_time(after.excluded(0, to).len())
                ==> before.in_time(before.excluded(doc_id, to).len()),
        after.wildcard()@.last >= before.max() ==> before.in_time(
            before.excluded(doc_id, before.max()).len(),
        ) && before.excluded(doc_id, before.max()).len() == 1,
        forall|to: t_docId|
            after.wildcard()@.last <= to ==> #[trigger] after.excluded(0, to).len() + 1
                == before.excluded(doc_id, to).len(),
{
    let pending = before.wildcard()@.pending;
    let first = after.wildcard()@.last;
    assert(from_id(pending, doc_id).contains(first));
    assert forall|d: t_docId| #[trigger] pending.contains(d) && doc_id <= d implies first <= d by {
        assert(from_id(pending, doc_id).contains(d));
    }
    assert forall|to: t_docId| first <= to implies #[trigger] before.excluded(doc_id, to).len()
        == after.excluded(0, to).len() + 1 by {
        let rest = after.excluded(0, to);
        lemma_complement_is_bounded(Set::empty(), to);
        assert(rest.subset_of(complement(Set::empty(), to)));
        vstd::set_lib::lemma_len_subset(rest, complement(Set::empty(), to));
        assert(before.excluded(doc_id, to) =~= rest.insert(first));
    }
    assert forall|to: t_docId|
        after.wildcard()@.last <= to && #[trigger] after.in_time(
            after.excluded(0, to).len(),
        ) implies before.in_time(before.excluded(doc_id, to).len()) by {
        assert(before.excluded(doc_id, to).len() == after.excluded(0, to).len() + 1);
    }
    assert forall|to: t_docId| first <= to implies #[trigger] after.excluded(0, to).len() + 1
        == before.excluded(doc_id, to).len() by {
        assert(before.excluded(doc_id, to).len() == after.excluded(0, to).len() + 1);
    }
    if first >= before.max() {
        assert(after.excluded(0, before.max()) =~= Set::<t_docId>::empty());
        assert(before.excluded(doc_id, before.max()).len() == 1);
    }
}

/// If the wildcard already stands on `doc_id` or behind it, what is excluded lies behind `doc_id`.
proof fn lemma_all_excluded_lie_behind<W: RQEIterator, I: RQEIterator>(
    before: &NotOptimized<W, I>,
    after: &NotOptimized<W, I>,
    doc_id: t_docId,
)
    requires
        before.max() == after.max(),
        before.held() == after.held(),
        before.drained() == after.drained(),
        before.wildcard() == after.wildcard(),
        before.deadline() == after.deadline(),
        before.wildcard()@.reliable,
        doc_id <= before.wildcard()@.last,
    ensures
        forall|to: t_docId| #[trigger]
            after.in_time(after.excluded(0, to).len()) ==> before.in_time(
                before.excluded(doc_id, to).len(),
            ),
        after.wildcard()@.last >= before.max() ==> before.in_time(
            before.excluded(doc_id, before.max()).len(),
        ) && before.excluded(doc_id, before.max()).len() == 0,
        forall|to: t_docId| #[trigger]
            after.excluded(0, to).len() == before.excluded(doc_id, to).len(),
{
    before.wildcard().lemma_consistent();
    assert(forall|to: t_docId| #[trigger]
        before.excluded(doc_id, to) =~= after.excluded(0, to));
    assert forall|to: t_docId| #[trigger] after.excluded(0, to).len() == before.excluded(
        doc_id,
        to,
    ).len() by {
        assert(before.excluded(doc_id, to) =~= after.excluded(0, to));
    }
    if after.wildcard()@.last >= before.max() {
        assert(before.excluded(doc_id, before.max()) =~= Set::<t_docId>::empty());
    }
}

impl<W: RQEIterator, I: RQEIterator> RQEIterator for NotOptimized<W, I> {
    open spec fn view(&self) -> Cursor {
        self.view_over(self.wildcard()@, self.held()@, self.drained())
    }

    open spec fn revalidates_to(&self, outcome: Revalidation, next: Cursor) -> bool {
        exists|wildcard_fate: Revalidation, wildcard: Cursor| #[trigger]
            self.wildcard().revalidates_to(wildcard_fate, wildcard) && {
                if wildcard_fate == Revalidation::Aborted {
                    outcome == Revalidation::Aborted && next == self.view_over(
                        wildcard,
                        self.held()@,
                        self.drained(),
                    )
                } else {
                    &&& outcome == Revalidation::Valid
                    &&& exists|fate: Revalidation, child: Cursor| #[trigger]
                        self.held().revalidates_to(fate, child) && next == self.view_over(
                            wildcard,
                            if fate == Revalidation::Aborted {
                                empty_cursor()
                            } else {
                                child
                            },
                            fate.leaves_ran_out(self.drained()),
                        )
                }
            }
    }

    proof fn lemma_consistent(&self) {
    }

    fn current(&mut self) -> (r: Option<&mut RSIndexResult>)
        ensures
            r matches Some(result) && *result == old(self).record() && *final(result)
                == final(self).record(),
            final(self).wildcard() == old(self).wildcard(),
            final(self).held() == old(self).held(),
            final(self).drained() == old(self).drained(),
            final(self).done() == old(self).done(),
            final(self).deadline() == old(self).deadline(),
            old(self).same_setup(final(self)),
    {
        Some(&mut self.result)
    }

    #[verifier::rlimit(90)]
    fn read(&mut self) -> (r: Result<Option<&mut RSIndexResult>, RQEIteratorError>)
        ensures
            old(self).same_setup(final(self)),
            old(self).wildcard()@.same_source(final(self).wildcard()@),
            old(self).held()@.same_source(final(self).held()@),
            old(self)@.ended ==> (r matches Ok(None)) && *final(self) == *old(self),
            r matches Ok(Some(result)) ==> {
                &&& *result == (RSIndexResult { doc_id: result.doc_id, ..old(self).record() })
                &&& result.doc_id <= old(self).max()
                &&& final(self).record() == *final(result)
                &&& final(self).deadline() matches Some(ctx) ==> ctx.count() == 0
            },
            (r matches Ok(None)) ==> final(self).record() == old(self).record()
                && final(self)@.ended,
            r matches Err(error) ==> {
                ||| old(self).wildcard()@.faults.contains(error)
                ||| old(self).held()@.faults.contains(error)
                ||| {
                    &&& error == RQEIteratorError::TimedOut
                    &&& old(self).deadline() matches Some(ctx)
                    &&& ctx.can_be_late()
                    &&& ctx.count() + (final(self).wildcard()@.last - old(self).wildcard()@.last)
                        >= ctx.granularity()
                }
            },
            old(self)@.reliable && !old(self)@.ended ==> match r {
                Ok(Some(result)) => {
                    let checks = old(self).excluded(0, result.doc_id).len();
                    old(self).in_time(checks) && old(self).has_checked(final(self), checks)
                },
                Ok(None) => {
                    let checks = old(self).excluded(0, old(self).max()).len();
                    old(self).in_time(checks) && old(self).has_checked(final(self), checks)
                },
                Err(_) => true,
            },
    {
        proof {
            self.wcii.lemma_consistent();
            assert(old(self)@.reliable ==> old(self).excluded(0, self.wildcard()@.last)
                =~= Set::<t_docId>::empty());
        }
        while !self.at_eof()
            invariant
                old(self).same_setup(self),
                old(self)@.same_source(self@),
                old(self).wildcard()@.same_source(self.wildcard()@),
                old(self).held()@.same_source(self.held()@),
                old(self)@.ended ==> *self == *old(self),
                self.record() == old(self).record(),
                self.done() == old(self).done(),
                old(self)@.reliable ==> self@.reliable,
                old(self).wildcard()@.last <= self.wildcard()@.last,
                old(self).deadline() matches Some(ctx) ==> self.deadline()->0.count() <= ctx.count()
                    + (self.wildcard()@.last - old(self).wildcard()@.last),
                old(self)@.reliable && !old(self)@.ended ==> {
                    let excluded = old(self).excluded(0, self.wildcard()@.last);
                    &&& self.wildcard()@.pending =~= after_id(
                        old(self).wildcard()@.pending,
                        self.wildcard()@.last,
                    )
                    &&& forall|d: t_docId|
                        #![trigger self.claims(d)]
                        #![trigger old(self).claims(d)]
                        d > self.wildcard()@.last ==> (self.claims(d) <==> old(self).claims(d))
                    &&& excluded.finite()
                    &&& old(self).in_time(excluded.len())
                    &&& old(self).has_checked(self, excluded.len())
                    &&& old(self).deadline() matches Some(ctx) ==> excluded.len() == 0
                        || ctx.count() + excluded.len() < ctx.granularity()
                        ==> self.deadline()->0.count() == ctx.count() + excluded.len()
                },
            decreases self.max() - self.wildcard()@.last,
        {
            proof {
                self.wcii.lemma_consistent();
            }
            let ghost at = self.wildcard()@.last;
            let ghost ahead = self.wildcard()@.pending;
            let ghost in_step = old(self)@.reliable && !old(self)@.ended;
            proof {
                if in_step {
                    assert forall|d: t_docId| #[trigger]
                        old(self).wildcard()@.pending.contains(d) && at < d implies ahead.contains(
                        d,
                    ) by {
                        assert(after_id(old(self).wildcard()@.pending, at).contains(d));
                    }
                }
            }
            let doc_id: t_docId = match self.wcii.read()? {
                Some(result) => result.doc_id,
                None => {
                    proof {
                        if in_step {
                            lemma_nothing_excluded(old(self), 0, at, self.max());
                        }
                    }
                    self.exhausted = true;
                    return Ok(None);
                },
            };
            proof {
                if in_step {
                    if doc_id <= self.max() {
                        lemma_one_excluded(old(self), 0, at, doc_id);
                    } else {
                        lemma_nothing_excluded(old(self), 0, at, self.max());
                    }
                }
            }
            if doc_id > self.max_doc_id || doc_id <= self.result.doc_id {
                self.exhausted = true;
                return Ok(None);
            }
            if !self.child_has(doc_id)? {
                self.result.doc_id = doc_id;
                self.reset_timeout();
                return Ok(Some(&mut self.result));
            }
            self.check_timeout()?;
        }
        Ok(None)
    }

    #[verifier::rlimit(90)]
    fn skip_to(&mut self, doc_id: t_docId) -> (r: Result<
        Option<SkipToOutcome<'_>>,
        RQEIteratorError,
    >)
        ensures
            old(self).same_setup(final(self)),
            old(self).wildcard()@.same_source(final(self).wildcard()@),
            old(self).held()@.same_source(final(self).held()@),
            old(self)@.ended ==> (r matches Ok(None)) && *final(self) == *old(self),
            r matches Ok(Some(SkipToOutcome::Found(result))) ==> {
                &&& *result == (RSIndexResult { doc_id, ..old(self).record() })
                &&& final(self).record() == *final(result)
                &&& old(self).deadline() matches Some(ctx) ==> final(self).deadline()->0.count()
                    == ctx.next_count()
                &&& old(self).has_checked(final(self), 1)
            },
            (r matches Ok(None)) ==> final(self)@.ended,
            !old(self)@.ended && doc_id > old(self).max() ==> {
                &&& r matches Ok(None)
                &&& final(self).done()
                &&& final(self).record() == old(self).record()
                &&& final(self).wildcard() == old(self).wildcard()
                &&& final(self).held() == old(self).held()
                &&& final(self).drained() == old(self).drained()
                &&& final(self).deadline() == old(self).deadline()
            },
            r matches Ok(Some(SkipToOutcome::NotFound(result))) ==> {
                &&& *result == (RSIndexResult { doc_id: result.doc_id, ..old(self).record() })
                &&& final(self).record() == *final(result)
            },
            r matches Err(error) ==> {
                ||| old(self).wildcard()@.faults.contains(error)
                ||| old(self).held()@.faults.contains(error)
                ||| {
                    &&& error == RQEIteratorError::TimedOut
                    &&& old(self).deadline() matches Some(ctx)
                    &&& ctx.can_be_late()
                    &&& old(self).wildcard()@.reliable ==> ctx.count() + 1 + (
                    final(self).wildcard()@.last - old(self).wildcard()@.last) >= ctx.granularity()
                }
            },
            old(self)@.reliable && !old(self)@.ended && doc_id <= old(self).max() ==> match r {
                Ok(Some(SkipToOutcome::Found(result))) => {
                    old(self).wildcard()@.last < doc_id && old(self).in_time(1)
                },
                Ok(Some(SkipToOutcome::NotFound(result))) => {
                    &&& old(self).wildcard()@.last < doc_id ==> old(self).in_time(1)
                    &&& old(self).in_time(old(self).excluded(doc_id, result.doc_id).len())
                    &&& old(self).has_checked(
                        final(self),
                        if old(self).wildcard()@.last < doc_id && old(self).excluded(
                            doc_id,
                            result.doc_id,
                        ).len() == 0 {
                            1
                        } else {
                            old(self).excluded(doc_id, result.doc_id).len()
                        },
                    )
                },
                Ok(None) => {
                    let checks = old(self).excluded(doc_id, old(self).max()).len();
                    old(self).in_time(checks) && old(self).has_checked(final(self), checks)
                },
                Err(_) => true,
            },
    {
        if self.at_eof() {
            return Ok(None);
        }
        if doc_id > self.max_doc_id {
            self.exhausted = true;
            return Ok(None);
        }
        proof {
            self.wcii.lemma_consistent();
        }
        if self.wcii.last_doc_id() < doc_id {
            let ghost ahead = self.wcii@.pending;
            assert(forall|d: t_docId| #[trigger]
                ahead.contains(d) && d >= doc_id ==> from_id(ahead, doc_id).contains(d));
            let candidate: t_docId = match self.wcii.skip_to(doc_id)? {
                Some(SkipToOutcome::Found(result)) => result.doc_id,
                Some(SkipToOutcome::NotFound(result)) => result.doc_id,
                None => {
                    assert(old(self)@.reliable ==> old(self).excluded(doc_id, self.max())
                        =~= Set::<t_docId>::empty());
                    self.exhausted = true;
                    return Ok(None);
                },
            };
            if candidate > self.max_doc_id {
                assert(old(self)@.reliable ==> old(self).excluded(doc_id, self.max())
                    =~= Set::<t_docId>::empty());
                self.exhausted = true;
                return Ok(None);
            }
            let excluded = self.child_has(candidate)?;
            self.check_timeout()?;
            if !excluded {
                assert(old(self)@.reliable ==> old(self).excluded(doc_id, candidate)
                    =~= Set::<t_docId>::empty());
                self.result.doc_id = candidate;
                if candidate == doc_id {
                    return Ok(Some(SkipToOutcome::Found(&mut self.result)));
                } else {
                    return Ok(Some(SkipToOutcome::NotFound(&mut self.result)));
                }
            }
        }
        // The wildcard stands on `doc_id` or behind it, on a document that the child has.
        self.result.doc_id = doc_id;
        let ghost from = *self;
        proof {
            if old(self)@.reliable {
                assert(from@.reliable);
                assert(!old(self)@.pending.contains(doc_id));
                assert(from@.pending =~= from_id(old(self)@.pending, doc_id));
                if old(self).wildcard()@.last < doc_id {
                    lemma_first_excluded(old(self), &from, doc_id);
                } else {
                    lemma_all_excluded_lie_behind(old(self), &from, doc_id);
                }
            }
        }
        match self.read()? {
            Some(_) => Ok(Some(SkipToOutcome::NotFound(&mut self.result))),
            None => Ok(None),
        }
    }

    fn revalidate(&mut self) -> (r: Result<RQEValidateStatus<'_>, RQEIteratorError>)
        ensures
            final(self).max() == old(self).max(),
            final(self).done() == old(self).done(),
            final(self).record() == old(self).record(),
            final(self).deadline() == old(self).deadline(),
            r matches Err(error) ==> {
                ||| old(self).wildcard()@.faults.contains(error)
                ||| old(self).held()@.faults.contains(error)
            },
            r is Ok ==> (r matches Ok(RQEValidateStatus::Valid)) || (r matches Ok(
                RQEValidateStatus::Aborted,
            )),
            (r matches Ok(RQEValidateStatus::Aborted)) ==> {
                &&& old(self).wildcard().revalidates_to(
                    Revalidation::Aborted,
                    final(self).wildcard()@,
                )
                &&& final(self).held() == old(self).held()
                &&& final(self).drained() == old(self).drained()
            },
            (r matches Ok(RQEValidateStatus::Valid)) ==> {
                &&& exists|fate: Revalidation| #[trigger]
                    old(self).wildcard().revalidates_to(fate, final(self).wildcard()@) && fate
                        != Revalidation::Aborted
                &&& exists|fate: Revalidation, child: Cursor| #[trigger]
                    old(self).held().revalidates_to(fate, child) && match fate {
                        Revalidation::Valid => final(self).drained() == old(self).drained(),
                        Revalidation::Moved => !final(self).drained(),
                        Revalidation::MovedToEnd => final(self).drained(),
                        Revalidation::Aborted => !final(self).drained(),
                    } && if fate == Revalidation::Aborted {
                        final(self).held().iterator is None
                    } else {
                        &&& final(self).held()@ == child
                        &&& final(self).held().iterator is Some
                            <==> old(self).held().iterator is Some
                    }
            },
    {
        if matches!(self.wcii.revalidate()?, RQEValidateStatus::Aborted) {
            return Ok(RQEValidateStatus::Aborted);
        }
        match self.child.revalidate()? {
            RQEValidateStatus::Aborted => {
                self.child = MaybeEmpty::new_empty();
                self.child_ran_out = false;
            },
            RQEValidateStatus::Moved { current: Some(_) } => {
                self.child_ran_out = false;
            },
            RQEValidateStatus::Moved { current: None } => {
                self.child_ran_out = true;
            },
            RQEValidateStatus::Valid => {},
        }
        Ok(RQEValidateStatus::Valid)
    }

    fn rewind(&mut self)
        ensures
            old(self).same_setup(final(self)),
            !final(self).done(),
            !final(self).drained(),
            final(self).record() == (RSIndexResult { doc_id: 0, ..old(self).record() }),
            final(self).deadline() == old(self).deadline(),
            old(self).wildcard()@.same_source(final(self).wildcard()@),
            old(self).held()@.same_source(final(self).held()@),
            final(self).wildcard()@.last == 0,
            final(self).held()@.last == 0,
            old(self).wildcard()@.sound ==> {
                &&& final(self).wildcard()@.reliable
                &&& final(self).wildcard()@.pending =~= final(self).wildcard()@.docs
            },
            old(self).held()@.sound ==> {
                &&& final(self).held()@.reliable
                &&& final(self).held()@.pending =~= final(self).held()@.docs
            },
    {
        self.exhausted = false;
        self.result.doc_id = 0;
        self.child_ran_out = false;
        self.wcii.rewind();
        self.child.rewind();
        proof {
            self.wcii.lemma_consistent();
            self.child.lemma_consistent();
        }
    }

    fn num_estimated(&self) -> (r: usize) {
        self.wcii.num_estimated()
    }

    fn last_doc_id(&self) -> (r: t_docId) {
        self.result.doc_id
    }

    fn at_eof(&self) -> (r: bool) {
        self.exhausted || self.result.doc_id >= self.max_doc_id
    }

    fn is_wildcard(&self) -> (r: bool) {
        false
    }

    fn is_empty(&self) -> (r: bool) {
        false
    }
}

} // verus!
