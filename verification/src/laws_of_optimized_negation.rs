//! What each operation does to a negation over a wildcard, as its callers see it.

use vstd::prelude::*;

use crate::empty::empty_cursor;
use crate::index_result::{t_docId, RSIndexResult, Weight};
use crate::not_optimized::NotOptimized;
use crate::rqe_iterator::{
    Cursor, RQEIterator, RQEIteratorError, RQEValidateStatus, Revalidation, SkipToOutcome,
};

verus! {

/// A new negation over a wildcard goes through the documents of the wildcard from 1 to
/// `max_doc_id` that its child lacks. It stands in front of them on a virtual result of the given
/// weight, and is neither empty nor a wildcard by its own account.
pub proof fn law_new_optimized_negation<W: RQEIterator, I: RQEIterator>(
    wcii: W,
    child: I,
    max_doc_id: t_docId,
    weight: Weight,
    timeout_nanos: u128,
    skip_timeout_checks: bool,
    not: NotOptimized<W, I>,
)
    requires
        call_ensures(
            NotOptimized::<W, I>::new,
            (wcii, child, max_doc_id, weight, timeout_nanos, skip_timeout_checks),
            not,
        ),
    ensures
        not.wildcard() == wcii,
        not.held().iterator == Some(child),
        !not.drained(),
        !not.done(),
        not.max() == max_doc_id,
        forall|d: t_docId| #[trigger]
            not@.docs.contains(d) <==> 1 <= d <= max_doc_id && wcii@.docs.contains(d)
                && !child@.docs.contains(d),
        forall|d: t_docId| #[trigger] not@.pending.contains(d) <==> not@.docs.contains(d),
        not@.last == 0,
        not@.ended <==> max_doc_id == 0,
        not@.shown == Some(
            (RSIndexResult { doc_id: 0, freq: 0, field_mask: u128::MAX, weight }),
        ),
        not@.index =~= wcii@.index,
        not@.sound <==> wcii@.sound && child@.sound,
        not@.estimate == wcii@.estimate,
        !not@.known_empty,
        !not@.matches_all,
        forall|error: RQEIteratorError| #[trigger]
            not@.faults.contains(error) <==> wcii@.faults.contains(error) || child@.faults.contains(
                error,
            ) || error == RQEIteratorError::TimedOut && !skip_timeout_checks,
        wcii@.reliable && wcii@.last == 0 && wcii@.pending =~= wcii@.docs && child@.reliable
            && child@.last == 0 && child@.pending =~= child@.docs ==> not@.reliable,
        skip_timeout_checks ==> not.deadline() is None,
        !skip_timeout_checks ==> {
            &&& not.deadline() matches Some(ctx)
            &&& ctx.timeout() == timeout_nanos
            &&& ctx.granularity() == 5_000
            &&& ctx.count() == 0
        },
{
    child.lemma_consistent();
    wcii.lemma_consistent();
}

/// A negation over a wildcard has what the wildcard has and its child lacks, at every moment.
/// It is neither empty nor a wildcard by its own account.
pub proof fn law_optimized_negation_at_every_moment<W: RQEIterator, I: RQEIterator>(
    not: NotOptimized<W, I>,
    d: t_docId,
)
    ensures
        not@.docs.contains(d) <==> 1 <= d <= not.max() && not.wildcard()@.docs.contains(d)
            && !not.held()@.docs.contains(d),
        not@.pending.contains(d) <==> !not.done() && not@.docs.contains(d) && d > not@.last,
        not@.shown == Some(not.record()),
        not@.last == not.record().doc_id,
        not@.ended <==> not.done() || not.record().doc_id >= not.max(),
        not@.index =~= not.wildcard()@.index,
        not@.sound <==> not.wildcard()@.sound && not.held()@.sound,
        not@.estimate == not.wildcard()@.estimate,
        !not@.known_empty,
        !not@.matches_all,
        forall|error: RQEIteratorError| #[trigger]
            not@.faults.contains(error) <==> not.wildcard()@.faults.contains(error)
                || not.held()@.faults.contains(error) || error == RQEIteratorError::TimedOut
                && not.deadline() is Some,
{
}

/// A negation over a wildcard can be relied upon if its wildcard and its child tell what they have
/// from here on.
pub proof fn law_optimized_negation_is_reliable_in_step<W: RQEIterator, I: RQEIterator>(
    not: NotOptimized<W, I>,
)
    requires
        not.wildcard()@.reliable,
        not.held()@.reliable,
        not.wildcard()@.last >= not@.last,
        forall|d: t_docId| #[trigger]
            not@.docs.contains(d) && d > not@.last ==> not.wildcard()@.pending.contains(d),
        forall|d: t_docId|
            d > not.wildcard()@.last ==> (#[trigger] not.held()@.docs.contains(d)
                <==> not.held()@.pending.contains(d) || d == not.held()@.last && !not.drained()),
    ensures
        not@.reliable,
{
    assert forall|d: t_docId| #[trigger]
        not.ids_over(not.wildcard()@, not.held()@).contains(d) && d
            > not.place() implies not.wildcard()@.pending.contains(d) by {
        assert(not@.docs.contains(d));
    }
}

/// A `read` hands out the result object with a new id and nothing else changed.
/// At the end not even the id changes.
pub proof fn law_optimized_read_keeps_the_result_but_its_id<W: RQEIterator, I: RQEIterator>()
    ensures
        forall|
            not: &mut NotOptimized<W, I>,
            r: Result<Option<&mut RSIndexResult>, RQEIteratorError>,
        | #[trigger]
            call_ensures(<NotOptimized<W, I> as RQEIterator>::read, (not,), r) ==> {
                &&& final(not).max() == not.max()
                &&& final(not).deadline() is Some <==> not.deadline() is Some
                &&& not.deadline() matches Some(ctx) ==> {
                    &&& final(not).deadline()->0.started() == ctx.started()
                    &&& final(not).deadline()->0.timeout() == ctx.timeout()
                    &&& final(not).deadline()->0.granularity() == ctx.granularity()
                }
                &&& r matches Ok(Some(result)) ==> {
                    &&& not.record().doc_id < result.doc_id <= not.max()
                    &&& result.weight == not.record().weight
                    &&& result.freq == not.record().freq
                    &&& result.field_mask == not.record().field_mask
                    &&& final(not).record() == *final(result)
                    &&& final(not).deadline() matches Some(ctx) ==> ctx.count() == 0
                }
                &&& (r matches Ok(None)) ==> final(not).record() == not.record()
                    && final(not)@.ended
                &&& not@.ended ==> (r matches Ok(None)) && *final(not) == *not
            },
{
}

/// A `read` or a `skip_to` fails only with an error of the wildcard or of the child, or because
/// the clock was looked at and the deadline had been reached.
pub proof fn law_optimized_negation_fails_only_for_cause<W: RQEIterator, I: RQEIterator>()
    ensures
        forall|
            not: &mut NotOptimized<W, I>,
            r: Result<Option<&mut RSIndexResult>, RQEIteratorError>,
        | #[trigger]
            call_ensures(<NotOptimized<W, I> as RQEIterator>::read, (not,), r) && r is Err
                && !not.wildcard()@.faults.contains(r->Err_0) && !not.held()@.faults.contains(
                r->Err_0,
            ) ==> {
                &&& r->Err_0 == RQEIteratorError::TimedOut
                &&& not.deadline() matches Some(ctx)
                &&& ctx.can_be_late()
                &&& ctx.count() + (final(not).wildcard()@.last - not.wildcard()@.last)
                    >= ctx.granularity()
            },
        forall|
            not: &mut NotOptimized<W, I>,
            doc_id: t_docId,
            r: Result<Option<SkipToOutcome<'_>>, RQEIteratorError>,
        | #[trigger]
            call_ensures(<NotOptimized<W, I> as RQEIterator>::skip_to, (not, doc_id), r)
                && r is Err && !not.wildcard()@.faults.contains(r->Err_0)
                && !not.held()@.faults.contains(r->Err_0) ==> {
                &&& r->Err_0 == RQEIteratorError::TimedOut
                &&& not.deadline() matches Some(ctx)
                &&& ctx.can_be_late()
                &&& not.wildcard()@.reliable ==> ctx.count() + 1 + (final(not).wildcard()@.last
                    - not.wildcard()@.last) >= ctx.granularity()
            },
{
}

/// A deadline that has passed stops a `read` that would have to go over as many documents of both
/// the wildcard and the child as lead to a look at the clock: it comes neither to a document
/// behind them nor to the end.
pub proof fn law_optimized_read_runs_into_a_passed_deadline<W: RQEIterator, I: RQEIterator>()
    ensures
        forall|
            not: &mut NotOptimized<W, I>,
            r: Result<Option<&mut RSIndexResult>, RQEIteratorError>,
        | #[trigger]
            call_ensures(<NotOptimized<W, I> as RQEIterator>::read, (not,), r) && not@.reliable
                && !not@.ended && (not.deadline() matches Some(ctx) && ctx.has_passed() && 0
                < ctx.granularity()) ==> {
                let ctx = not.deadline()->0;
                &&& r matches Ok(Some(result)) ==> not.wildcard()@.pending.filter(
                    |d: t_docId|
                        d <= result.doc_id && d <= not.max() && (not.held()@.pending.contains(d)
                            || d == not.held()@.last && !not.drained()),
                ).len() < ctx.granularity()
                &&& (r matches Ok(None)) ==> not.wildcard()@.pending.filter(
                    |d: t_docId|
                        d <= not.max() && (not.held()@.pending.contains(d) || d
                            == not.held()@.last && !not.drained()),
                ).len() < ctx.granularity()
            },
{
    assert forall|
        not: &mut NotOptimized<W, I>,
        r: Result<Option<&mut RSIndexResult>, RQEIteratorError>,
    | #[trigger]
        call_ensures(<NotOptimized<W, I> as RQEIterator>::read, (not,), r) && not@.reliable
            && !not@.ended && (not.deadline() matches Some(ctx) && ctx.has_passed() && 0
            < ctx.granularity()) implies {
        let ctx = not.deadline()->0;
        &&& r matches Ok(Some(result)) ==> not.wildcard()@.pending.filter(
            |d: t_docId|
                d <= result.doc_id && d <= not.max() && (not.held()@.pending.contains(d) || d
                    == not.held()@.last && !not.drained()),
        ).len() < ctx.granularity()
        &&& (r matches Ok(None)) ==> not.wildcard()@.pending.filter(
            |d: t_docId|
                d <= not.max() && (not.held()@.pending.contains(d) || d == not.held()@.last
                    && !not.drained()),
        ).len() < ctx.granularity()
    } by {
        match r {
            Ok(Some(result)) => {
                assert(not.excluded(0, result.doc_id) =~= not.wildcard()@.pending.filter(
                    |d: t_docId|
                        d <= result.doc_id && d <= not.max() && (not.held()@.pending.contains(d)
                            || d == not.held()@.last && !not.drained()),
                ));
            },
            Ok(None) => {
                assert(not.excluded(0, not.max()) =~= not.wildcard()@.pending.filter(
                    |d: t_docId|
                        d <= not.max() && (not.held()@.pending.contains(d) || d
                            == not.held()@.last && !not.drained()),
                ));
            },
            Err(_) => {},
        }
    }
}

/// A `skip_to` hands out the result object with a new id and nothing else changed. `Found` has
/// the id that was asked for. A skip beyond the largest id ends the negation and leaves all else
/// alone.
pub proof fn law_optimized_skip_keeps_the_result_but_its_id<W: RQEIterator, I: RQEIterator>()
    ensures
        forall|
            not: &mut NotOptimized<W, I>,
            doc_id: t_docId,
            r: Result<Option<SkipToOutcome<'_>>, RQEIteratorError>,
        | #[trigger]
            call_ensures(<NotOptimized<W, I> as RQEIterator>::skip_to, (not, doc_id), r) ==> {
                &&& final(not).max() == not.max()
                &&& final(not).deadline() is Some <==> not.deadline() is Some
                &&& not.deadline() matches Some(ctx) ==> {
                    &&& final(not).deadline()->0.started() == ctx.started()
                    &&& final(not).deadline()->0.timeout() == ctx.timeout()
                    &&& final(not).deadline()->0.granularity() == ctx.granularity()
                }
                &&& r matches Ok(Some(SkipToOutcome::Found(result))) ==> {
                    &&& result.doc_id == doc_id
                    &&& result.weight == not.record().weight
                    &&& result.freq == not.record().freq
                    &&& result.field_mask == not.record().field_mask
                    &&& final(not).record() == *final(result)
                }
                &&& r matches Ok(Some(SkipToOutcome::NotFound(result))) ==> {
                    &&& result.weight == not.record().weight
                    &&& result.freq == not.record().freq
                    &&& result.field_mask == not.record().field_mask
                    &&& final(not).record() == *final(result)
                }
                &&& (r matches Ok(None)) ==> final(not)@.ended
                &&& not@.ended ==> (r matches Ok(None)) && *final(not) == *not
                &&& !not@.ended && doc_id > not.max() ==> {
                    &&& r matches Ok(None)
                    &&& final(not).record() == not.record()
                    &&& final(not).wildcard() == not.wildcard()
                    &&& final(not).held() == not.held()
                    &&& final(not).drained() == not.drained()
                    &&& final(not).deadline() == not.deadline()
                }
            },
{
}

/// A skip that finds its id counts as one check of the deadline and does not start the count
/// anew. With a deadline that has passed, a skip that leads to a look at the clock finds nothing.
pub proof fn law_optimized_skips_run_into_a_passed_deadline<W: RQEIterator, I: RQEIterator>()
    ensures
        forall|
            not: &mut NotOptimized<W, I>,
            doc_id: t_docId,
            r: Result<Option<SkipToOutcome<'_>>, RQEIteratorError>,
        | #[trigger]
            call_ensures(<NotOptimized<W, I> as RQEIterator>::skip_to, (not, doc_id), r)
                && not@.reliable && !not@.ended && doc_id <= not.max() && not.deadline() is Some
                ==> {
                let ctx = not.deadline()->0;
                &&& (r matches Ok(Some(SkipToOutcome::Found(_))))
                    ==> final(not).deadline()->0.count() == if ctx.count() + 1 < ctx.granularity() {
                    ctx.count() + 1
                } else {
                    0
                }
                &&& ctx.has_passed() && ctx.count() + 1 >= ctx.granularity()
                    && not.wildcard()@.last < doc_id ==> !(r matches Ok(Some(_)))
            },
{
}

/// A rewind puts the id of the result back to 0 and changes nothing else of it. The deadline stays.
/// Wildcard and child have all ahead again that they have.
pub proof fn law_optimized_rewind_keeps_the_result_but_its_id<W: RQEIterator, I: RQEIterator>()
    ensures
        forall|not: &mut NotOptimized<W, I>| #[trigger]
            call_ensures(<NotOptimized<W, I> as RQEIterator>::rewind, (not,), ()) ==> {
                &&& final(not).record().doc_id == 0
                &&& final(not).record().weight == not.record().weight
                &&& final(not).record().freq == not.record().freq
                &&& final(not).record().field_mask == not.record().field_mask
                &&& final(not).max() == not.max()
                &&& final(not).deadline() == not.deadline()
                &&& final(not)@.ended <==> not.max() == 0
                &&& final(not).held().iterator is Some <==> not.held().iterator is Some
                &&& final(not).held()@.last == 0
                &&& final(not).wildcard()@.last == 0
                &&& !final(not).drained()
                &&& final(not)@.docs =~= not@.docs
                &&& not.held()@.sound && not.wildcard()@.sound ==> final(not)@.reliable && forall|
                    d: t_docId,
                | #[trigger]
                    final(not)@.pending.contains(d) <==> 1 <= d <= not.max()
                        && not.wildcard()@.docs.contains(d) && !not.held()@.docs.contains(d)
            },
{
}

/// A revalidation in which neither the wildcard nor the child moves changes nothing of what the
/// negation has or has ahead: it reads on as if there had been none.
pub proof fn law_unmoved_parts_leave_the_negation_as_it_is<W: RQEIterator, I: RQEIterator>()
    ensures
        forall|
            not: &mut NotOptimized<W, I>,
            r: Result<RQEValidateStatus<'_>, RQEIteratorError>,
        | #[trigger]
            call_ensures(<NotOptimized<W, I> as RQEIterator>::revalidate, (not,), r) && r is Ok && (
            forall|fate: Revalidation, child: Cursor| #[trigger]
                not.held().revalidates_to(fate, child) ==> fate == Revalidation::Valid && child
                    == not.held()@) && (forall|fate: Revalidation, wildcard: Cursor| #[trigger]
                not.wildcard().revalidates_to(fate, wildcard) ==> fate == Revalidation::Valid
                    && wildcard == not.wildcard()@) ==> {
                &&& r matches Ok(RQEValidateStatus::Valid)
                &&& final(not)@.docs =~= not@.docs
                &&& final(not)@.pending =~= not@.pending
                &&& final(not)@.last == not@.last
                &&& final(not)@.ended == not@.ended
                &&& final(not)@.shown == not@.shown
                &&& final(not)@.reliable == not@.reliable
                &&& final(not)@.sound == not@.sound
                &&& final(not)@.faults =~= not@.faults
                &&& final(not).drained() == not.drained()
                &&& final(not).deadline() == not.deadline()
            },
{
}

/// A revalidation leaves the negation where it stands. It aborts the negation if and only if the
/// wildcard is aborted, and fails only if that of the wildcard or of the child does. Else the
/// negation goes on over what wildcard and child now are, without the child if it was aborted.
pub proof fn law_optimized_negation_goes_on_over_its_revalidated_parts<
    W: RQEIterator,
    I: RQEIterator,
>()
    ensures
        forall|
            not: &mut NotOptimized<W, I>,
            r: Result<RQEValidateStatus<'_>, RQEIteratorError>,
        | #[trigger]
            call_ensures(<NotOptimized<W, I> as RQEIterator>::revalidate, (not,), r) ==> {
                &&& final(not).record() == not.record()
                &&& final(not).max() == not.max()
                &&& final(not).done() == not.done()
                &&& final(not).deadline() == not.deadline()
                &&& r matches Err(error) ==> not.wildcard()@.faults.contains(error)
                    || not.held()@.faults.contains(error)
                &&& r is Ok ==> (r matches Ok(RQEValidateStatus::Valid)) || (r matches Ok(
                    RQEValidateStatus::Aborted,
                ))
                &&& (r matches Ok(RQEValidateStatus::Aborted)) ==> not.wildcard().revalidates_to(
                    Revalidation::Aborted,
                    final(not).wildcard()@,
                )
                &&& (r matches Ok(RQEValidateStatus::Valid)) ==> {
                    &&& exists|fate: Revalidation| #[trigger]
                        not.wildcard().revalidates_to(fate, final(not).wildcard()@) && fate
                            != Revalidation::Aborted
                    &&& exists|fate: Revalidation, child: Cursor| #[trigger]
                        not.held().revalidates_to(fate, child) && (if fate
                            == Revalidation::Aborted {
                            final(not).held().iterator is None && !final(not).drained()
                        } else {
                            final(not).held()@ == child && final(not).drained() == (fate
                                == Revalidation::MovedToEnd || fate == Revalidation::Valid
                                && not.drained())
                        })
                }
            },
{
    assert forall|
        not: &mut NotOptimized<W, I>,
        r: Result<RQEValidateStatus<'_>, RQEIteratorError>,
    | #[trigger]
        call_ensures(<NotOptimized<W, I> as RQEIterator>::revalidate, (not,), r) && (r matches Ok(
            RQEValidateStatus::Valid,
        )) implies exists|fate: Revalidation, child: Cursor| #[trigger]
        not.held().revalidates_to(fate, child) && (if fate == Revalidation::Aborted {
            final(not).held().iterator is None && !final(not).drained()
        } else {
            final(not).held()@ == child && final(not).drained() == (fate == Revalidation::MovedToEnd
                || fate == Revalidation::Valid && not.drained())
        }) by {
        let (fate, child) = choose|fate: Revalidation, child: Cursor| #[trigger]
            not.held().revalidates_to(fate, child) && match fate {
                Revalidation::Valid => final(not).drained() == not.drained(),
                Revalidation::Moved => !final(not).drained(),
                Revalidation::MovedToEnd => final(not).drained(),
                Revalidation::Aborted => !final(not).drained(),
            } && if fate == Revalidation::Aborted {
                final(not).held().iterator is None
            } else {
                &&& final(not).held()@ == child
                &&& final(not).held().iterator is Some <==> not.held().iterator is Some
            };
        assert(not.held().revalidates_to(fate, child));
    }
}

/// The child can be replaced and taken away. The negation stays where it stands, over the same
/// wildcard, and from then on lacks what the new child has, or nothing without a child.
pub proof fn law_child_of_an_optimized_negation_can_be_changed<W: RQEIterator, I: RQEIterator>()
    ensures
        forall|not: &mut NotOptimized<W, I>, child: I| #[trigger]
            call_ensures(NotOptimized::<W, I>::set_child, (not, child), ()) ==> {
                &&& final(not).held().iterator == Some(child)
                &&& !final(not).drained()
                &&& final(not).wildcard() == not.wildcard()
                &&& final(not).record() == not.record()
                &&& final(not).max() == not.max()
                &&& final(not).done() == not.done()
                &&& final(not).deadline() == not.deadline()
            },
        forall|not: &mut NotOptimized<W, I>, r: Option<I>| #[trigger]
            call_ensures(NotOptimized::<W, I>::take_child, (not,), r) ==> {
                &&& r == not.held().iterator
                &&& final(not).held().iterator is None
                &&& !final(not).drained()
                &&& final(not).wildcard() == not.wildcard()
                &&& final(not).record() == not.record()
                &&& final(not).max() == not.max()
                &&& final(not).done() == not.done()
                &&& final(not).deadline() == not.deadline()
            },
        forall|not: NotOptimized<W, I>, r: Option<&I>| #[trigger]
            call_ensures(NotOptimized::<W, I>::child, (&not,), r) ==> match r {
                Some(child) => not.held().iterator == Some(*child),
                None => not.held().iterator is None,
            },
{
}

/// The getters of a negation over a wildcard. It estimates as many documents as the wildcard,
/// and never says that it is empty or a wildcard.
pub proof fn law_getters_of_an_optimized_negation<W: RQEIterator, I: RQEIterator>(
    not: NotOptimized<W, I>,
)
    ensures
        forall|r: usize| #[trigger]
            call_ensures(<NotOptimized<W, I> as RQEIterator>::num_estimated, (&not,), r) ==> r
                == not.wildcard()@.estimate,
        forall|r: t_docId| #[trigger]
            call_ensures(<NotOptimized<W, I> as RQEIterator>::last_doc_id, (&not,), r) ==> r
                == not.record().doc_id,
        forall|r: bool| #[trigger]
            call_ensures(<NotOptimized<W, I> as RQEIterator>::at_eof, (&not,), r) ==> (r
                <==> not.done() || not.record().doc_id >= not.max()),
        forall|r: bool| #[trigger]
            call_ensures(<NotOptimized<W, I> as RQEIterator>::is_wildcard, (&not,), r) ==> !r,
        forall|r: bool| #[trigger]
            call_ensures(<NotOptimized<W, I> as RQEIterator>::is_empty, (&not,), r) ==> !r,
{
}

/// `current` hands out the result of the negation, and changes nothing else of it.
pub proof fn law_current_of_an_optimized_negation<W: RQEIterator, I: RQEIterator>()
    ensures
        forall|not: &mut NotOptimized<W, I>, r: Option<&mut RSIndexResult>| #[trigger]
            call_ensures(<NotOptimized<W, I> as RQEIterator>::current, (not,), r) ==> {
                &&& r matches Some(result)
                &&& *result == not.record()
                &&& *final(result) == final(not).record()
                &&& final(not).wildcard() == not.wildcard()
                &&& final(not).held() == not.held()
                &&& final(not).drained() == not.drained()
                &&& final(not).max() == not.max()
                &&& final(not).done() == not.done()
                &&& final(not).deadline() == not.deadline()
            },
{
}

/// A negation over a wildcard can be made of every wildcard and child, up to every id, and its
/// operations can be called at every moment; only a skip has to go forward.
pub proof fn law_operations_of_an_optimized_negation_can_be_called<W, I>() where
    W: RQEIterator,
    I: RQEIterator,

    ensures
        forall|
            wcii: W,
            child: I,
            max_doc_id: t_docId,
            weight: Weight,
            timeout_nanos: u128,
            skip: bool,
        | #[trigger]
            call_requires(
                NotOptimized::<W, I>::new,
                (wcii, child, max_doc_id, weight, timeout_nanos, skip),
            ),
        forall|not: &mut NotOptimized<W, I>| #[trigger]
            call_requires(<NotOptimized<W, I> as RQEIterator>::read, (not,)),
        forall|not: &mut NotOptimized<W, I>, doc_id: t_docId|
            not.record().doc_id < doc_id ==> #[trigger] call_requires(
                <NotOptimized<W, I> as RQEIterator>::skip_to,
                (not, doc_id),
            ),
        forall|not: &mut NotOptimized<W, I>| #[trigger]
            call_requires(<NotOptimized<W, I> as RQEIterator>::revalidate, (not,)),
        forall|not: &mut NotOptimized<W, I>| #[trigger]
            call_requires(<NotOptimized<W, I> as RQEIterator>::rewind, (not,)),
        forall|not: &mut NotOptimized<W, I>, child: I| #[trigger]
            call_requires(NotOptimized::<W, I>::set_child, (not, child)),
        forall|not: &mut NotOptimized<W, I>| #[trigger]
            call_requires(NotOptimized::<W, I>::take_child, (not,)),
{
}

/// What a negation over a wildcard can be after a revalidation is laid down by what its wildcard
/// and its child can be: it stands where it stood, and is aborted if and only if the wildcard is.
pub proof fn law_revalidations_of_an_optimized_negation<W: RQEIterator, I: RQEIterator>(
    not: NotOptimized<W, I>,
    outcome: Revalidation,
    next: Cursor,
)
    requires
        not.revalidates_to(outcome, next),
    ensures
        outcome == Revalidation::Valid || outcome == Revalidation::Aborted,
        next.last == not@.last,
        next.ended == not@.ended,
        next.shown == not@.shown,
        exists|fate: Revalidation, wildcard: Cursor| #[trigger]
            not.wildcard().revalidates_to(fate, wildcard) && (fate == Revalidation::Aborted
                <==> outcome == Revalidation::Aborted) && next.estimate == wildcard.estimate
                && forall|d: t_docId| #[trigger]
                next.docs.contains(d) ==> 1 <= d <= not.max() && wildcard.docs.contains(d),
{
    let (fate, wildcard) = choose|fate: Revalidation, wildcard: Cursor| #[trigger]
        not.wildcard().revalidates_to(fate, wildcard) && {
            if fate == Revalidation::Aborted {
                outcome == Revalidation::Aborted && next == not.view_over(
                    wildcard,
                    not.held()@,
                    not.drained(),
                )
            } else {
                &&& outcome == Revalidation::Valid
                &&& exists|child_fate: Revalidation, child: Cursor| #[trigger]
                    not.held().revalidates_to(child_fate, child) && next == not.view_over(
                        wildcard,
                        if child_fate == Revalidation::Aborted {
                            empty_cursor()
                        } else {
                            child
                        },
                        child_fate.leaves_ran_out(not.drained()),
                    )
            }
        };
    assert(not.wildcard().revalidates_to(fate, wildcard));
}

/// The deadline is checked once for each document of both the wildcard and the child that is
/// passed over, on and on: not only until the clock has been looked at for the first time.
pub proof fn law_every_excluded_document_is_a_check<W: RQEIterator, I: RQEIterator>()
    ensures
        forall|
            not: &mut NotOptimized<W, I>,
            r: Result<Option<&mut RSIndexResult>, RQEIteratorError>,
        | #[trigger]
            call_ensures(<NotOptimized<W, I> as RQEIterator>::read, (not,), r) && not@.reliable
                && !not@.ended && not.deadline() is Some ==> {
                let made = final(not).deadline()->0.checks() - not.deadline()->0.checks();
                &&& r matches Ok(Some(result)) ==> made == not.wildcard()@.pending.filter(
                    |d: t_docId|
                        d <= result.doc_id && d <= not.max() && (not.held()@.pending.contains(d)
                            || d == not.held()@.last && !not.drained()),
                ).len()
                &&& (r matches Ok(None)) ==> made == not.wildcard()@.pending.filter(
                    |d: t_docId|
                        d <= not.max() && (not.held()@.pending.contains(d) || d
                            == not.held()@.last && !not.drained()),
                ).len()
            },
        forall|
            not: &mut NotOptimized<W, I>,
            doc_id: t_docId,
            r: Result<Option<SkipToOutcome<'_>>, RQEIteratorError>,
        | #[trigger]
            call_ensures(<NotOptimized<W, I> as RQEIterator>::skip_to, (not, doc_id), r) && (
            r matches Ok(Some(SkipToOutcome::Found(_)))) && not.deadline() is Some
                ==> final(not).deadline()->0.checks() == not.deadline()->0.checks() + 1,
{
    assert forall|
        not: &mut NotOptimized<W, I>,
        r: Result<Option<&mut RSIndexResult>, RQEIteratorError>,
    | #[trigger]
        call_ensures(<NotOptimized<W, I> as RQEIterator>::read, (not,), r) && not@.reliable
            && !not@.ended && not.deadline() is Some implies {
        let made = final(not).deadline()->0.checks() - not.deadline()->0.checks();
        &&& r matches Ok(Some(result)) ==> made == not.wildcard()@.pending.filter(
            |d: t_docId|
                d <= result.doc_id && d <= not.max() && (not.held()@.pending.contains(d) || d
                    == not.held()@.last && !not.drained()),
        ).len()
        &&& (r matches Ok(None)) ==> made == not.wildcard()@.pending.filter(
            |d: t_docId|
                d <= not.max() && (not.held()@.pending.contains(d) || d == not.held()@.last
                    && !not.drained()),
        ).len()
    } by {
        match r {
            Ok(Some(result)) => {
                assert(not.excluded(0, result.doc_id) =~= not.wildcard()@.pending.filter(
                    |d: t_docId|
                        d <= result.doc_id && d <= not.max() && (not.held()@.pending.contains(d)
                            || d == not.held()@.last && !not.drained()),
                ));
            },
            Ok(None) => {
                assert(not.excluded(0, not.max()) =~= not.wildcard()@.pending.filter(
                    |d: t_docId|
                        d <= not.max() && (not.held()@.pending.contains(d) || d
                            == not.held()@.last && !not.drained()),
                ));
            },
            Err(_) => {},
        }
    }
}

} // verus!
