//! What each operation does to a sequential negation, as its callers see it.

use vstd::prelude::*;

use crate::empty::empty_cursor;
use crate::index_result::{t_docId, RSIndexResult, Weight};
use crate::not::Not;
use crate::rqe_iterator::{
    Cursor, RQEIterator, RQEIteratorError, RQEValidateStatus, Revalidation, SkipToOutcome,
};
use crate::timeout::TimeoutContext;

verus! {

/// A new negation goes through the ids from 1 to `max_doc_id` that its child lacks. It stands in
/// front of them on a virtual result of the given weight, and is neither empty nor a wildcard by
/// its own account. Its deadline lies `timeout_nanos` behind its start, unless checks are skipped.
pub proof fn law_new_negation<I: RQEIterator>(
    child: I,
    max_doc_id: t_docId,
    weight: Weight,
    timeout_nanos: u128,
    skip_timeout_checks: bool,
    not: Not<I>,
)
    requires
        call_ensures(
            Not::<I>::new,
            (child, max_doc_id, weight, timeout_nanos, skip_timeout_checks),
            not,
        ),
    ensures
        not.held().iterator == Some(child),
        !not.drained(),
        !not.timed_out(),
        not.max() == max_doc_id,
        forall|d: t_docId| #[trigger]
            not@.docs.contains(d) <==> 1 <= d <= max_doc_id && !child@.docs.contains(d),
        forall|d: t_docId| #[trigger] not@.pending.contains(d) <==> not@.docs.contains(d),
        not@.last == 0,
        not@.ended <==> max_doc_id == 0,
        not@.shown == Some(
            (RSIndexResult { doc_id: 0, freq: 0, field_mask: u128::MAX, weight }),
        ),
        not@.index =~= child@.index,
        not@.sound == child@.sound,
        not@.estimate == max_doc_id as usize,
        !not@.known_empty,
        !not@.matches_all,
        forall|error: RQEIteratorError| #[trigger]
            not@.faults.contains(error) <==> child@.faults.contains(error) || error
                == RQEIteratorError::TimedOut && !skip_timeout_checks,
        child@.reliable && child@.last == 0 && child@.pending =~= child@.docs ==> not@.reliable,
        skip_timeout_checks ==> not.deadline() is None,
        !skip_timeout_checks ==> {
            &&& not.deadline() matches Some(ctx)
            &&& ctx.timeout() == timeout_nanos
            &&& ctx.granularity() == 5_000
            &&& ctx.count() == 0
        },
{
    child.lemma_consistent();
}

/// A negation lacks what its child has and has what its child lacks, at every moment.
/// It stands on the result that it shows, and has ended when it stands on the largest id
/// or has found its deadline to have passed. It is neither empty nor a wildcard by its own
/// account, so neither it nor its own negation is taken for everything or nothing.
pub proof fn law_negation_at_every_moment<I: RQEIterator>(not: Not<I>, d: t_docId)
    ensures
        not@.docs.contains(d) <==> 1 <= d <= not.max() && !not.held()@.docs.contains(d),
        not@.pending.contains(d) <==> not@.docs.contains(d) && d > not@.last,
        not@.shown == Some(not.record()),
        not@.last == not.record().doc_id,
        not@.ended <==> not.timed_out() || not.record().doc_id >= not.max(),
        not@.index =~= not.held()@.index,
        not@.sound == not.held()@.sound,
        not@.estimate == not.max() as usize,
        !not@.known_empty,
        !not@.matches_all,
        forall|error: RQEIteratorError| #[trigger]
            not@.faults.contains(error) <==> not.held()@.faults.contains(error) || error
                == RQEIteratorError::TimedOut && not.deadline() is Some,
{
}

/// A negation can be relied upon if it has not timed out and its child tells what it has
/// from here on: all that the child has ahead lies ahead of the negation, and behind the negation
/// the child has just what it has ahead and the document on which it stands, if it stands on one.
pub proof fn law_negation_is_reliable_over_a_child_in_step<I: RQEIterator>(not: Not<I>)
    requires
        !not.timed_out(),
        not.held()@.reliable,
        forall|d: t_docId| #[trigger] not.held()@.pending.contains(d) ==> d > not@.last,
        forall|d: t_docId|
            d > not@.last ==> (#[trigger] not.held()@.docs.contains(d)
                <==> not.held()@.pending.contains(d) || d == not.held()@.last && !not.drained()),
    ensures
        not@.reliable,
{
}

/// A `read` hands out the result object with a new id and nothing else changed, so the weight
/// of the query stays on it. Bounds and deadline stay as they are.
pub proof fn law_read_keeps_the_result_but_its_id<I: RQEIterator>()
    ensures
        forall|not: &mut Not<I>, r: Result<Option<&mut RSIndexResult>, RQEIteratorError>| #[trigger]
            call_ensures(<Not<I> as RQEIterator>::read, (not,), r) ==> {
                &&& final(not).max() == not.max()
                &&& final(not).held().iterator is Some <==> not.held().iterator is Some
                &&& final(not).deadline() is Some <==> not.deadline() is Some
                &&& not.deadline() matches Some(ctx) ==> {
                    &&& final(not).deadline()->0.started() == ctx.started()
                    &&& final(not).deadline()->0.timeout() == ctx.timeout()
                    &&& final(not).deadline()->0.granularity() == ctx.granularity()
                }
                &&& r matches Ok(Some(result)) ==> {
                    &&& not.record().doc_id < result.doc_id <= not.max()
                    &&& result.weight == not.record().weight
                    &&& result.freq == not.record().freq
                    &&& result.field_mask == not.record().field_mask
                    &&& final(not).record() == *final(result)
                    &&& final(not).deadline() matches Some(ctx) ==> ctx.count() == 0
                }
                &&& !(r matches Ok(Some(_))) ==> {
                    &&& final(not).record().weight == not.record().weight
                    &&& final(not).record().freq == not.record().freq
                    &&& final(not).record().field_mask == not.record().field_mask
                }
                &&& not@.ended ==> (r matches Ok(None)) && *final(not) == *not
                &&& (r matches Ok(None)) && !not@.ended ==> final(not).record().doc_id == not.max()
                    && !final(not).timed_out()
            },
{
}

/// Over a child that can be relied upon and has nothing pending behind the negation, a `read`
/// comes to the next id that the child neither has ahead nor stands on, as far as there is one.
pub proof fn law_read_finds_the_next_gap<I: RQEIterator>()
    ensures
        forall|not: &mut Not<I>, r: Result<Option<&mut RSIndexResult>, RQEIteratorError>| #[trigger]
            call_ensures(<Not<I> as RQEIterator>::read, (not,), r) && !not@.ended
                && not.held()@.reliable && (forall|d: t_docId| #[trigger]
                not.held()@.pending.contains(d) ==> d > not.record().doc_id) ==> match r {
                Ok(Some(result)) => {
                    &&& !not.held()@.pending.contains(result.doc_id)
                    &&& result.doc_id == not.held()@.last ==> not.drained()
                    &&& forall|d: t_docId|
                        not.record().doc_id < d < result.doc_id
                            ==> #[trigger] not.held()@.pending.contains(d) || d == not.held()@.last
                            && !not.drained()
                },
                Ok(None) => forall|d: t_docId|
                    not.record().doc_id < d <= not.max()
                        ==> #[trigger] not.held()@.pending.contains(d) || d == not.held()@.last
                        && !not.drained(),
                Err(_) => true,
            },
{
    assert forall|not: &mut Not<I>, r: Result<Option<&mut RSIndexResult>, RQEIteratorError>|
        #[trigger]
        call_ensures(<Not<I> as RQEIterator>::read, (not,), r) && !not@.ended
            && not.held()@.reliable && (forall|d: t_docId| #[trigger]
            not.held()@.pending.contains(d) ==> d > not.record().doc_id) implies match r {
        Ok(Some(result)) => {
            &&& !not.held()@.pending.contains(result.doc_id)
            &&& result.doc_id == not.held()@.last ==> not.drained()
            &&& forall|d: t_docId|
                not.record().doc_id < d < result.doc_id
                    ==> #[trigger] not.held()@.pending.contains(d) || d == not.held()@.last
                    && !not.drained()
        },
        Ok(None) => forall|d: t_docId|
            not.record().doc_id < d <= not.max()
                ==> #[trigger] not.held()@.pending.contains(d) || d == not.held()@.last
                && !not.drained(),
        Err(_) => true,
    } by {
        assert(not.aligned());
        match r {
            Ok(Some(result)) => {
                assert forall|d: t_docId| not.record().doc_id < d < result.doc_id implies
                    #[trigger] not.held()@.pending.contains(d) || d == not.held()@.last
                    && !not.drained() by {
                    assert(not.claims(d));
                }
            },
            Ok(None) => {
                assert forall|d: t_docId| not.record().doc_id < d <= not.max() implies #[trigger]
                not.held()@.pending.contains(d) || d == not.held()@.last && !not.drained() by {
                    assert(not.claims(d));
                }
            },
            Err(_) => {},
        }
    }
}

/// A `read` or a `skip_to` fails only with an error of the child, or because the clock was looked
/// at and the deadline had been reached. Then the negation has ended.
pub proof fn law_negation_fails_only_for_cause<I: RQEIterator>()
    ensures
        forall|not: &mut Not<I>, r: Result<Option<&mut RSIndexResult>, RQEIteratorError>| #[trigger]
            call_ensures(<Not<I> as RQEIterator>::read, (not,), r) && r is Err ==> {
                let steps = final(not).record().doc_id - not.record().doc_id;
                &&& !not@.ended
                &&& 0 < steps
                &&& final(not).record().doc_id <= not.max()
                &&& !not.held()@.faults.contains(r->Err_0) ==> {
                    &&& r->Err_0 == RQEIteratorError::TimedOut
                    &&& not.deadline() matches Some(ctx) && ctx.count() + steps
                        >= ctx.granularity() && ctx.can_be_late()
                    &&& final(not)@.ended
                }
            },
        forall|
            not: &mut Not<I>,
            doc_id: t_docId,
            r: Result<Option<SkipToOutcome<'_>>, RQEIteratorError>,
        | #[trigger]
            call_ensures(<Not<I> as RQEIterator>::skip_to, (not, doc_id), r) && r is Err ==> {
                let place = final(not).record().doc_id;
                &&& !not@.ended
                &&& doc_id <= not.max()
                &&& place == not.record().doc_id || doc_id <= place <= not.max()
                &&& !not.held()@.faults.contains(r->Err_0) ==> {
                    &&& r->Err_0 == RQEIteratorError::TimedOut
                    &&& not.deadline() matches Some(ctx) && ctx.can_be_late() && ctx.count() + 1
                        + if place > doc_id {
                        place - doc_id
                    } else {
                        0
                    } >= ctx.granularity()
                    &&& final(not)@.ended
                }
            },
{
}

/// A deadline that has passed stops a `read` that has to go over as many documents of the child
/// in a row as lead to a look at the clock, and the negation has ended with that.
pub proof fn law_read_runs_into_a_passed_deadline<I: RQEIterator>()
    ensures
        forall|not: &mut Not<I>, r: Result<Option<&mut RSIndexResult>, RQEIteratorError>| #[trigger]
            call_ensures(<Not<I> as RQEIterator>::read, (not,), r) && not@.reliable && !not@.ended
                && (not.deadline() matches Some(ctx) && ctx.has_passed() && 0 < ctx.granularity()
                && not.record().doc_id + ctx.granularity() <= not.max() && forall|d: t_docId|
                not.record().doc_id < d <= not.record().doc_id + ctx.granularity()
                    ==> #[trigger] not.held()@.docs.contains(d)) ==> {
                &&& r is Err
                &&& !not.held()@.faults.contains(r->Err_0) ==> r->Err_0
                    == RQEIteratorError::TimedOut && final(not)@.ended
            },
{
    assert forall|not: &mut Not<I>, r: Result<Option<&mut RSIndexResult>, RQEIteratorError>|
        #[trigger]
        call_ensures(<Not<I> as RQEIterator>::read, (not,), r) && not@.reliable && !not@.ended && (
        not.deadline() matches Some(ctx) && ctx.has_passed() && 0 < ctx.granularity()
            && not.record().doc_id + ctx.granularity() <= not.max() && forall|d: t_docId|
            not.record().doc_id < d <= not.record().doc_id + ctx.granularity()
                ==> #[trigger] not.held()@.docs.contains(d)) implies r is Err by {
        let ctx = not.deadline()->0;
        assert forall|d: t_docId|
            not.place() < d <= not.place() + ctx.granularity() implies #[trigger] not.claims(d) by {
            assert(not.held()@.docs.contains(d));
        }
        assert(not.meets_deadline());
    }
}

/// A `skip_to` hands out the result object with a new id and nothing else changed. `Found` has the
/// id that was asked for, `NotFound` a larger one. A skip beyond the largest id ends the negation
/// there and leaves all else alone.
pub proof fn law_skip_keeps_the_result_but_its_id<I: RQEIterator>()
    ensures
        forall|
            not: &mut Not<I>,
            doc_id: t_docId,
            r: Result<Option<SkipToOutcome<'_>>, RQEIteratorError>,
        | #[trigger]
            call_ensures(<Not<I> as RQEIterator>::skip_to, (not, doc_id), r) ==> {
                &&& final(not).max() == not.max()
                &&& final(not).held().iterator is Some <==> not.held().iterator is Some
                &&& final(not).deadline() is Some <==> not.deadline() is Some
                &&& not.deadline() matches Some(ctx) ==> {
                    &&& final(not).deadline()->0.started() == ctx.started()
                    &&& final(not).deadline()->0.timeout() == ctx.timeout()
                    &&& final(not).deadline()->0.granularity() == ctx.granularity()
                }
                &&& r matches Ok(Some(SkipToOutcome::Found(result))) ==> {
                    &&& result.doc_id == doc_id <= not.max()
                    &&& result.weight == not.record().weight
                    &&& result.freq == not.record().freq
                    &&& result.field_mask == not.record().field_mask
                    &&& final(not).record() == *final(result)
                }
                &&& r matches Ok(Some(SkipToOutcome::NotFound(result))) ==> {
                    &&& final(not).deadline() matches Some(ctx) ==> ctx.count() == 0
                    &&& doc_id < result.doc_id <= not.max()
                    &&& result.weight == not.record().weight
                    &&& result.freq == not.record().freq
                    &&& result.field_mask == not.record().field_mask
                    &&& final(not).record() == *final(result)
                }
                &&& !(r matches Ok(Some(_))) ==> {
                    &&& final(not).record().weight == not.record().weight
                    &&& final(not).record().freq == not.record().freq
                    &&& final(not).record().field_mask == not.record().field_mask
                }
                &&& not@.ended ==> (r matches Ok(None)) && *final(not) == *not
                &&& (r matches Ok(None)) && !not@.ended ==> final(not).record().doc_id == not.max()
                    && !final(not).timed_out()
                &&& !not@.ended && doc_id > not.max() ==> {
                    &&& r matches Ok(None)
                    &&& final(not).held() == not.held()
                    &&& final(not).drained() == not.drained()
                    &&& final(not).deadline() == not.deadline()
                }
            },
{
}

/// Over a child that can be relied upon, a `skip_to` finds `doc_id` if the child neither has it
/// ahead nor stands on it, and else comes to the next id of which that holds.
pub proof fn law_skip_finds_the_next_gap<I: RQEIterator>()
    ensures
        forall|
            not: &mut Not<I>,
            doc_id: t_docId,
            r: Result<Option<SkipToOutcome<'_>>, RQEIteratorError>,
        | #[trigger]
            call_ensures(<Not<I> as RQEIterator>::skip_to, (not, doc_id), r) && !not@.ended
                && not.held()@.reliable && doc_id <= not.max() ==> {
                let taken = not.held()@.pending.contains(doc_id) || doc_id == not.held()@.last
                    && !not.drained();
                &&& (r matches Ok(Some(SkipToOutcome::Found(_)))) ==> !taken
                &&& r matches Ok(Some(SkipToOutcome::NotFound(result))) ==> {
                    &&& taken
                    &&& !not.held()@.pending.contains(result.doc_id)
                    &&& result.doc_id == not.held()@.last ==> not.drained()
                    &&& forall|d: t_docId|
                        doc_id < d < result.doc_id ==> #[trigger] not.held()@.pending.contains(d)
                            || d == not.held()@.last && !not.drained()
                }
                &&& (r matches Ok(None)) ==> {
                    &&& taken
                    &&& forall|d: t_docId|
                        doc_id < d <= not.max() ==> #[trigger] not.held()@.pending.contains(d) || d
                            == not.held()@.last && !not.drained()
                }
            },
{
    assert forall|
        not: &mut Not<I>,
        doc_id: t_docId,
        r: Result<Option<SkipToOutcome<'_>>, RQEIteratorError>,
        d: t_docId,
    |
        #![trigger
            call_ensures(<Not<I> as RQEIterator>::skip_to, (not, doc_id), r),
            not.held()@.pending.contains(d)]
        call_ensures(<Not<I> as RQEIterator>::skip_to, (not, doc_id), r) && !not@.ended
            && not.held()@.reliable && doc_id <= not.max() && doc_id < d <= not.max() && ((
        r matches Ok(None)) || (r matches Ok(Some(SkipToOutcome::NotFound(result))) && d
            < result.doc_id)) implies not.held()@.pending.contains(d) || d == not.held()@.last
        && !not.drained() by {
        assert(not.claims(d));
    }
}

/// A skip that finds its id counts as one check of the deadline and does not start the count
/// anew. With a deadline that has passed, a skip that leads to a look at the clock fails.
pub proof fn law_skips_run_into_a_passed_deadline_one_by_one<I: RQEIterator>()
    ensures
        forall|
            not: &mut Not<I>,
            doc_id: t_docId,
            r: Result<Option<SkipToOutcome<'_>>, RQEIteratorError>,
        | #[trigger]
            call_ensures(<Not<I> as RQEIterator>::skip_to, (not, doc_id), r) && !not@.ended
                && doc_id <= not.max() && not.deadline() is Some ==> {
                let ctx = not.deadline()->0;
                &&& (r matches Ok(Some(SkipToOutcome::Found(_))))
                    ==> final(not).deadline()->0.count() == if ctx.count() + 1 < ctx.granularity() {
                    ctx.count() + 1
                } else {
                    0
                }
                &&& ctx.has_passed() && ctx.count() + 1 >= ctx.granularity() ==> {
                    &&& r is Err
                    &&& !not.held()@.faults.contains(r->Err_0) ==> r->Err_0
                        == RQEIteratorError::TimedOut && final(not)@.ended
                }
            },
{
}

/// A child that is ahead of where the negation is asked to go, or has ended in front of it,
/// is left alone: it is not asked again.
pub proof fn law_child_that_is_ahead_is_left_alone<I: RQEIterator>()
    ensures
        forall|not: &mut Not<I>, r: Result<Option<&mut RSIndexResult>, RQEIteratorError>| #[trigger]
            call_ensures(<Not<I> as RQEIterator>::read, (not,), r) && !not@.ended
                && not.held()@.last > not.record().doc_id + 1 ==> {
                &&& r matches Ok(Some(result)) && result.doc_id == not.record().doc_id + 1
                &&& final(not).held() == not.held()
                &&& final(not).drained() == not.drained()
            },
        forall|
            not: &mut Not<I>,
            doc_id: t_docId,
            r: Result<Option<SkipToOutcome<'_>>, RQEIteratorError>,
        | #[trigger]
            call_ensures(<Not<I> as RQEIterator>::skip_to, (not, doc_id), r) && !not@.ended
                && doc_id <= not.max() && (not.held()@.last > doc_id || not.held()@.ended
                && not.held()@.last < doc_id) ==> {
                &&& final(not).held() == not.held()
                &&& final(not).drained() == not.drained()
            },
{
}

/// A rewind puts the id of the result back to 0 and changes nothing else of it: weight, frequency
/// and field mask stay. The deadline stays too, and a timeout that was found is forgotten.
/// What the child has ahead is again all that it has.
pub proof fn law_rewind_keeps_the_result_but_its_id<I: RQEIterator>()
    ensures
        forall|not: &mut Not<I>| #[trigger]
            call_ensures(<Not<I> as RQEIterator>::rewind, (not,), ()) ==> {
                &&& final(not).record().doc_id == 0
                &&& final(not).record().weight == not.record().weight
                &&& final(not).record().freq == not.record().freq
                &&& final(not).record().field_mask == not.record().field_mask
                &&& final(not).max() == not.max()
                &&& final(not).deadline() == not.deadline()
                &&& final(not)@.ended <==> not.max() == 0
                &&& final(not).held().iterator is Some <==> not.held().iterator is Some
                &&& final(not).held()@.last == 0
                &&& !final(not).drained()
                &&& final(not)@.docs =~= not@.docs
                &&& not.held()@.sound ==> final(not)@.reliable && forall|d: t_docId| #[trigger]
                    final(not)@.pending.contains(d) <==> 1 <= d <= not.max()
                        && !not.held()@.docs.contains(d)
            },
{
}

/// A revalidation in which the child does not move does not move the negation, and changes nothing
/// of what it has or has ahead: it reads on as if there had been none.
pub proof fn law_unmoved_child_leaves_the_negation_as_it_is<I: RQEIterator>()
    ensures
        forall|not: &mut Not<I>, r: Result<RQEValidateStatus<'_>, RQEIteratorError>| #[trigger]
            call_ensures(<Not<I> as RQEIterator>::revalidate, (not,), r) && r is Ok && (forall|
                fate: Revalidation,
                child: Cursor,
            | #[trigger]
                not.held().revalidates_to(fate, child) ==> fate == Revalidation::Valid && child
                    == not.held()@) ==> {
                &&& r matches Ok(RQEValidateStatus::Valid)
                &&& final(not)@.docs =~= not@.docs
                &&& final(not)@.pending =~= not@.pending
                &&& final(not)@.last == not@.last
                &&& final(not)@.ended == not@.ended
                &&& final(not)@.shown == not@.shown
                &&& final(not)@.reliable == not@.reliable
                &&& final(not)@.sound == not@.sound
                &&& final(not)@.faults =~= not@.faults
                &&& final(not).drained() == not.drained()
                &&& final(not).held()@ == not.held()@
                &&& final(not).deadline() == not.deadline()
            },
{
}

/// Whatever becomes of the child, a revalidation of the negation is valid, leaves it where it
/// stands, and fails only if the child's does. The negation goes on over what the child now is:
/// over nothing if the child was aborted, over a child that stands on a document if it has moved to
/// one, over one that has run out if it has moved to its end.
pub proof fn law_negation_goes_on_over_the_revalidated_child<I: RQEIterator>()
    ensures
        forall|not: &mut Not<I>, r: Result<RQEValidateStatus<'_>, RQEIteratorError>| #[trigger]
            call_ensures(<Not<I> as RQEIterator>::revalidate, (not,), r) ==> {
                &&& final(not).record() == not.record()
                &&& final(not).max() == not.max()
                &&& final(not).timed_out() == not.timed_out()
                &&& final(not).deadline() == not.deadline()
                &&& final(not)@.last == not@.last
                &&& final(not)@.ended == not@.ended
                &&& final(not)@.shown == not@.shown
                &&& r matches Err(error) ==> not.held()@.faults.contains(error)
                &&& r is Ok ==> (r matches Ok(RQEValidateStatus::Valid))
                &&& not.held().iterator is None ==> r is Ok && final(not).held().iterator is None
            },
        forall|not: &mut Not<I>, r: Result<RQEValidateStatus<'_>, RQEIteratorError>| #[trigger]
            call_ensures(<Not<I> as RQEIterator>::revalidate, (not,), r) && r is Ok ==> exists|
                fate: Revalidation,
                child: Cursor,
            | #[trigger]
                not.held().revalidates_to(fate, child) && if fate == Revalidation::Aborted {
                    &&& final(not).held().iterator is None
                    &&& !final(not).drained()
                    &&& forall|d: t_docId| #[trigger]
                        final(not)@.docs.contains(d) <==> 1 <= d <= not.max()
                    &&& !not.timed_out() ==> final(not)@.reliable
                } else {
                    let stands = if fate == Revalidation::Valid {
                        !not.drained()
                    } else {
                        fate == Revalidation::Moved
                    };
                    &&& final(not).held()@ == child
                    &&& final(not).drained() == !stands
                    &&& forall|d: t_docId| #[trigger]
                        final(not)@.docs.contains(d) <==> 1 <= d <= not.max()
                            && !child.docs.contains(d)
                    &&& !not.timed_out() && child.reliable && (forall|d: t_docId| #[trigger]
                        child.pending.contains(d) ==> d > not@.last) && (forall|d: t_docId|
                        d > not@.last ==> (#[trigger] child.docs.contains(d)
                            <==> child.pending.contains(d) || stands && d == child.last))
                        ==> final(not)@.reliable
                },
{
    assert forall|not: &mut Not<I>, r: Result<RQEValidateStatus<'_>, RQEIteratorError>| #[trigger]
        call_ensures(<Not<I> as RQEIterator>::revalidate, (not,), r) && r is Ok implies exists|
        fate: Revalidation,
        child: Cursor,
    | #[trigger]
        not.held().revalidates_to(fate, child) && if fate == Revalidation::Aborted {
            &&& final(not).held().iterator is None
            &&& !final(not).drained()
            &&& forall|d: t_docId| #[trigger]
                final(not)@.docs.contains(d) <==> 1 <= d <= not.max()
            &&& !not.timed_out() ==> final(not)@.reliable
        } else {
            let stands = if fate == Revalidation::Valid {
                !not.drained()
            } else {
                fate == Revalidation::Moved
            };
            &&& final(not).held()@ == child
            &&& final(not).drained() == !stands
            &&& forall|d: t_docId| #[trigger]
                final(not)@.docs.contains(d) <==> 1 <= d <= not.max() && !child.docs.contains(d)
            &&& !not.timed_out() && child.reliable && (forall|d: t_docId| #[trigger]
                child.pending.contains(d) ==> d > not@.last) && (forall|d: t_docId|
                d > not@.last ==> (#[trigger] child.docs.contains(d) <==> child.pending.contains(d)
                    || stands && d == child.last)) ==> final(not)@.reliable
        } by {
        let (fate, child) = choose|fate: Revalidation, child: Cursor| #[trigger]
            not.held().revalidates_to(fate, child) && final(not).drained() == fate.leaves_ran_out(
                not.drained(),
            ) && if fate == Revalidation::Aborted {
                final(not).held().iterator is None
            } else {
                &&& final(not).held()@ == child
                &&& final(not).held().iterator is Some <==> not.held().iterator is Some
            };
        assert(not.held().revalidates_to(fate, child));
    }
}

/// What has become of the child decides alone whether it is kept and whether it stands on a
/// document of it. An unmoved child is kept as it was.
pub proof fn law_child_is_settled_by_its_fate<I: RQEIterator>()
    ensures
        forall|not: &mut Not<I>, fate: Revalidation, status: RQEValidateStatus<'_>| #[trigger]
            call_ensures(Not::<I>::settle_child, (not, fate), status) ==> {
                &&& status matches RQEValidateStatus::Valid
                &&& final(not).record() == not.record()
                &&& final(not).max() == not.max()
                &&& final(not).timed_out() == not.timed_out()
                &&& final(not).deadline() == not.deadline()
                &&& fate == Revalidation::Valid ==> {
                    &&& final(not).held() == not.held()
                    &&& final(not).drained() == not.drained()
                    &&& final(not)@ == not@
                }
                &&& fate == Revalidation::Moved ==> {
                    &&& final(not).held() == not.held()
                    &&& !final(not).drained()
                }
                &&& fate == Revalidation::MovedToEnd ==> {
                    &&& final(not).held() == not.held()
                    &&& final(not).drained()
                }
                &&& fate == Revalidation::Aborted ==> {
                    &&& final(not).held().iterator is None
                    &&& !final(not).drained()
                }
            },
{
}

/// The child can be replaced, dropped and taken away. The negation stays where it stands,
/// with its result, its bound and its deadline, and from then on lacks what the new child has,
/// or nothing without a child.
pub proof fn law_child_of_a_negation_can_be_changed<I: RQEIterator>()
    ensures
        forall|not: &mut Not<I>, child: I| #[trigger]
            call_ensures(Not::<I>::set_child, (not, child), ()) ==> {
                &&& final(not).held().iterator == Some(child)
                &&& !final(not).drained()
                &&& final(not).record() == not.record()
                &&& final(not).max() == not.max()
                &&& final(not).timed_out() == not.timed_out()
                &&& final(not).deadline() == not.deadline()
                &&& forall|d: t_docId| #[trigger]
                    final(not)@.docs.contains(d) <==> 1 <= d <= not.max() && !child@.docs.contains(
                        d,
                    )
            },
        forall|not: &mut Not<I>| #[trigger]
            call_ensures(Not::<I>::unset_child, (not,), ()) ==> {
                &&& final(not).held().iterator is None
                &&& !final(not).drained()
                &&& final(not).record() == not.record()
                &&& final(not).max() == not.max()
                &&& final(not).timed_out() == not.timed_out()
                &&& final(not).deadline() == not.deadline()
                &&& forall|d: t_docId| #[trigger]
                    final(not)@.docs.contains(d) <==> 1 <= d <= not.max()
                &&& !not.timed_out() ==> final(not)@.reliable
            },
        forall|not: &mut Not<I>, r: Option<I>| #[trigger]
            call_ensures(Not::<I>::take_child, (not,), r) ==> {
                &&& r == not.held().iterator
                &&& final(not).held().iterator is None
                &&& !final(not).drained()
                &&& final(not).record() == not.record()
                &&& final(not).max() == not.max()
                &&& final(not).timed_out() == not.timed_out()
                &&& final(not).deadline() == not.deadline()
                &&& forall|d: t_docId| #[trigger]
                    final(not)@.docs.contains(d) <==> 1 <= d <= not.max()
                &&& !not.timed_out() ==> final(not)@.reliable
            },
        forall|not: Not<I>, r: Option<&I>| #[trigger]
            call_ensures(Not::<I>::child, (&not,), r) ==> match r {
                Some(child) => not.held().iterator == Some(*child),
                None => not.held().iterator is None,
            },
{
}

/// The getters of a negation. It estimates as many documents as it has ids to go through,
/// and never says that it is empty or a wildcard.
pub proof fn law_getters_of_a_negation<I: RQEIterator>(not: Not<I>)
    ensures
        forall|r: usize| #[trigger]
            call_ensures(<Not<I> as RQEIterator>::num_estimated, (&not,), r) ==> r
                == not.max() as usize,
        forall|r: t_docId| #[trigger]
            call_ensures(<Not<I> as RQEIterator>::last_doc_id, (&not,), r) ==> r
                == not.record().doc_id,
        forall|r: bool| #[trigger]
            call_ensures(<Not<I> as RQEIterator>::at_eof, (&not,), r) ==> (r <==> not.timed_out()
                || not.record().doc_id >= not.max()),
        forall|r: bool| #[trigger]
            call_ensures(<Not<I> as RQEIterator>::is_wildcard, (&not,), r) ==> !r,
        forall|r: bool| #[trigger]
            call_ensures(<Not<I> as RQEIterator>::is_empty, (&not,), r) ==> !r,
{
}

/// `current` hands out the result of the negation, and changes neither the negation's child
/// nor its deadline.
pub proof fn law_current_of_a_negation<I: RQEIterator>()
    ensures
        forall|not: &mut Not<I>, r: Option<&mut RSIndexResult>| #[trigger]
            call_ensures(<Not<I> as RQEIterator>::current, (not,), r) ==> {
                &&& r matches Some(result)
                &&& *result == not.record()
                &&& *final(result) == final(not).record()
                &&& final(not).held() == not.held()
                &&& final(not).drained() == not.drained()
                &&& final(not).max() == not.max()
                &&& final(not).timed_out() == not.timed_out()
                &&& final(not).deadline() == not.deadline()
            },
{
}

/// So many checks in a row are in time without a deadline, or if they do not come to a look at
/// the clock, or if the clock can give a time in front of the deadline; and only then.
pub proof fn law_checks_in_time<I: RQEIterator>(not: Not<I>, checks: int)
    ensures
        not.in_time(checks) <==> match not.deadline() {
            None => true,
            Some(ctx) => checks <= 0 || ctx.count() + checks < ctx.granularity()
                || !ctx.has_passed(),
        },
{
}

/// A check that succeeds counts itself and moves no deadline; and it does not succeed
/// if it looks at the clock when the deadline has passed.
pub proof fn law_check_that_succeeds<I: RQEIterator>(
    before: Not<I>,
    after: Not<I>,
    ctx: TimeoutContext,
)
    requires
        before.passes_check(&after),
        before.deadline() == Some(ctx),
    ensures
        after.max() == before.max(),
        after.deadline() matches Some(next) && next.started() == ctx.started() && next.timeout()
            == ctx.timeout() && next.granularity() == ctx.granularity(),
        ctx.count() + 1 < ctx.granularity() ==> after.deadline()->0.count() == ctx.count() + 1,
        ctx.count() + 1 >= ctx.granularity() ==> after.deadline()->0.count() == 0
            && !ctx.has_passed(),
{
}

/// After a result the child is ahead of the negation or has ended, if a child that has answered
/// that nothing is left says so of itself. What the child has or stands on behind the result is
/// what it had or stood on there before.
pub proof fn law_child_is_ahead_after_a_result<I: RQEIterator>()
    ensures
        forall|not: &mut Not<I>, r: Result<Option<&mut RSIndexResult>, RQEIteratorError>| #[trigger]
            call_ensures(<Not<I> as RQEIterator>::read, (not,), r) && !not@.ended
                && not.held()@.reliable && (forall|d: t_docId| #[trigger]
                not.held()@.pending.contains(d) ==> d > not.record().doc_id) ==> {
                r matches Ok(Some(result)) ==> {
                    &&& (not.drained() ==> not.held()@.ended) ==> (final(not).drained()
                        ==> final(not).held()@.ended) && (final(not).held()@.ended
                        || final(not).held()@.last > result.doc_id)
                    &&& forall|e: t_docId|
                        e > result.doc_id ==> (#[trigger] final(not).held()@.claims(
                            final(not).drained(),
                            e,
                        ) <==> not.held()@.pending.contains(e) || e == not.held()@.last
                            && !not.drained())
                }
            },
        forall|
            not: &mut Not<I>,
            doc_id: t_docId,
            r: Result<Option<SkipToOutcome<'_>>, RQEIteratorError>,
        | #[trigger]
            call_ensures(<Not<I> as RQEIterator>::skip_to, (not, doc_id), r) && !not@.ended
                && not.held()@.reliable && doc_id <= not.max() && (not.drained()
                ==> not.held()@.ended) ==> {
                &&& (r matches Ok(Some(SkipToOutcome::Found(_)))) ==> (final(not).drained()
                    ==> final(not).held()@.ended) && (final(not).held()@.ended
                    || final(not).held()@.last > doc_id)
                &&& r matches Ok(Some(SkipToOutcome::NotFound(result))) ==> (final(not).drained()
                    ==> final(not).held()@.ended) && (final(not).held()@.ended
                    || final(not).held()@.last > result.doc_id)
            },
{
    assert forall|not: &mut Not<I>, r: Result<Option<&mut RSIndexResult>, RQEIteratorError>|
        #[trigger]
        call_ensures(<Not<I> as RQEIterator>::read, (not,), r) && !not@.ended
            && not.held()@.reliable && (forall|d: t_docId| #[trigger]
            not.held()@.pending.contains(d) ==> d > not.record().doc_id) implies not.aligned() by {
    }
}

/// What a negation can be after a revalidation is laid down by what its child can be: it stands
/// where it stood, and has what that child lacks.
pub proof fn law_revalidations_of_a_negation<I: RQEIterator>(
    not: Not<I>,
    outcome: Revalidation,
    next: Cursor,
)
    requires
        not.revalidates_to(outcome, next),
    ensures
        outcome == Revalidation::Valid,
        next.last == not@.last,
        next.ended == not@.ended,
        next.shown == not@.shown,
        exists|fate: Revalidation, child: Cursor| #[trigger]
            not.held().revalidates_to(fate, child) && forall|d: t_docId| #[trigger]
                next.docs.contains(d) <==> 1 <= d <= not.max() && !(fate != Revalidation::Aborted
                    && child.docs.contains(d)),
{
    let (fate, child) = choose|fate: Revalidation, child: Cursor| #[trigger]
        not.held().revalidates_to(fate, child) && next == not.view_over(
            if fate == Revalidation::Aborted {
                empty_cursor()
            } else {
                child
            },
            fate.leaves_ran_out(not.drained()),
        );
    assert(not.held().revalidates_to(fate, child));
}

/// A negation can be made of every child, up to every id, and its operations can be called at
/// every moment; only a skip has to go forward.
pub proof fn law_operations_of_a_negation_can_be_called<I: RQEIterator>()
    ensures
        forall|child: I, max_doc_id: t_docId, weight: Weight, timeout_nanos: u128, skip: bool|
            #[trigger]
            call_requires(Not::<I>::new, (child, max_doc_id, weight, timeout_nanos, skip)),
        forall|not: &mut Not<I>| #[trigger]
            call_requires(<Not<I> as RQEIterator>::read, (not,)),
        forall|not: &mut Not<I>, doc_id: t_docId|
            not.record().doc_id < doc_id ==> #[trigger] call_requires(
                <Not<I> as RQEIterator>::skip_to,
                (not, doc_id),
            ),
        forall|not: &mut Not<I>| #[trigger]
            call_requires(<Not<I> as RQEIterator>::revalidate, (not,)),
        forall|not: &mut Not<I>| #[trigger]
            call_requires(<Not<I> as RQEIterator>::rewind, (not,)),
        forall|not: &mut Not<I>, fate: Revalidation| #[trigger]
            call_requires(Not::<I>::settle_child, (not, fate)),
        forall|not: &mut Not<I>, child: I| #[trigger]
            call_requires(Not::<I>::set_child, (not, child)),
        forall|not: &mut Not<I>| #[trigger] call_requires(Not::<I>::unset_child, (not,)),
        forall|not: &mut Not<I>| #[trigger] call_requires(Not::<I>::take_child, (not,)),
{
}

/// The deadline is checked once for each id that is passed over, on and on: not only until the
/// clock has been looked at for the first time. A skip checks it once more for its own id.
pub proof fn law_every_id_passed_over_is_a_check<I: RQEIterator>()
    ensures
        forall|not: &mut Not<I>, r: Result<Option<&mut RSIndexResult>, RQEIteratorError>| #[trigger]
            call_ensures(<Not<I> as RQEIterator>::read, (not,), r) && not.deadline() is Some ==> {
                let made = final(not).deadline()->0.checks() - not.deadline()->0.checks();
                &&& r matches Ok(Some(result)) ==> made == result.doc_id - not.record().doc_id - 1
                &&& (r matches Ok(None)) ==> made == if not@.ended {
                    0
                } else {
                    not.max() - not.record().doc_id
                }
                &&& r matches Err(_) ==> made == final(not).record().doc_id - not.record().doc_id
                    - if final(not).timed_out() {
                    0int
                } else {
                    1
                }
            },
        forall|
            not: &mut Not<I>,
            doc_id: t_docId,
            r: Result<Option<SkipToOutcome<'_>>, RQEIteratorError>,
        | #[trigger]
            call_ensures(<Not<I> as RQEIterator>::skip_to, (not, doc_id), r)
                && not.deadline() is Some ==> {
                let made = final(not).deadline()->0.checks() - not.deadline()->0.checks();
                &&& (r matches Ok(Some(SkipToOutcome::Found(_)))) ==> made == 1
                &&& r matches Ok(Some(SkipToOutcome::NotFound(result))) ==> made == result.doc_id
                    - doc_id
                &&& (r matches Ok(None)) ==> made == if not@.ended || doc_id > not.max() {
                    0
                } else {
                    1 + not.max() - doc_id
                }
            },
{
}

} // verus!
