//! What each operation does to an iterator, as its callers see it.
//!
//! Each law speaks of every call of an operation: of what goes in, and of what comes out.

use vstd::prelude::*;

use crate::index_result::{t_docId, RSIndexResult};
use crate::rqe_iterator::{
    after_id, from_id, is_first, Cursor, RQEIterator, RQEIteratorError, RQEValidateStatus,
    Revalidation, SkipToOutcome,
};

verus! {

/// The first of some ids is one of them and not larger than any other.
pub proof fn law_first_id(ids: Set<t_docId>, doc_id: t_docId)
    ensures
        is_first(ids, doc_id) <==> ids.contains(doc_id) && !exists|d: t_docId|
            d < doc_id && #[trigger] ids.contains(d),
{
}

/// A bound parts some ids into those in front of it, the bound itself and those behind it.
pub proof fn law_bound_parts_the_ids(ids: Set<t_docId>, bound: t_docId)
    ensures
        forall|d: t_docId| #[trigger] from_id(ids, bound).contains(d) ==> ids.contains(d),
        forall|d: t_docId| #[trigger] after_id(ids, bound).contains(d) ==> ids.contains(d),
        forall|d: t_docId|
            d < bound ==> !#[trigger] from_id(ids, bound).contains(d) && !after_id(
                ids,
                bound,
            ).contains(d),
        forall|d: t_docId|
            d > bound && #[trigger] ids.contains(d) ==> from_id(ids, bound).contains(d)
                && after_id(ids, bound).contains(d),
        !after_id(ids, bound).contains(bound),
        from_id(ids, bound).contains(bound) <==> ids.contains(bound),
{
}

/// A `read` of a reliable iterator comes to the smallest pending id, and takes from what is
/// pending that id alone. It reports the end only if nothing is pending.
/// It never changes what the iterator has.
pub proof fn law_read_takes_the_next_document<I: RQEIterator>()
    ensures
        forall|it: &mut I, r: Result<Option<&mut RSIndexResult>, RQEIteratorError>| #[trigger]
            call_ensures(I::read, (it,), r) ==> {
                &&& final(it)@.docs =~= it@.docs
                &&& final(it)@.index =~= it@.index
                &&& final(it)@.sound == it@.sound
                &&& final(it)@.faults =~= it@.faults
                &&& final(it)@.estimate == it@.estimate
                &&& final(it)@.known_empty == it@.known_empty
                &&& final(it)@.matches_all == it@.matches_all
                &&& r matches Err(error) ==> it@.faults.contains(error)
                &&& r matches Ok(Some(result)) ==> {
                    &&& it@.last < result.doc_id
                    &&& final(it)@.shown == Some(*final(result))
                    &&& final(result).doc_id == result.doc_id ==> final(it)@.last == result.doc_id
                }
            },
        forall|it: &mut I, r: Result<Option<&mut RSIndexResult>, RQEIteratorError>| #[trigger]
            call_ensures(I::read, (it,), r) && it@.reliable ==> match r {
                Ok(Some(result)) => {
                    &&& it@.pending.contains(result.doc_id)
                    &&& forall|d: t_docId|
                        d < result.doc_id ==> !#[trigger] it@.pending.contains(d)
                    &&& final(result).doc_id == result.doc_id ==> {
                        &&& final(it)@.reliable
                        &&& forall|d: t_docId| #[trigger]
                            final(it)@.pending.contains(d) <==> it@.pending.contains(d) && d
                                != result.doc_id
                    }
                },
                Ok(None) => {
                    &&& forall|d: t_docId| !#[trigger] it@.pending.contains(d)
                    &&& forall|d: t_docId| !#[trigger] final(it)@.pending.contains(d)
                    &&& final(it)@.reliable
                    &&& final(it)@.ended
                },
                Err(_) => true,
            },
{
}

/// A `skip_to` of a reliable iterator comes to the smallest pending id that does not lie in front
/// of `doc_id`. It reports `Found` if and only if that is `doc_id`, and the end only if no such id
/// is pending. What lies behind stays pending, and nothing else does.
pub proof fn law_skip_takes_the_first_document_from_there_on<I: RQEIterator>()
    ensures
        forall|
            it: &mut I,
            doc_id: t_docId,
            r: Result<Option<SkipToOutcome<'_>>, RQEIteratorError>,
        | #[trigger]
            call_ensures(I::skip_to, (it, doc_id), r) ==> {
                &&& final(it)@.docs =~= it@.docs
                &&& final(it)@.index =~= it@.index
                &&& final(it)@.sound == it@.sound
                &&& final(it)@.faults =~= it@.faults
                &&& final(it)@.estimate == it@.estimate
                &&& final(it)@.known_empty == it@.known_empty
                &&& final(it)@.matches_all == it@.matches_all
                &&& r matches Err(error) ==> it@.faults.contains(error)
                &&& r matches Ok(Some(SkipToOutcome::Found(result))) ==> final(it)@.shown == Some(
                    *final(result),
                )
                &&& r matches Ok(Some(SkipToOutcome::NotFound(result))) ==> final(it)@.shown
                    == Some(*final(result))
            },
        forall|
            it: &mut I,
            doc_id: t_docId,
            r: Result<Option<SkipToOutcome<'_>>, RQEIteratorError>,
        | #[trigger]
            call_ensures(I::skip_to, (it, doc_id), r) && it@.reliable ==> match r {
                Ok(Some(SkipToOutcome::Found(result))) => {
                    &&& result.doc_id == doc_id
                    &&& it@.pending.contains(doc_id)
                    &&& final(result).doc_id == doc_id ==> {
                        &&& final(it)@.reliable
                        &&& final(it)@.last == doc_id
                        &&& forall|d: t_docId| #[trigger]
                            final(it)@.pending.contains(d) <==> it@.pending.contains(d) && d
                                > doc_id
                    }
                },
                Ok(Some(SkipToOutcome::NotFound(result))) => {
                    &&& doc_id < result.doc_id
                    &&& it@.pending.contains(result.doc_id)
                    &&& forall|d: t_docId|
                        doc_id <= d < result.doc_id ==> !#[trigger] it@.pending.contains(d)
                    &&& final(result).doc_id == result.doc_id ==> {
                        &&& final(it)@.reliable
                        &&& final(it)@.last == result.doc_id
                        &&& forall|d: t_docId| #[trigger]
                            final(it)@.pending.contains(d) <==> it@.pending.contains(d) && d
                                > result.doc_id
                    }
                },
                Ok(None) => {
                    &&& forall|d: t_docId| doc_id <= d ==> !#[trigger] it@.pending.contains(d)
                    &&& forall|d: t_docId| !#[trigger] final(it)@.pending.contains(d)
                    &&& final(it)@.reliable
                    &&& final(it)@.ended
                },
                Err(_) => true,
            },
{
    assert forall|
        it: &mut I,
        doc_id: t_docId,
        r: Result<Option<SkipToOutcome<'_>>, RQEIteratorError>,
    | #[trigger]
        call_ensures(I::skip_to, (it, doc_id), r) && it@.reliable implies forall|d: t_docId|
        #[trigger]
        it@.pending.contains(d) ==> (doc_id <= d <==> from_id(it@.pending, doc_id).contains(d)) by {
    }
}

/// `current` hands out the very result that is shown. It leaves the iterator as it is,
/// as long as the caller leaves the id of the result alone.
pub proof fn law_current_leaves_the_iterator_alone<I: RQEIterator>()
    ensures
        forall|it: &mut I, r: Option<&mut RSIndexResult>| #[trigger]
            call_ensures(I::current, (it,), r) ==> {
                &&& final(it)@.docs =~= it@.docs
                &&& final(it)@.index =~= it@.index
                &&& final(it)@.sound == it@.sound
                &&& final(it)@.faults =~= it@.faults
                &&& final(it)@.estimate == it@.estimate
                &&& final(it)@.known_empty == it@.known_empty
                &&& final(it)@.matches_all == it@.matches_all
                &&& r is Some <==> it@.shown is Some
                &&& r matches Some(result) ==> it@.shown == Some(*result) && final(it)@.shown
                    == Some(*final(result))
                &&& r is None ==> final(it)@.shown is None
                &&& (r matches Some(result) ==> final(result).doc_id == result.doc_id) ==> {
                    &&& final(it)@.last == it@.last
                    &&& final(it)@.pending =~= it@.pending
                    &&& final(it)@.ended == it@.ended
                    &&& final(it)@.reliable == it@.reliable
                }
            },
{
}

/// A `rewind` of a sound iterator has all its documents ahead again, whatever came before.
pub proof fn law_rewind_has_all_documents_ahead<I: RQEIterator>()
    ensures
        forall|it: &mut I| #[trigger]
            call_ensures(I::rewind, (it,), ()) ==> {
                &&& final(it)@.docs =~= it@.docs
                &&& final(it)@.index =~= it@.index
                &&& final(it)@.sound == it@.sound
                &&& final(it)@.faults =~= it@.faults
                &&& final(it)@.estimate == it@.estimate
                &&& final(it)@.known_empty == it@.known_empty
                &&& final(it)@.matches_all == it@.matches_all
                &&& final(it)@.last == 0
                &&& it@.sound ==> final(it)@.reliable && forall|d: t_docId| #[trigger]
                    final(it)@.pending.contains(d) <==> it@.docs.contains(d)
            },
{
}

/// A revalidation never moves an iterator backward, and adds no error to those it can give.
pub proof fn law_revalidation_does_not_move_back<I: RQEIterator>()
    ensures
        forall|it: &mut I, r: Result<RQEValidateStatus<'_>, RQEIteratorError>| #[trigger]
            call_ensures(I::revalidate, (it,), r) ==> {
                &&& r matches Err(error) ==> it@.faults.contains(error)
                &&& forall|fault: RQEIteratorError| #[trigger]
                    final(it)@.faults.contains(fault) ==> it@.faults.contains(fault)
                &&& (r matches Ok(RQEValidateStatus::Valid)) ==> final(it)@.last == it@.last
                    && it.revalidates_to(Revalidation::Valid, final(it)@)
                &&& (r matches Ok(RQEValidateStatus::Moved { current: None })) ==> final(it)@.last
                    >= it@.last && it.revalidates_to(Revalidation::MovedToEnd, final(it)@)
                &&& r matches Ok(RQEValidateStatus::Moved { current: Some(result) }) ==> {
                    *final(result) == *result ==> final(it)@.last >= it@.last && it.revalidates_to(
                        Revalidation::Moved,
                        final(it)@,
                    )
                }
                &&& (r matches Ok(RQEValidateStatus::Aborted)) ==> it.revalidates_to(
                    Revalidation::Aborted,
                    final(it)@,
                )
            },
{
}

/// The getters tell what the iterator is.
pub proof fn law_getters_tell_what_the_iterator_is<I: RQEIterator>(it: I)
    ensures
        forall|r: usize| #[trigger]
            call_ensures(I::num_estimated, (&it,), r) ==> r == it@.estimate,
        forall|r: t_docId| #[trigger] call_ensures(I::last_doc_id, (&it,), r) ==> r == it@.last,
        forall|r: bool| #[trigger] call_ensures(I::at_eof, (&it,), r) ==> r == it@.ended,
        forall|r: bool| #[trigger] call_ensures(I::is_wildcard, (&it,), r) ==> r == it@.matches_all,
        forall|r: bool| #[trigger] call_ensures(I::is_empty, (&it,), r) ==> r == it@.known_empty,
{
}

/// What a reliable iterator has still to come to are documents of it that lie ahead,
/// and none once it has ended.
pub proof fn law_pending_documents_lie_ahead<I: RQEIterator>(it: I)
    requires
        it@.reliable,
    ensures
        forall|d: t_docId| #[trigger]
            it@.pending.contains(d) ==> it@.docs.contains(d) && d > it@.last && !it@.ended,
{
    it.lemma_consistent();
}

/// An iterator that says that it is empty has no document, and one that says that it is a wildcard
/// lacks no document of the index.
pub proof fn law_iterators_do_not_misjudge_themselves<I: RQEIterator>(it: I)
    ensures
        it@.known_empty ==> forall|d: t_docId| !#[trigger] it@.docs.contains(d),
        it@.matches_all ==> forall|d: t_docId| #[trigger]
            it@.index.contains(d) ==> it@.docs.contains(d),
{
    it.lemma_consistent();
}

/// After a revalidation an iterator counts as run out if it did so before and has not moved,
/// or if it has moved to its end.
pub proof fn law_outcome_tells_whether_an_iterator_has_run_out(outcome: Revalidation, ran_out: bool)
    ensures
        outcome.leaves_ran_out(ran_out) <==> outcome == Revalidation::MovedToEnd || ran_out
            && outcome == Revalidation::Valid,
{
}

/// An iterator claims what it has ahead, and the place where it stands unless it has run out.
pub proof fn law_claims(cursor: Cursor, ran_out: bool, doc_id: t_docId)
    ensures
        ran_out ==> (cursor.claims(ran_out, doc_id) <==> cursor.pending.contains(doc_id)),
        !ran_out ==> (cursor.claims(ran_out, doc_id) <==> cursor.pending.contains(doc_id) || doc_id
            == cursor.last),
{
}

} // verus!
