//! Which iterator is made for the negation of a child, and what that iterator has.

use vstd::prelude::*;

use crate::either::EitherIterator;
use crate::index_result::{t_docId, IteratorType, RSIndexResult, Weight};
use crate::laws::{is_increasing, is_run, law_reads_go_through_the_pending};
use crate::not::{complement, Not};
use crate::not_iterator::{
    negate_nothing, new_not_iterator, not_iterator_reducer, without_frequency, IndexSpec,
    NewNotIterator, NotIterator, NotReduction, QueryEvalCtx,
};
use crate::not_optimized::NotOptimized;
use crate::rqe_iterator::{Cursor, RQEIterator};

verus! {

/// A wildcard that loses its frequency loses nothing else: it has the same documents, the same of
/// them ahead, and stands at the same place, on the same result but for the frequency.
pub proof fn law_only_the_frequency_is_lost(before: Cursor, after: Cursor)
    requires
        without_frequency(before, after),
    ensures
        after.index =~= before.index,
        after.docs =~= before.docs,
        after.pending =~= before.pending,
        after.last == before.last,
        after.ended == before.ended,
        after.reliable == before.reliable,
        after.sound == before.sound,
        after.faults =~= before.faults,
        after.estimate == before.estimate,
        after.known_empty == before.known_empty,
        after.matches_all == before.matches_all,
        after.shown is Some <==> before.shown is Some,
        before.shown matches Some(result) ==> after.shown == Some(
            (RSIndexResult {
                doc_id: result.doc_id,
                freq: 0,
                field_mask: result.field_mask,
                weight: result.weight,
            }),
        ),
{
}

/// A wildcard that is made to stand for the negation of nothing is left in front of all that it
/// was in front of; only the frequency of the result that it shows is put to 0.
pub proof fn law_wildcard_is_not_moved<W: RQEIterator>(before: W, after: W)
    requires
        call_ensures(negate_nothing::<W>, (before,), after),
    ensures
        after@.docs =~= before@.docs,
        after@.pending =~= before@.pending,
        after@.last == before@.last,
        after@.ended == before@.ended,
        after@.reliable == before@.reliable,
        after@.sound == before@.sound,
        after@.faults =~= before@.faults,
        after@.estimate == before@.estimate,
        after@.matches_all == before@.matches_all,
        after@.shown is Some <==> before@.shown is Some,
        before@.shown matches Some(result) ==> after@.shown == Some(
            (RSIndexResult {
                doc_id: result.doc_id,
                freq: 0,
                field_mask: result.field_mask,
                weight: result.weight,
            }),
        ),
{
}

/// NOT nothing = everything: for a child that says that it is empty, a wildcard of the asked weight
/// is made, and what is returned yields, in increasing order, exactly what that wildcard has ahead.
pub proof fn law_negation_of_nothing_yields_the_wildcard<W, I, F>(
    child: I,
    weight: Weight,
    new_wildcard_iterator: F,
    r: NotReduction<W, I>,
) where W: RQEIterator, I: RQEIterator, F: Fn(Weight) -> (W, IteratorType)
    requires
        child@.known_empty,
        call_ensures(not_iterator_reducer::<W, I, F>, (child, weight, &new_wildcard_iterator), r),
    ensures
        r matches NotReduction::Reduced(EitherIterator::First(reduced), iterator_type) && exists|
            wildcard: W,
        | #[trigger]
            call_ensures(new_wildcard_iterator, (weight,), (wildcard, iterator_type)) && {
                &&& reduced@.reliable == wildcard@.reliable
                &&& reduced@.last == wildcard@.last
                &&& reduced@.docs =~= wildcard@.docs
                &&& reduced@.pending =~= wildcard@.pending
                &&& forall|states: Seq<Cursor>, ids: Seq<t_docId>| #[trigger]
                    is_run(states, ids) && states[0] == reduced@ && states.last().pending
                        =~= Set::<t_docId>::empty() ==> {
                        &&& is_increasing(ids)
                        &&& forall|d: t_docId| #[trigger]
                            ids.contains(d) <==> wildcard@.pending.contains(d)
                    }
            },
{
    match r {
        NotReduction::Reduced(EitherIterator::First(reduced), iterator_type) => {
            let wildcard = choose|wildcard: W| #[trigger]
                call_ensures(new_wildcard_iterator, (weight,), (wildcard, iterator_type))
                    && without_frequency(wildcard@, reduced@);
            law_only_the_frequency_is_lost(wildcard@, reduced@);
            assert(call_ensures(new_wildcard_iterator, (weight,), (wildcard, iterator_type)));
            assert forall|states: Seq<Cursor>, ids: Seq<t_docId>| #[trigger]
                is_run(states, ids) && states[0] == reduced@ && states.last().pending =~= Set::<
                    t_docId,
                >::empty() implies is_increasing(ids) && forall|d: t_docId| #[trigger]
                ids.contains(d) <==> wildcard@.pending.contains(d) by {
                law_reads_go_through_the_pending(states, ids);
                assert forall|d: t_docId| #[trigger] ids.contains(d) <==> wildcard@.pending.contains(
                    d,
                ) by {
                    assert(states[0].pending.contains(d) <==> ids.contains(d));
                }
            }
        },
        _ => {},
    }
}

/// NOT everything = nothing: for a child that says that it is a wildcard, an empty iterator is
/// returned. It stands for the negation, which has no document of the index.
pub proof fn law_negation_of_a_wildcard_is_empty<W, I, F>(
    child: I,
    weight: Weight,
    new_wildcard_iterator: F,
    r: NotReduction<W, I>,
) where W: RQEIterator, I: RQEIterator, F: Fn(Weight) -> (W, IteratorType)
    requires
        !child@.known_empty,
        child@.matches_all,
        call_ensures(not_iterator_reducer::<W, I, F>, (child, weight, &new_wildcard_iterator), r),
    ensures
        r matches NotReduction::Reduced(EitherIterator::Second(reduced), IteratorType::Empty)
            && forall|d: t_docId| !#[trigger] reduced@.docs.contains(d),
        forall|max_doc_id: t_docId, d: t_docId| #[trigger]
            complement(child@.docs, max_doc_id).contains(d) ==> !child@.index.contains(d),
{
    child.lemma_consistent();
}

/// Any other child is returned as it is.
pub proof fn law_other_children_are_not_reduced<W, I, F>(
    child: I,
    weight: Weight,
    new_wildcard_iterator: F,
    r: NotReduction<W, I>,
) where W: RQEIterator, I: RQEIterator, F: Fn(Weight) -> (W, IteratorType)
    requires
        !child@.known_empty,
        !child@.matches_all,
        call_ensures(not_iterator_reducer::<W, I, F>, (child, weight, &new_wildcard_iterator), r),
    ensures
        r matches NotReduction::NotReduced(returned) && returned == child,
{
}

/// An index has an `existingDocs` inverted index if and only if its schema says so.
pub proof fn law_existing_docs(spec: IndexSpec)
    ensures
        spec.has_existing_docs() <==> match spec.rule {
            Some(rule) => rule.index_all,
            None => false,
        },
{
}

/// For an empty child a wildcard of the asked weight stands for the negation, with all ahead
/// that it has ahead, under its own tag.
pub proof fn law_new_negation_of_nothing<W, I, F>(
    child: I,
    max_doc_id: t_docId,
    weight: Weight,
    timeout_nanos: u128,
    skip_timeout_checks: bool,
    query: QueryEvalCtx,
    new_wildcard_iterator: F,
    r: NewNotIterator<W, I>,
) where W: RQEIterator, I: RQEIterator, F: Fn(Weight) -> (W, IteratorType)
    requires
        child@.known_empty,
        call_ensures(
            new_not_iterator::<W, I, F>,
            (
                child,
                max_doc_id,
                weight,
                timeout_nanos,
                skip_timeout_checks,
                &query,
                &new_wildcard_iterator,
            ),
            r,
        ),
    ensures
        r matches NewNotIterator::Reduced(EitherIterator::First(reduced), iterator_type) && exists|
            wildcard: W,
        | #[trigger]
            call_ensures(new_wildcard_iterator, (weight,), (wildcard, iterator_type)) && {
                &&& reduced@.reliable == wildcard@.reliable
                &&& reduced@.last == wildcard@.last
                &&& reduced@.ended == wildcard@.ended
                &&& reduced@.docs =~= wildcard@.docs
                &&& reduced@.pending =~= wildcard@.pending
                &&& reduced@.faults =~= wildcard@.faults
                &&& reduced@.shown is Some <==> wildcard@.shown is Some
                &&& reduced@.shown matches Some(result) ==> result.freq == 0 && result.doc_id
                    == wildcard@.shown->0.doc_id && result.weight == wildcard@.shown->0.weight
            },
        forall|d: t_docId| #[trigger]
            complement(child@.docs, max_doc_id).contains(d) <==> 1 <= d <= max_doc_id,
{
    child.lemma_consistent();
    match r {
        NewNotIterator::Reduced(EitherIterator::First(reduced), iterator_type) => {
            let wildcard = choose|wildcard: W| #[trigger]
                call_ensures(new_wildcard_iterator, (weight,), (wildcard, iterator_type))
                    && without_frequency(wildcard@, reduced@);
            law_only_the_frequency_is_lost(wildcard@, reduced@);
            assert(call_ensures(new_wildcard_iterator, (weight,), (wildcard, iterator_type)));
        },
        _ => {},
    }
}

/// For a wildcard as child an iterator without documents stands for the negation, which has
/// no document of the index.
pub proof fn law_new_negation_of_a_wildcard<W, I, F>(
    child: I,
    max_doc_id: t_docId,
    weight: Weight,
    timeout_nanos: u128,
    skip_timeout_checks: bool,
    query: QueryEvalCtx,
    new_wildcard_iterator: F,
    r: NewNotIterator<W, I>,
) where W: RQEIterator, I: RQEIterator, F: Fn(Weight) -> (W, IteratorType)
    requires
        !child@.known_empty,
        child@.matches_all,
        call_ensures(
            new_not_iterator::<W, I, F>,
            (
                child,
                max_doc_id,
                weight,
                timeout_nanos,
                skip_timeout_checks,
                &query,
                &new_wildcard_iterator,
            ),
            r,
        ),
    ensures
        r matches NewNotIterator::Reduced(EitherIterator::Second(reduced), IteratorType::Empty)
            && forall|d: t_docId| !#[trigger] reduced@.docs.contains(d),
        forall|d: t_docId| #[trigger]
            complement(child@.docs, max_doc_id).contains(d) ==> !child@.index.contains(d),
{
    child.lemma_consistent();
}

/// For any other child a negation of it is made. Over an index with an `existingDocs` inverted
/// index it goes through the documents of a wildcard that the child lacks, else through all ids
/// from 1 to `max_doc_id` that the child lacks.
pub proof fn law_new_negation_of_any_other_child<W, I, F>(
    child: I,
    max_doc_id: t_docId,
    weight: Weight,
    timeout_nanos: u128,
    skip_timeout_checks: bool,
    query: QueryEvalCtx,
    new_wildcard_iterator: F,
    r: NewNotIterator<W, I>,
) where W: RQEIterator, I: RQEIterator, F: Fn(Weight) -> (W, IteratorType)
    requires
        !child@.known_empty,
        !child@.matches_all,
        query.sctx is Some,
        call_ensures(
            new_not_iterator::<W, I, F>,
            (
                child,
                max_doc_id,
                weight,
                timeout_nanos,
                skip_timeout_checks,
                &query,
                &new_wildcard_iterator,
            ),
            r,
        ),
    ensures
        r matches NewNotIterator::NotReduced(not, IteratorType::Not) && {
            &&& not.held_child() == Some(child)
            &&& not@.last == 0
            &&& not@.ended <==> max_doc_id == 0
            &&& not@.shown == Some(
                (RSIndexResult { doc_id: 0, freq: 0, field_mask: u128::MAX, weight }),
            )
            &&& forall|d: t_docId| #[trigger] not@.pending.contains(d) <==> not@.docs.contains(d)
        },
        match query.sctx->0.spec.rule {
            Some(rule) => rule.index_all,
            None => false,
        } ==> (r matches NewNotIterator::NotReduced(EitherIterator::Second(not), _) && {
            &&& exists|wildcard_type: IteratorType| #[trigger]
                call_ensures(new_wildcard_iterator, (weight,), (not.wildcard(), wildcard_type))
            &&& forall|d: t_docId| #[trigger]
                not@.docs.contains(d) <==> 1 <= d <= max_doc_id && not.wildcard()@.docs.contains(d)
                    && !child@.docs.contains(d)
            &&& child@.reliable && child@.last == 0 && child@.pending =~= child@.docs
                && not.wildcard()@.reliable && not.wildcard()@.last == 0
                && not.wildcard()@.pending =~= not.wildcard()@.docs ==> not@.reliable
            &&& skip_timeout_checks <==> not.deadline() is None
            &&& not.deadline() matches Some(ctx) ==> ctx.timeout() == timeout_nanos && ctx.count()
                == 0 && ctx.granularity() == 5_000
        }),
        !(match query.sctx->0.spec.rule {
            Some(rule) => rule.index_all,
            None => false,
        }) ==> (r matches NewNotIterator::NotReduced(EitherIterator::First(not), _) && {
            &&& forall|d: t_docId| #[trigger]
                not@.docs.contains(d) <==> 1 <= d <= max_doc_id && !child@.docs.contains(d)
            &&& child@.reliable && child@.last == 0 && child@.pending =~= child@.docs
                ==> not@.reliable
            &&& skip_timeout_checks <==> not.deadline() is None
            &&& not.deadline() matches Some(ctx) ==> ctx.timeout() == timeout_nanos && ctx.count()
                == 0 && ctx.granularity() == 5_000
        }),
{
    child.lemma_consistent();
    if let NewNotIterator::NotReduced(EitherIterator::Second(not), _) = r {
        not.wildcard().lemma_consistent();
    }
}

/// A negation is never taken for nothing or for everything: the negation of a negation is made in
/// full, and has, up to the smaller bound, just the documents that the inner child has.
pub proof fn law_negation_of_a_negation_is_not_reduced<W, J, F>(
    inner: Not<J>,
    max_doc_id: t_docId,
    weight: Weight,
    timeout_nanos: u128,
    skip_timeout_checks: bool,
    query: QueryEvalCtx,
    new_wildcard_iterator: F,
    r: NewNotIterator<W, Not<J>>,
) where W: RQEIterator, J: RQEIterator, F: Fn(Weight) -> (W, IteratorType)
    requires
        query.sctx is Some,
        call_ensures(
            new_not_iterator::<W, Not<J>, F>,
            (
                inner,
                max_doc_id,
                weight,
                timeout_nanos,
                skip_timeout_checks,
                &query,
                &new_wildcard_iterator,
            ),
            r,
        ),
    ensures
        r is NotReduced,
        r matches NewNotIterator::NotReduced(EitherIterator::First(outer), _) ==> forall|d: t_docId|
            d <= inner.max() ==> (#[trigger] outer@.docs.contains(d) <==> 1 <= d <= max_doc_id
                && inner.held()@.docs.contains(d)),
        r matches NewNotIterator::NotReduced(EitherIterator::Second(outer), _) ==> forall|
            d: t_docId,
        |
            d <= inner.max() ==> (#[trigger] outer@.docs.contains(d) <==> 1 <= d <= max_doc_id
                && outer.wildcard()@.docs.contains(d) && inner.held()@.docs.contains(d)),
{
}

/// The child of a negation of either kind is the one that was set last, until it is taken;
/// taking it gives it away. The negation itself stays where it is.
pub proof fn law_child_is_what_was_set<N: NotIterator>()
    ensures
        forall|not: &mut N, child: N::Child| #[trigger]
            call_ensures(N::set_child, (not, child), ()) ==> {
                &&& final(not).held_child() == Some(child)
                &&& final(not)@.last == not@.last
                &&& final(not)@.ended == not@.ended
                &&& final(not)@.shown == not@.shown
                &&& final(not)@.estimate == not@.estimate
            },
        forall|not: &mut N, r: Option<N::Child>| #[trigger]
            call_ensures(N::take_child, (not,), r) ==> {
                &&& r == not.held_child()
                &&& final(not).held_child() is None
                &&& final(not)@.last == not@.last
                &&& final(not)@.ended == not@.ended
                &&& final(not)@.shown == not@.shown
                &&& final(not)@.estimate == not@.estimate
            },
        forall|not: N, r: Option<&N::Child>| #[trigger]
            call_ensures(N::child, (&not,), r) ==> match r {
                Some(child) => not.held_child() == Some(*child),
                None => not.held_child() is None,
            },
{
}

/// What a negation of either kind holds as its child is what it negates.
pub proof fn law_held_child_is_what_is_negated<W: RQEIterator, I: RQEIterator>(
    not: Not<I>,
    optimized: NotOptimized<W, I>,
)
    ensures
        not.held_child() == not.held().iterator,
        optimized.held_child() == optimized.held().iterator,
        EitherIterator::<Not<I>, NotOptimized<W, I>>::First(not).held_child()
            == not.held().iterator,
        EitherIterator::<Not<I>, NotOptimized<W, I>>::Second(optimized).held_child()
            == optimized.held().iterator,
{
}

/// A negation can be made of every child. The search context is needed only where the child
/// cannot be reduced, and a wildcard only where one is made: for an empty child, or for an index
/// with an `existingDocs` inverted index.
pub proof fn law_every_child_can_be_negated<W, I, F>(
    child: I,
    max_doc_id: t_docId,
    weight: Weight,
    timeout_nanos: u128,
    skip_timeout_checks: bool,
    query: QueryEvalCtx,
    new_wildcard_iterator: F,
) where W: RQEIterator, I: RQEIterator, F: Fn(Weight) -> (W, IteratorType)
    requires
        child@.known_empty || child@.matches_all || query.sctx is Some,
        child@.known_empty || !child@.matches_all && match query.sctx->0.spec.rule {
            Some(rule) => rule.index_all,
            None => false,
        } ==> call_requires(new_wildcard_iterator, (weight,)),
    ensures
        call_requires(
            new_not_iterator::<W, I, F>,
            (
                child,
                max_doc_id,
                weight,
                timeout_nanos,
                skip_timeout_checks,
                &query,
                &new_wildcard_iterator,
            ),
        ),
        call_requires(not_iterator_reducer::<W, I, F>, (child, weight, &new_wildcard_iterator)),
{
}

} // verus!
