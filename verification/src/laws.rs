//! What holds of iterators and negations as a whole.

use vstd::prelude::*;

use crate::index_result::{t_docId, Weight};
use crate::not::{complement, lemma_complement_is_bounded, Not};
use crate::not_optimized::NotOptimized;
use crate::rqe_iterator::{after_id, from_id, is_first, Cursor, RQEIterator};
use crate::timeout::TimeoutContext;

verus! {

/// `ids` are the documents that successive reads return, and `states` is what the iterator is
/// before the first read and after each of them.
pub open spec fn is_run(states: Seq<Cursor>, ids: Seq<t_docId>) -> bool {
    &&& states.len() == ids.len() + 1
    &&& forall|i: int|
        0 <= i < ids.len() ==> {
            &&& is_first(states[i].pending, #[trigger] ids[i])
            &&& states[i].advanced_to(ids[i], states[i + 1])
        }
}

/// The members of `ids` come in strictly increasing order.
pub open spec fn is_increasing(ids: Seq<t_docId>) -> bool {
    forall|i: int, j: int| 0 <= i < j < ids.len() ==> ids[i] < ids[j]
}

/// Successive reads return documents in increasing order. What they have returned and what is
/// then pending make up what was pending at first, and all that is pending lies behind them.
pub proof fn law_reads_go_through_the_pending(states: Seq<Cursor>, ids: Seq<t_docId>)
    requires
        is_run(states, ids),
    ensures
        is_increasing(ids),
        forall|d: t_docId| #[trigger]
            states[0].pending.contains(d) <==> ids.contains(d) || states.last().pending.contains(
                d,
            ),
        forall|i: int, d: t_docId|
            0 <= i < ids.len() && #[trigger] states.last().pending.contains(d)
                ==> #[trigger] ids[i] < d,
    decreases ids.len(),
{
    if ids.len() > 0 {
        let n = (ids.len() - 1) as int;
        let states1 = states.drop_last();
        let ids1 = ids.drop_last();
        assert forall|i: int| 0 <= i < ids1.len() implies {
            &&& is_first(states1[i].pending, #[trigger] ids1[i])
            &&& states1[i].advanced_to(ids1[i], states1[i + 1])
        } by {
            assert(ids[i] == ids1[i]);
        }
        law_reads_go_through_the_pending(states1, ids1);
        assert(is_first(states[n].pending, ids[n]) && states[n].advanced_to(ids[n], states[n + 1]));
        assert(states1.last() == states[n]);
        assert forall|i: int, j: int| 0 <= i < j < ids.len() implies ids[i] < ids[j] by {
            assert(ids1[i] == ids[i]);
            if j < n {
                assert(ids1[j] == ids[j]);
            } else {
                assert(states1.last().pending.contains(ids[n]));
            }
        }
        assert forall|d: t_docId| #[trigger]
            states[0].pending.contains(d) <==> ids.contains(d) || states.last().pending.contains(
                d,
            ) by {
            assert(states1[0] == states[0]);
            assert(ids =~= ids1.push(ids[n]));
            assert(states1.last().pending.contains(d) <==> d == ids[n]
                || states.last().pending.contains(d));
            if ids1.contains(d) {
                let k = choose|k: int| 0 <= k < ids1.len() && ids1[k] == d;
                assert(ids[k] == d);
            }
            if ids.contains(d) && d != ids[n] {
                let k = choose|k: int| 0 <= k < ids.len() && ids[k] == d;
                assert(ids1[k] == d);
            }
            assert(ids.contains(ids[n]));
        }
        assert forall|i: int, d: t_docId|
            0 <= i < ids.len() && #[trigger] states.last().pending.contains(d) implies #[trigger]
        ids[i] < d by {
            if i < n {
                assert(ids1[i] == ids[i]);
                assert(states1.last().pending.contains(d));
            }
        }
    }
}

/// A skip leads to where reading on leads: if `ids` are read until one of them is no longer
/// in front of `doc_id`, that one is the first pending document from `doc_id` on, and the same
/// is pending behind it as after a skip.
pub proof fn law_skipping_is_reading_on(
    states: Seq<Cursor>,
    ids: Seq<t_docId>,
    doc_id: t_docId,
)
    requires
        is_run(states, ids),
        ids.len() > 0,
        forall|i: int| 0 <= i < ids.len() - 1 ==> #[trigger] ids[i] < doc_id,
        doc_id <= ids.last(),
    ensures
        is_first(from_id(states[0].pending, doc_id), ids.last()),
        states[0].pending.contains(doc_id) <==> ids.last() == doc_id,
        states.last().pending =~= after_id(states[0].pending, ids.last()),
{
    law_reads_go_through_the_pending(states, ids);
    let n = (ids.len() - 1) as int;
    assert(ids.contains(ids[n]));
    assert(states[0].pending.contains(ids[n]));
    assert forall|d: t_docId| #[trigger]
        states[0].pending.contains(d) && d >= doc_id implies d == ids[n]
        || states.last().pending.contains(d) by {
        if ids.contains(d) {
            let k = choose|k: int| 0 <= k < ids.len() && ids[k] == d;
            assert(k == n);
        }
    }
    assert forall|d: t_docId| #[trigger]
        from_id(states[0].pending, doc_id).contains(d) implies ids.last() <= d by {
        assert(states[0].pending.contains(d));
    }
    assert forall|d: t_docId| #[trigger]
        after_id(states[0].pending, ids.last()).contains(d) implies states.last().pending.contains(
        d,
    ) by {
        assert(states[0].pending.contains(d));
    }
}

/// A new negation of a child that stands in front of its first document
/// has all its documents ahead.
pub proof fn law_new_negation_is_ready<I: RQEIterator>(
    not: &Not<I>,
    child: I,
    max_doc_id: t_docId,
    weight: Weight,
    timeout_nanos: u128,
    skip_timeout_checks: bool,
)
    requires
        not.is_new(child, max_doc_id, weight, timeout_nanos, skip_timeout_checks),
        child@.reliable,
        child@.last == 0,
        child@.pending =~= child@.docs,
    ensures
        not@.reliable,
        not@.last == 0,
        not@.docs =~= complement(child@.docs, max_doc_id),
        not@.pending =~= not@.docs,
        not.aligned(),
        not.settled(),
{
    child.lemma_consistent();
}

/// A negation that has all its documents ahead yields, in increasing order, exactly the
/// ids from 1 to `max_doc_id` that are not in its child.
pub proof fn law_negation_yields_the_complement<I: RQEIterator>(
    not: &Not<I>,
    states: Seq<Cursor>,
    ids: Seq<t_docId>,
)
    requires
        not@.reliable,
        not@.last == 0,
        is_run(states, ids),
        states[0] == not@,
        states.last().pending =~= Set::<t_docId>::empty(),
    ensures
        is_increasing(ids),
        forall|d: t_docId| #[trigger]
            ids.contains(d) <==> 1 <= d <= not.max() && !not.held()@.docs.contains(d),
{
    law_reads_go_through_the_pending(states, ids);
    assert forall|d: t_docId| #[trigger] ids.contains(d) <==> 1 <= d <= not.max()
        && !not.held()@.docs.contains(d) by {
        assert(states[0].pending.contains(d) <==> ids.contains(d));
    }
}

/// A new negation over a wildcard has all its documents ahead
/// if its child and its wildcard stand in front of their first documents.
pub proof fn law_new_optimized_negation_is_ready<W: RQEIterator, I: RQEIterator>(
    not: &NotOptimized<W, I>,
    wcii: W,
    child: I,
    max_doc_id: t_docId,
    weight: Weight,
    timeout_nanos: u128,
    skip_timeout_checks: bool,
)
    requires
        not.is_new(wcii, child, max_doc_id, weight, timeout_nanos, skip_timeout_checks),
        wcii@.reliable,
        wcii@.last == 0,
        wcii@.pending =~= wcii@.docs,
        child@.reliable,
        child@.last == 0,
        child@.pending =~= child@.docs,
    ensures
        not@.reliable,
        not@.last == 0,
        not@.docs =~= complement(child@.docs, max_doc_id).intersect(wcii@.docs),
        not@.pending =~= not@.docs,
{
    child.lemma_consistent();
    wcii.lemma_consistent();
}

/// A negation over a wildcard that has all its documents ahead yields, in increasing order,
/// exactly the documents of the wildcard up to `max_doc_id` that are not in its child.
pub proof fn law_optimized_negation_yields_the_difference<W: RQEIterator, I: RQEIterator>(
    not: &NotOptimized<W, I>,
    states: Seq<Cursor>,
    ids: Seq<t_docId>,
)
    requires
        not@.reliable,
        not@.pending =~= not@.docs,
        is_run(states, ids),
        states[0] == not@,
        states.last().pending =~= Set::<t_docId>::empty(),
    ensures
        is_increasing(ids),
        forall|d: t_docId| #[trigger]
            ids.contains(d) <==> {
                &&& 1 <= d <= not.max()
                &&& not.wildcard()@.docs.contains(d)
                &&& !not.held()@.docs.contains(d)
            },
{
    law_reads_go_through_the_pending(states, ids);
    assert forall|d: t_docId| #[trigger] ids.contains(d) <==> {
        &&& 1 <= d <= not.max()
        &&& not.wildcard()@.docs.contains(d)
        &&& !not.held()@.docs.contains(d)
    } by {
        assert(states[0].pending.contains(d) <==> ids.contains(d));
        assert(not@.docs.contains(d) <==> states[0].pending.contains(d));
    }
}

/// A negation whose deadline has passed has ended.
pub proof fn law_timed_out_negation_has_ended<I: RQEIterator>(not: &Not<I>)
    requires
        not.timed_out(),
    ensures
        not@.ended,
{
}

/// NOT nothing = everything: if the child says that it is empty, its negation goes through
/// all ids up to `max_doc_id`. So a wildcard over them can stand for it.
pub proof fn law_negation_of_nothing<I: RQEIterator>(child: &I, max_doc_id: t_docId)
    requires
        child@.known_empty,
    ensures
        forall|d: t_docId| #[trigger]
            complement(child@.docs, max_doc_id).contains(d) <==> 1 <= d <= max_doc_id,
{
    child.lemma_consistent();
}

/// NOT everything = nothing: the negation of a child that has all ids goes through none.
/// So an empty iterator can stand for it.
pub proof fn law_negation_of_everything(docs: Set<t_docId>, max_doc_id: t_docId)
    requires
        forall|d: t_docId| 1 <= d <= max_doc_id ==> #[trigger] docs.contains(d),
    ensures
        complement(docs, max_doc_id) =~= Set::<t_docId>::empty(),
{
}

/// Negating twice gives back the documents: a new negation of a new negation of a child that
/// stands in front of its first document yields, in increasing order, the documents of the child
/// up to the bound of the inner negation, and all ids behind it up to the bound of the outer one.
pub proof fn law_double_negation<I: RQEIterator>(
    outer: &Not<Not<I>>,
    inner: Not<I>,
    child: I,
    outer_max: t_docId,
    inner_max: t_docId,
    weight: Weight,
    timeout_nanos: u128,
    skip_timeout_checks: bool,
    states: Seq<Cursor>,
    ids: Seq<t_docId>,
)
    requires
        outer.is_new(inner, outer_max, weight, timeout_nanos, skip_timeout_checks),
        inner.is_new(child, inner_max, weight, timeout_nanos, skip_timeout_checks),
        child@.reliable,
        child@.last == 0,
        child@.pending =~= child@.docs,
        is_run(states, ids),
        states[0] == outer@,
        states.last().pending =~= Set::<t_docId>::empty(),
    ensures
        is_increasing(ids),
        forall|d: t_docId| #[trigger]
            ids.contains(d) <==> 1 <= d <= outer_max && (child@.docs.contains(d) || d > inner_max),
{
    law_new_negation_is_ready(
        &inner,
        child,
        inner_max,
        weight,
        timeout_nanos,
        skip_timeout_checks,
    );
    law_new_negation_is_ready(
        outer,
        inner,
        outer_max,
        weight,
        timeout_nanos,
        skip_timeout_checks,
    );
    law_negation_yields_the_complement(outer, states, ids);
}

/// A deadline that has passed stops a `read` that has to go over as many documents of the
/// child in a row as lead to a look at the clock. It does not matter whether the negation is
/// new or has been rewound, since `rewind` leaves the deadline as it is.
pub proof fn law_passed_deadline_stops_a_read<I: RQEIterator>(not: &Not<I>, ctx: TimeoutContext)
    requires
        not@.reliable,
        !not@.ended,
        not.deadline() == Some(ctx),
        ctx.has_passed(),
        0 < ctx.granularity(),
        not.place() + ctx.granularity() <= not.max(),
        forall|d: t_docId|
            not.place() < d <= not.place() + ctx.granularity()
                ==> #[trigger] not.held()@.docs.contains(d),
    ensures
        not.aligned(),
        not.meets_deadline(),
{
    assert forall|d: t_docId| not.place() < d <= not.place() + ctx.granularity() implies #[trigger]
    not.claims(d) by {
        assert(not.held()@.docs.contains(d));
    }
}

/// A rewind does not move the deadline: if it has passed, the negation is no longer at its end
/// after a rewind, but the next `read` runs into the deadline again, if the child begins with as
/// many ids in a row as lead to a look at the clock.
pub proof fn law_rewind_does_not_move_the_deadline<I: RQEIterator>(
    before: &Not<I>,
    after: &Not<I>,
    ctx: TimeoutContext,
)
    requires
        after.is_rewound(before),
        before.held()@.sound,
        before.deadline() == Some(ctx),
        ctx.has_passed(),
        0 < ctx.granularity() <= before.max(),
        forall|d: t_docId|
            1 <= d <= ctx.granularity() ==> #[trigger] before.held()@.docs.contains(d),
    ensures
        !after@.ended,
        after.aligned(),
        after.meets_deadline(),
{
    after.held().lemma_consistent();
    law_passed_deadline_stops_a_read(after, ctx);
}

/// A deadline that has passed stops a `read` of a negation over a wildcard that has to go over
/// as many documents in a row as lead to a look at the clock: neither a document nor the end
/// can be reached in time.
pub proof fn law_passed_deadline_stops_an_optimized_read<W: RQEIterator, I: RQEIterator>(
    not: &NotOptimized<W, I>,
    ctx: TimeoutContext,
    to: t_docId,
)
    requires
        not@.reliable,
        !not@.ended,
        not.deadline() == Some(ctx),
        ctx.has_passed(),
        to <= not.max(),
        forall|d: t_docId| #[trigger]
            not.wildcard()@.pending.contains(d) && d <= to ==> not.held()@.docs.contains(d),
        0 < ctx.granularity() <= not.excluded(0, to).len(),
    ensures
        forall|d: t_docId| #[trigger]
            not@.pending.contains(d) ==> !not.in_time(not.excluded(0, d).len()),
        !not.in_time(not.excluded(0, not.max()).len()),
{
    assert forall|d: t_docId| to <= d implies !not.in_time(
        #[trigger] not.excluded(0, d).len(),
    ) by {
        not.wildcard().lemma_consistent();
        lemma_complement_is_bounded(Set::empty(), d);
        assert(not.excluded(0, d).subset_of(complement(Set::empty(), d)));
        vstd::set_lib::lemma_len_subset(not.excluded(0, d), complement(Set::empty(), d));
        vstd::set_lib::lemma_len_subset(not.excluded(0, to), not.excluded(0, d));
    }
    assert forall|d: t_docId| #[trigger] not@.pending.contains(d) implies !not.in_time(
        not.excluded(0, d).len(),
    ) by {
        assert(not.ids_over(not.wildcard()@, not.held()@).contains(d));
        assert(not.wildcard()@.pending.contains(d));
    }
}

/// A deadline that has passed lets fewer skips in a row through than lead to a look
/// at the clock: `states` is what the negation is before the first skip and after each of them.
pub proof fn law_passed_deadline_stops_the_skips<I: RQEIterator>(
    states: Seq<Not<I>>,
    ctx: TimeoutContext,
)
    requires
        states.len() > 1,
        states[0].deadline() == Some(ctx),
        ctx.has_passed(),
        forall|i: int|
            0 <= i < states.len() - 1 ==> (#[trigger] states[i]).passes_check(&states[i + 1]),
    ensures
        ctx.count() + (states.len() - 1) < ctx.granularity(),
        states.last().deadline() matches Some(last) && last.same_deadline(&ctx) && last.count()
            == ctx.count() + (states.len() - 1),
    decreases states.len(),
{
    let n = states.len() - 2;
    assert(states[n].passes_check(&states[n + 1]));
    if n > 0 {
        let before = states.drop_last();
        assert forall|i: int| 0 <= i < before.len() - 1 implies (
        #[trigger] before[i]).passes_check(&before[i + 1]) by {
            assert(states[i].passes_check(&states[i + 1]));
        }
        law_passed_deadline_stops_the_skips(before, ctx);
        assert(before.last() == states[n]);
    }
}

/// Skips in a row run into a deadline that has passed: if each of them checks the deadline with
/// success or leaves the negation timed out, then among as many skips as lead to a look at the
/// clock one has timed out, and the negation has ended with it.
pub proof fn law_skips_run_into_a_passed_deadline<I: RQEIterator>(
    states: Seq<Not<I>>,
    ctx: TimeoutContext,
)
    requires
        states.len() > 1,
        states[0].deadline() == Some(ctx),
        ctx.has_passed(),
        ctx.count() + (states.len() - 1) >= ctx.granularity(),
        forall|i: int|
            0 <= i < states.len() - 1 ==> (#[trigger] states[i]).passes_check(&states[i + 1])
                || states[i + 1].timed_out(),
    ensures
        exists|i: int|
            0 < i < states.len() && (#[trigger] states[i]).timed_out() && states[i]@.ended,
{
    if forall|i: int| 0 < i < states.len() ==> !(#[trigger] states[i]).timed_out() {
        assert forall|i: int| 0 <= i < states.len() - 1 implies (
        #[trigger] states[i]).passes_check(&states[i + 1]) by {
            assert(!states[i + 1].timed_out());
        }
        law_passed_deadline_stops_the_skips(states, ctx);
    }
}

/// The document of a negation outlives a revalidation of its child: if the child was ahead of it,
/// and is now `child` with no new document but behind the place where it stood, then a document
/// of the negation on which it stands is still one.
pub proof fn law_document_outlives_a_revalidation<I: RQEIterator>(
    not: &Not<I>,
    child: Cursor,
    ran_out: bool,
)
    requires
        not@.docs.contains(not@.last),
        not@.last < not.held()@.last,
        forall|d: t_docId|
            d <= not.held()@.last && #[trigger] child.docs.contains(d)
                ==> not.held()@.docs.contains(d),
    ensures
        not.view_over(child, ran_out).docs.contains(not@.last),
        not.view_over(child, ran_out).last == not@.last,
{
}

/// The estimate of a negation is an upper bound of how many documents it has,
/// as long as `max_doc_id` fits into the type of the estimate.
pub proof fn law_estimate_is_an_upper_bound<I: RQEIterator>(not: &Not<I>)
    requires
        not.max() <= usize::MAX,
    ensures
        not@.docs.finite(),
        not@.docs.len() <= not@.estimate,
{
    lemma_complement_is_bounded(not.held()@.docs, not.max());
}

} // verus!
