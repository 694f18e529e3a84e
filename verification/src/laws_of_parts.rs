//! What the small iterators, of which the others are made, hand on,
//! and what becomes of the child of an optional iterator.

use vstd::prelude::*;

use crate::either::EitherIterator;
use crate::empty::Empty;
use crate::index_result::{t_docId, t_fieldMask, IteratorType, RSIndexResult, Weight};
use crate::iterators_ffi::{
    GetOptionalOptimizedIteratorChild, NewOptionalOptimizedIterator, OpaqueWildcardIterator,
    OptionalOptimizedFfi, RQEIteratorWrapper, SetOptionalOptimizedIteratorChild,
    TakeOptionalOptimizedIteratorChild,
};
use crate::maybe_empty::MaybeEmpty;
use crate::optional_optimized::OptionalOptimized;
use crate::rqe_iterator::{
    Cursor, RQEIterator, RQEIteratorError, RQEValidateStatus, Revalidation, SkipToOutcome,
    WildcardIterator,
};

verus! {

/// The empty iterator has nothing at any moment: no document, none ahead, no result, no error.
pub proof fn law_empty_iterator(empty: Empty)
    ensures
        forall|d: t_docId| !#[trigger] empty@.docs.contains(d),
        forall|d: t_docId| !#[trigger] empty@.pending.contains(d),
        forall|error: RQEIteratorError| !#[trigger] empty@.faults.contains(error),
        empty@.last == 0,
        empty@.ended,
        empty@.shown is None,
        empty@.reliable,
        empty@.sound,
        empty@.estimate == 0,
        empty@.known_empty,
        !empty@.matches_all,
        forall|outcome: Revalidation, next: Cursor| #[trigger]
            empty.revalidates_to(outcome, next) <==> outcome == Revalidation::Valid && next
                == empty@,
{
}

/// An iterator that may be missing is the iterator that it holds, or has nothing.
pub proof fn law_missing_iterator_has_nothing<I: RQEIterator>(maybe: MaybeEmpty<I>)
    ensures
        maybe.iterator matches Some(iterator) ==> {
            &&& maybe@ == iterator@
            &&& forall|outcome: Revalidation, next: Cursor| #[trigger]
                maybe.revalidates_to(outcome, next) <==> iterator.revalidates_to(outcome, next)
        },
        maybe.iterator is None ==> {
            &&& forall|d: t_docId| !#[trigger] maybe@.docs.contains(d)
            &&& forall|d: t_docId| !#[trigger] maybe@.pending.contains(d)
            &&& forall|error: RQEIteratorError| !#[trigger] maybe@.faults.contains(error)
            &&& maybe@.ended
            &&& maybe@.reliable
            &&& maybe@.sound
            &&& maybe@.last == 0
            &&& maybe@.estimate == 0
            &&& maybe@.shown is None
        },
{
}

/// An iterator that may be missing gives back what was put in.
pub proof fn law_maybe_empty_gives_back_what_was_put_in<I>()
    ensures
        forall|iterator: I, maybe: MaybeEmpty<I>| #[trigger]
            call_ensures(MaybeEmpty::<I>::new, (iterator,), maybe) ==> maybe.iterator == Some(
                iterator,
            ),
        forall|maybe: MaybeEmpty<I>| #[trigger]
            call_ensures(MaybeEmpty::<I>::new_empty, (), maybe) ==> maybe.iterator is None,
        forall|maybe: MaybeEmpty<I>, r: Option<&I>| #[trigger]
            call_ensures(MaybeEmpty::<I>::as_ref, (&maybe,), r) ==> match r {
                Some(iterator) => maybe.iterator == Some(*iterator),
                None => maybe.iterator is None,
            },
        forall|maybe: &mut MaybeEmpty<I>, r: Option<I>| #[trigger]
            call_ensures(MaybeEmpty::<I>::take_iterator, (maybe,), r) ==> r == maybe.iterator
                && final(maybe).iterator is None,
{
}

/// One of two iterators, and an iterator behind a pointer, is the iterator that is held.
pub proof fn law_held_iterator_shows_through<A: RQEIterator, B: RQEIterator>(a: A, b: B)
    ensures
        EitherIterator::<A, B>::First(a)@ == a@,
        EitherIterator::<A, B>::Second(b)@ == b@,
        RQEIterator::view(&Box::new(a)) == a@,
        forall|outcome: Revalidation, next: Cursor|
            EitherIterator::<A, B>::First(a).revalidates_to(outcome, next)
                <==> #[trigger] a.revalidates_to(outcome, next),
        forall|outcome: Revalidation, next: Cursor|
            EitherIterator::<A, B>::Second(b).revalidates_to(outcome, next)
                <==> #[trigger] b.revalidates_to(outcome, next),
        forall|outcome: Revalidation, next: Cursor|
            RQEIterator::revalidates_to(&Box::new(a), outcome, next)
                <==> #[trigger] a.revalidates_to(outcome, next),
{
}

/// A wildcard of the engine is the iterator that it holds, but never says that it is empty.
pub proof fn law_opaque_wildcard_shows_its_iterator<I: RQEIterator>(
    wildcard: OpaqueWildcardIterator<I>,
)
    ensures
        wildcard@.index == wildcard.0@.index,
        wildcard@.docs == wildcard.0@.docs,
        wildcard@.pending == wildcard.0@.pending,
        wildcard@.last == wildcard.0@.last,
        wildcard@.ended == wildcard.0@.ended,
        wildcard@.shown == wildcard.0@.shown,
        wildcard@.reliable == wildcard.0@.reliable,
        wildcard@.sound == wildcard.0@.sound,
        wildcard@.faults == wildcard.0@.faults,
        wildcard@.estimate == wildcard.0@.estimate,
        wildcard@.matches_all == wildcard.0@.matches_all,
        !wildcard@.known_empty,
        forall|outcome: Revalidation, next: Cursor| #[trigger]
            wildcard.revalidates_to(outcome, next) ==> !next.known_empty && exists|inner: Cursor|
                #[trigger]
                wildcard.0.revalidates_to(outcome, inner) && inner.docs == next.docs
                    && inner.pending == next.pending && inner.last == next.last && inner.ended
                    == next.ended && inner.reliable == next.reliable && inner.shown == next.shown,
{
}

/// A wildcard of the engine hands each operation on, and hands back what came of it.
pub proof fn law_opaque_wildcard_hands_on<I: RQEIterator>()
    ensures
        forall|
            wildcard: &mut OpaqueWildcardIterator<I>,
            r: Result<Option<&mut RSIndexResult>, RQEIteratorError>,
        | #[trigger]
            call_ensures(<OpaqueWildcardIterator<I> as RQEIterator>::read, (wildcard,), r)
                ==> exists|inner: &mut I| #[trigger]
                call_ensures(I::read, (inner,), r) && *inner == wildcard.0 && *final(inner)
                    == final(wildcard).0,
        forall|
            wildcard: &mut OpaqueWildcardIterator<I>,
            doc_id: t_docId,
            r: Result<Option<SkipToOutcome<'_>>, RQEIteratorError>,
        | #[trigger]
            call_ensures(
                <OpaqueWildcardIterator<I> as RQEIterator>::skip_to,
                (wildcard, doc_id),
                r,
            ) ==> exists|inner: &mut I| #[trigger]
                call_ensures(I::skip_to, (inner, doc_id), r) && *inner == wildcard.0
                    && *final(inner) == final(wildcard).0,
        forall|
            wildcard: &mut OpaqueWildcardIterator<I>,
            r: Result<RQEValidateStatus<'_>, RQEIteratorError>,
        | #[trigger]
            call_ensures(<OpaqueWildcardIterator<I> as RQEIterator>::revalidate, (wildcard,), r)
                ==> exists|inner: &mut I| #[trigger]
                call_ensures(I::revalidate, (inner,), r) && *inner == wildcard.0 && *final(inner)
                    == final(wildcard).0,
        forall|wildcard: &mut OpaqueWildcardIterator<I>, r: Option<&mut RSIndexResult>| #[trigger]
            call_ensures(<OpaqueWildcardIterator<I> as RQEIterator>::current, (wildcard,), r)
                ==> exists|inner: &mut I| #[trigger]
                call_ensures(I::current, (inner,), r) && *inner == wildcard.0 && *final(inner)
                    == final(wildcard).0,
        forall|wildcard: &mut OpaqueWildcardIterator<I>| #[trigger]
            call_ensures(<OpaqueWildcardIterator<I> as RQEIterator>::rewind, (wildcard,), ())
                ==> exists|inner: &mut I| #[trigger]
                call_ensures(I::rewind, (inner,), ()) && *inner == wildcard.0 && *final(inner)
                    == final(wildcard).0,
{
}

/// A virtual result stands in front of the first document and counts no term.
pub proof fn law_virtual_result()
    ensures
        forall|weight: Weight, field_mask: t_fieldMask, result: RSIndexResult| #[trigger]
            call_ensures(RSIndexResult::virt, (weight, field_mask), result) ==> result.doc_id == 0
                && result.freq == 0 && result.field_mask == field_mask && result.weight == weight,
        forall|weight: Weight| #[trigger]
            call_ensures(Weight::zero, (), weight) ==> weight.bits == 0,
{
}

/// The child of an optional iterator is the one that it was made with or that was set last,
/// until it is taken; wildcard, bound and weight stay what they are.
pub proof fn law_child_of_an_optional_iterator<W: WildcardIterator, I: RQEIterator>()
    ensures
        forall|wcii: W, child: I, max: t_docId, weight: Weight, optional: OptionalOptimized<W, I>|
            #[trigger]
            call_ensures(OptionalOptimized::<W, I>::new, (wcii, child, max, weight), optional) ==> {
                &&& optional.wildcard() == wcii
                &&& optional.held() == Some(child)
                &&& optional.max() == max
                &&& optional.result_weight() == weight
            },
        forall|optional: &mut OptionalOptimized<W, I>, child: I| #[trigger]
            call_ensures(OptionalOptimized::<W, I>::set_child, (optional, child), ()) ==> {
                &&& final(optional).held() == Some(child)
                &&& final(optional).wildcard() == optional.wildcard()
                &&& final(optional).max() == optional.max()
                &&& final(optional).result_weight() == optional.result_weight()
            },
        forall|optional: &mut OptionalOptimized<W, I>, r: Option<I>| #[trigger]
            call_ensures(OptionalOptimized::<W, I>::take_child, (optional,), r) ==> {
                &&& r == optional.held()
                &&& final(optional).held() is None
                &&& final(optional).wildcard() == optional.wildcard()
                &&& final(optional).max() == optional.max()
                &&& final(optional).result_weight() == optional.result_weight()
            },
        forall|optional: OptionalOptimized<W, I>, r: Option<&I>| #[trigger]
            call_ensures(OptionalOptimized::<W, I>::child, (&optional,), r) ==> match r {
                Some(child) => optional.held() == Some(*child),
                None => optional.held() is None,
            },
{
}

/// The entry points tag a new optional iterator as such, ask for its wildcard with the weight 0.0,
/// and get, take and set the child of the very iterator that they are given.
pub proof fn law_entry_points<S, W, C, F>() where
    W: RQEIterator,
    C: RQEIterator,
    F: FnOnce(S, Weight) -> Option<W>,

    ensures
        forall|
            sctx: S,
            child: Option<C>,
            max: t_docId,
            weight: Weight,
            f: F,
            r: Box<RQEIteratorWrapper<OptionalOptimizedFfi<W, C>>>,
        | #[trigger]
            call_ensures(
                NewOptionalOptimizedIterator::<S, W, C, F>,
                (sctx, child, max, weight, f),
                r,
            ) ==> {
                &&& r.type_ == IteratorType::OptionalOptimized
                &&& r.inner.held() == child
                &&& r.inner.max() == max
                &&& r.inner.result_weight() == weight
                &&& call_ensures(f, (sctx, Weight { bits: 0 }), Some(r.inner.wildcard().0))
            },
        forall|header: RQEIteratorWrapper<OptionalOptimizedFfi<W, C>>, r: Option<&C>| #[trigger]
            call_ensures(GetOptionalOptimizedIteratorChild::<W, C>, (&header,), r) ==> match r {
                Some(child) => header.inner.held() == Some(*child),
                None => header.inner.held() is None,
            },
        forall|header: &mut RQEIteratorWrapper<OptionalOptimizedFfi<W, C>>, r: Option<C>| #[trigger]
            call_ensures(TakeOptionalOptimizedIteratorChild::<W, C>, (header,), r) ==> {
                &&& r == header.inner.held()
                &&& final(header).inner.held() is None
                &&& final(header).type_ == header.type_
                &&& final(header).inner.wildcard() == header.inner.wildcard()
                &&& final(header).inner.max() == header.inner.max()
                &&& final(header).inner.result_weight() == header.inner.result_weight()
            },
        forall|header: &mut RQEIteratorWrapper<OptionalOptimizedFfi<W, C>>, child: Option<C>|
            #[trigger]
            call_ensures(SetOptionalOptimizedIteratorChild::<W, C>, (header, child), ()) ==> {
                &&& final(header).inner.held() == child
                &&& final(header).type_ == header.type_
                &&& final(header).inner.wildcard() == header.inner.wildcard()
                &&& final(header).inner.max() == header.inner.max()
                &&& final(header).inner.result_weight() == header.inner.result_weight()
            },
{
}

/// A wrapper holds the iterator that it was made of, under the tag that it was given.
pub proof fn law_wrapper_holds_what_it_was_made_of<I>()
    ensures
        forall|type_: IteratorType, inner: I, wrapper: Box<RQEIteratorWrapper<I>>| #[trigger]
            call_ensures(RQEIteratorWrapper::<I>::boxed_new, (type_, inner), wrapper)
                ==> wrapper.type_ == type_ && wrapper.inner == inner,
{
}

} // verus!
