//! Entry points through which an engine makes an optional iterator and handles its child.
//!
//! A missing pointer of the engine is `None` here.

use vstd::prelude::*;

use crate::index_result::{t_docId, IteratorType, RSIndexResult, Weight};
use crate::optional_optimized::OptionalOptimized;
use crate::rqe_iterator::{
    Cursor, RQEIterator, RQEIteratorError, RQEValidateStatus, Revalidation, SkipToOutcome,
    WildcardIterator,
};

verus! {

/// An iterator of the engine that is known to be a wildcard.
///
/// It hands every operation on to the iterator that it holds.
pub struct OpaqueWildcardIterator<I>(pub I);

impl<I: RQEIterator> RQEIterator for OpaqueWildcardIterator<I> {
    open spec fn view(&self) -> Cursor {
        Cursor { known_empty: false, ..self.0@ }
    }

    open spec fn revalidates_to(&self, outcome: Revalidation, next: Cursor) -> bool {
        exists|inner: Cursor| #[trigger]
            self.0.revalidates_to(outcome, inner) && next == (Cursor {
                known_empty: false,
                ..inner
            })
    }

    proof fn lemma_consistent(&self) {
        self.0.lemma_consistent();
    }

    fn current(&mut self) -> (r: Option<&mut RSIndexResult>)
        ensures
            exists|inner: &mut I| #[trigger]
                call_ensures(I::current, (inner,), r) && *inner == old(self).0 && *final(inner)
                    == final(self).0,
    {
        self.0.current()
    }

    fn read(&mut self) -> (r: Result<Option<&mut RSIndexResult>, RQEIteratorError>)
        ensures
            exists|inner: &mut I| #[trigger]
                call_ensures(I::read, (inner,), r) && *inner == old(self).0 && *final(inner)
                    == final(self).0,
    {
        self.0.read()
    }

    fn skip_to(&mut self, doc_id: t_docId) -> (r: Result<
        Option<SkipToOutcome<'_>>,
        RQEIteratorError,
    >)
        ensures
            exists|inner: &mut I| #[trigger]
                call_ensures(I::skip_to, (inner, doc_id), r) && *inner == old(self).0 && *final(inner)
                    == final(self).0,
    {
        self.0.skip_to(doc_id)
    }

    fn revalidate(&mut self) -> (r: Result<RQEValidateStatus<'_>, RQEIteratorError>)
        ensures
            exists|inner: &mut I| #[trigger]
                call_ensures(I::revalidate, (inner,), r) && *inner == old(self).0 && *final(inner)
                    == final(self).0,
    {
        self.0.revalidate()
    }

    fn rewind(&mut self)
        ensures
            exists|inner: &mut I| #[trigger]
                call_ensures(I::rewind, (inner,), ()) && *inner == old(self).0 && *final(inner)
                    == final(self).0,
    {
        self.0.rewind()
    }

    fn num_estimated(&self) -> (r: usize) {
        self.0.num_estimated()
    }

    fn last_doc_id(&self) -> (r: t_docId) {
        self.0.last_doc_id()
    }

    fn at_eof(&self) -> (r: bool) {
        self.0.at_eof()
    }

    fn is_wildcard(&self) -> (r: bool) {
        self.0.is_wildcard()
    }

    fn is_empty(&self) -> (r: bool) {
        false
    }
}

impl<I: RQEIterator> WildcardIterator for OpaqueWildcardIterator<I> {

}

/// An iterator under the tag by which the engine knows it.
pub struct RQEIteratorWrapper<I> {
    pub type_: IteratorType,
    pub inner: I,
}

impl<I> RQEIteratorWrapper<I> {
    /// Puts `inner` under the tag `type_`.
    pub fn boxed_new(type_: IteratorType, inner: I) -> (wrapper: Box<Self>)
        ensures
            wrapper.type_ == type_,
            wrapper.inner == inner,
    {
        Box::new(RQEIteratorWrapper { type_, inner })
    }
}

/// The optional iterator over iterators of the engine.
pub type OptionalOptimizedFfi<W, C> = OptionalOptimized<OpaqueWildcardIterator<W>, C>;

/// Create a new optimized optional iterator.
///
/// The wildcard is created from `sctx` by `new_wildcard_iterator_optimized`,
/// with the weight 0.0. Neither it nor the child may be missing.
#[allow(non_snake_case)]
pub fn NewOptionalOptimizedIterator<S, W, C, F>(
    sctx: S,
    child: Option<C>,
    max_doc_id: t_docId,
    weight: Weight,
    new_wildcard_iterator_optimized: F,
) -> (r: Box<RQEIteratorWrapper<OptionalOptimizedFfi<W, C>>>) where
    W: RQEIterator,
    C: RQEIterator,
    F: FnOnce(S, Weight) -> Option<W>,

    requires
        child is Some,
        call_requires(new_wildcard_iterator_optimized, (sctx, Weight { bits: 0 })),
        forall|wildcard: Option<W>| #[trigger]
            call_ensures(
                new_wildcard_iterator_optimized,
                (sctx, Weight { bits: 0 }),
                wildcard,
            ) ==> wildcard is Some,
    ensures
        r.type_ == IteratorType::OptionalOptimized,
        call_ensures(
            new_wildcard_iterator_optimized,
            (sctx, Weight { bits: 0 }),
            Some(r.inner.wildcard().0),
        ),
        r.inner.held() == child,
        r.inner.max() == max_doc_id,
        r.inner.result_weight() == weight,
{
    let wcii = new_wildcard_iterator_optimized(sctx, Weight::zero());
    let wcii = OpaqueWildcardIterator(wcii.unwrap());
    let child = child.unwrap();
    RQEIteratorWrapper::boxed_new(
        IteratorType::OptionalOptimized,
        OptionalOptimized::new(wcii, child, max_doc_id, weight),
    )
}

/// Get the child of the optimized optional iterator, or `None` if there is no child.
///
/// `header` has to carry the tag of an optimized optional iterator.
#[allow(non_snake_case)]
pub fn GetOptionalOptimizedIteratorChild<W: RQEIterator, C: RQEIterator>(
    header: &RQEIteratorWrapper<OptionalOptimizedFfi<W, C>>,
) -> (r: Option<&C>)
    requires
        header.type_ == IteratorType::OptionalOptimized,
    ensures
        r is Some <==> header.inner.held() is Some,
        r matches Some(child) ==> header.inner.held() == Some(*child),
{
    header.inner.child()
}

/// Take ownership over the child of the optimized optional iterator,
/// or return `None` if there is no child.
///
/// `header` has to carry the tag of an optimized optional iterator.
#[allow(non_snake_case)]
pub fn TakeOptionalOptimizedIteratorChild<W: RQEIterator, C: RQEIterator>(
    header: &mut RQEIteratorWrapper<OptionalOptimizedFfi<W, C>>,
) -> (r: Option<C>)
    requires
        old(header).type_ == IteratorType::OptionalOptimized,
    ensures
        r == old(header).inner.held(),
        final(header).inner.held() is None,
        final(header).type_ == old(header).type_,
        old(header).inner.same_setup(&final(header).inner),
{
    header.inner.take_child()
}

/// Set (or overwrite) the child of the optimized optional iterator.
///
/// `header` has to carry the tag of an optimized optional iterator,
/// and the child may not be missing.
#[allow(non_snake_case)]
pub fn SetOptionalOptimizedIteratorChild<W: RQEIterator, C: RQEIterator>(
    header: &mut RQEIteratorWrapper<OptionalOptimizedFfi<W, C>>,
    child: Option<C>,
)
    requires
        old(header).type_ == IteratorType::OptionalOptimized,
        child is Some,
    ensures
        final(header).inner.held() == child,
        final(header).type_ == old(header).type_,
        old(header).inner.same_setup(&final(header).inner),
{
    let child = child.unwrap();
    header.inner.set_child(child);
}

} // verus!
