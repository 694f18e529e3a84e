//! Negations of either kind, and the choice between them.

use vstd::prelude::*;

use crate::either::EitherIterator;
use crate::empty::Empty;
use crate::index_result::{t_docId, IteratorType, RSIndexResult, Weight};
use crate::not::Not;
use crate::not_optimized::NotOptimized;
use crate::rqe_iterator::{Cursor, RQEIterator};

verus! {

/// A negation, sequential ([`Not`]) or backed by a wildcard ([`NotOptimized`]).
pub trait NotIterator: RQEIterator {
    /// The type of the child.
    type Child;

    /// The child, if there is one.
    spec fn held_child(&self) -> Option<Self::Child>;

    /// Get a shared reference to the child iterator, or `None` if unset.
    fn child(&self) -> (r: Option<&Self::Child>)
        ensures
            r is Some <==> self.held_child() is Some,
            r matches Some(child) ==> self.held_child() == Some(*child),
    ;

    /// Replace the child iterator. The negation stays where it stands.
    fn set_child(&mut self, child: Self::Child)
        ensures
            final(self).held_child() == Some(child),
            final(self)@.last == old(self)@.last,
            final(self)@.ended == old(self)@.ended,
            final(self)@.shown == old(self)@.shown,
            final(self)@.estimate == old(self)@.estimate,
    ;

    /// Take ownership of the child iterator, leaving it unset.
    fn take_child(&mut self) -> (r: Option<Self::Child>)
        ensures
            r == old(self).held_child(),
            final(self).held_child() is None,
            final(self)@.last == old(self)@.last,
            final(self)@.ended == old(self)@.ended,
            final(self)@.shown == old(self)@.shown,
            final(self)@.estimate == old(self)@.estimate,
    ;
}

impl<I: RQEIterator> NotIterator for Not<I> {
    type Child = I;

    open spec fn held_child(&self) -> Option<I> {
        self.held().iterator
    }

    fn child(&self) -> (r: Option<&I>) {
        Not::child(self)
    }

    fn set_child(&mut self, child: I) {
        Not::set_child(self, child);
    }

    fn take_child(&mut self) -> (r: Option<I>) {
        Not::take_child(self)
    }
}

impl<W: RQEIterator, I: RQEIterator> NotIterator for NotOptimized<W, I> {
    type Child = I;

    open spec fn held_child(&self) -> Option<I> {
        self.held().iterator
    }

    fn child(&self) -> (r: Option<&I>) {
        NotOptimized::child(self)
    }

    fn set_child(&mut self, child: I) {
        NotOptimized::set_child(self, child);
    }

    fn take_child(&mut self) -> (r: Option<I>) {
        NotOptimized::take_child(self)
    }
}

impl<C, A: NotIterator<Child = C>, B: NotIterator<Child = C>> NotIterator for EitherIterator<A, B> {
    type Child = C;

    open spec fn held_child(&self) -> Option<C> {
        match self {
            EitherIterator::First(iterator) => iterator.held_child(),
            EitherIterator::Second(iterator) => iterator.held_child(),
        }
    }

    fn child(&self) -> (r: Option<&C>) {
        match self {
            EitherIterator::First(iterator) => iterator.child(),
            EitherIterator::Second(iterator) => iterator.child(),
        }
    }

    fn set_child(&mut self, child: C) {
        match self {
            EitherIterator::First(iterator) => iterator.set_child(child),
            EitherIterator::Second(iterator) => iterator.set_child(child),
        }
    }

    fn take_child(&mut self) -> (r: Option<C>) {
        match self {
            EitherIterator::First(iterator) => iterator.take_child(),
            EitherIterator::Second(iterator) => iterator.take_child(),
        }
    }
}

/// What the schema of an index lays down.
#[derive(Clone, Copy, Debug, PartialEq, Eq, Structural)]
pub struct SchemaRule {
    /// The index keeps an `existingDocs` inverted index, over all documents that exist.
    pub index_all: bool,
}

/// An index.
#[derive(Clone, Copy, Debug, PartialEq, Eq, Structural)]
pub struct IndexSpec {
    /// The index lives on disk. Which negation is made does not hang on this.
    pub has_disk_spec: bool,
    /// The schema of the index, if it has one.
    pub rule: Option<SchemaRule>,
}

/// The context of a search.
#[derive(Clone, Copy, Debug, PartialEq, Eq, Structural)]
pub struct RedisSearchCtx {
    pub spec: IndexSpec,
}

/// The context in which a query is evaluated.
#[derive(Clone, Copy, Debug, PartialEq, Eq, Structural)]
pub struct QueryEvalCtx {
    pub sctx: Option<RedisSearchCtx>,
}

impl IndexSpec {
    /// The index has an `existingDocs` inverted index.
    pub open spec fn has_existing_docs(&self) -> bool {
        self.rule matches Some(rule) && rule.index_all
    }
}

/// The result of [`not_iterator_reducer`].
pub enum NotReduction<W, I> {
    /// The negation was reduced to a simpler iterator, a wildcard or an empty one.
    Reduced(EitherIterator<W, Empty>, IteratorType),
    /// No reduction was possible. The child is returned unchanged.
    NotReduced(I),
}

/// The result of [`new_not_iterator`].
pub enum NewNotIterator<W, I> {
    /// The child was trivially reducible, and a simpler iterator stands for the negation:
    ///
    /// - a wildcard if the child is empty (NOT nothing = everything);
    /// - an empty iterator if the child is a wildcard (NOT everything = nothing).
    Reduced(EitherIterator<W, Empty>, IteratorType),
    /// No reduction was possible; a proper negation was created:
    ///
    /// - a [`Not`] if the index does not have an `existingDocs` inverted index
    ///   (sequential scan from 1 to `max_doc_id`);
    /// - a [`NotOptimized`] if it has one (backed by a wildcard).
    NotReduced(EitherIterator<Not<I>, NotOptimized<W, I>>, IteratorType),
}

/// `after` is the wildcard `before`, except that the result on which it stands counts no term.
pub open spec fn without_frequency(before: Cursor, after: Cursor) -> bool {
    &&& before.same_source(after)
    &&& before.same_place(after)
    &&& after.shown == match before.shown {
        Some(result) => Some(RSIndexResult { freq: 0, ..result }),
        None => None,
    }
}

/// Makes a wildcard stand for the negation of nothing: its results count no term.
pub fn negate_nothing<W: RQEIterator>(wildcard: W) -> (r: W)
    ensures
        without_frequency(wildcard@, r@),
        r@.docs =~= wildcard@.docs,
        r@.pending =~= wildcard@.pending,
        r@.last == wildcard@.last,
        r@.ended == wildcard@.ended,
        r@.reliable == wildcard@.reliable,
        r@.shown is Some <==> wildcard@.shown is Some,
        wildcard@.shown matches Some(result) ==> r@.shown == Some(
            (RSIndexResult { freq: 0, ..result }),
        ),
{
    let mut wildcard = wildcard;
    if let Some(result) = wildcard.current() {
        result.freq = 0;
    }
    wildcard
}

/// Attempt to reduce the negation of `child` into a simpler form.
///
/// Applies the following reduction rules:
/// 1. If the child is empty, the negation matches everything: return a wildcard.
/// 2. If the child is a wildcard, the negation matches nothing: return empty.
///
/// `new_wildcard_iterator` makes a wildcard of the given weight, with its type.
pub fn not_iterator_reducer<W, I, F>(child: I, weight: Weight, new_wildcard_iterator: &F) -> (r:
    NotReduction<W, I>) where W: RQEIterator, I: RQEIterator, F: Fn(Weight) -> (W, IteratorType)
    requires
        child@.known_empty ==> call_requires(*new_wildcard_iterator, (weight,)),
    ensures
        child@.known_empty ==> {
            &&& r matches NotReduction::Reduced(EitherIterator::First(reduced), iterator_type)
            &&& exists|wildcard: W| #[trigger]
                call_ensures(*new_wildcard_iterator, (weight,), (wildcard, iterator_type))
                    && without_frequency(wildcard@, reduced@)
        },
        !child@.known_empty && child@.matches_all ==> r == NotReduction::<W, I>::Reduced(
            EitherIterator::Second(Empty),
            IteratorType::Empty,
        ),
        !child@.known_empty && !child@.matches_all ==> r == NotReduction::<W, I>::NotReduced(
            child,
        ),
{
    if child.is_empty() {
        // The child is empty, so the negation matches everything.
        let (wildcard, iterator_type) = new_wildcard_iterator(weight);
        NotReduction::Reduced(EitherIterator::First(negate_nothing(wildcard)), iterator_type)
    } else if child.is_wildcard() {
        // The child is a wildcard, so the negation matches nothing.
        NotReduction::Reduced(EitherIterator::Second(Empty), IteratorType::Empty)
    } else {
        NotReduction::NotReduced(child)
    }
}

/// Construct a negation, choosing between [`Not`] (sequential) and
/// [`NotOptimized`] (wildcard-backed) based on the query evaluation context.
///
/// If the child is trivially reducible (empty or wildcard), the reducer is
/// applied first and a simplified iterator is returned directly as
/// [`NewNotIterator::Reduced`]. Only where it is not, the query needs a search context.
///
/// `new_wildcard_iterator` makes a wildcard of the given weight, with its type.
pub fn new_not_iterator<W, I, F>(
    child: I,
    max_doc_id: t_docId,
    weight: Weight,
    timeout_nanos: u128,
    skip_timeout_checks: bool,
    query: &QueryEvalCtx,
    new_wildcard_iterator: &F,
) -> (r: NewNotIterator<W, I>) where
    W: RQEIterator,
    I: RQEIterator,
    F: Fn(Weight) -> (W, IteratorType),

    requires
        child@.known_empty || child@.matches_all || query.sctx is Some,
        child@.known_empty || (!child@.matches_all && query.sctx->0.spec.has_existing_docs())
            ==> call_requires(*new_wildcard_iterator, (weight,)),
    ensures
        child@.known_empty ==> {
            &&& r matches NewNotIterator::Reduced(EitherIterator::First(reduced), iterator_type)
            &&& exists|wildcard: W| #[trigger]
                call_ensures(*new_wildcard_iterator, (weight,), (wildcard, iterator_type))
                    && without_frequency(wildcard@, reduced@)
        },
        !child@.known_empty && child@.matches_all ==> r == NewNotIterator::<W, I>::Reduced(
            EitherIterator::Second(Empty),
            IteratorType::Empty,
        ),
        !child@.known_empty && !child@.matches_all && query.sctx->0.spec.has_existing_docs() ==> {
            &&& r matches NewNotIterator::NotReduced(
                EitherIterator::Second(not),
                IteratorType::Not,
            )
            &&& exists|wildcard_type: IteratorType| #[trigger]
                call_ensures(
                    *new_wildcard_iterator,
                    (weight,),
                    (not.wildcard(), wildcard_type),
                )
            &&& not.is_new(
                not.wildcard(),
                child,
                max_doc_id,
                weight,
                timeout_nanos,
                skip_timeout_checks,
            )
        },
        !child@.known_empty && !child@.matches_all && !query.sctx->0.spec.has_existing_docs() ==> {
            &&& r matches NewNotIterator::NotReduced(EitherIterator::First(not), IteratorType::Not)
            &&& not.is_new(child, max_doc_id, weight, timeout_nanos, skip_timeout_checks)
        },
{
    let child = match not_iterator_reducer(child, weight, new_wildcard_iterator) {
        NotReduction::Reduced(reduced, iterator_type) => {
            return NewNotIterator::Reduced(reduced, iterator_type);
        },
        NotReduction::NotReduced(child) => child,
    };

    let sctx = query.sctx.unwrap();
    let optimized = match sctx.spec.rule {
        Some(rule) => rule.index_all,
        None => false,
    };

    if optimized {
        let (wcii, _wildcard_type) = new_wildcard_iterator(weight);
        assert(call_ensures(*new_wildcard_iterator, (weight,), (wcii, _wildcard_type)));
        NewNotIterator::NotReduced(
            EitherIterator::Second(
                NotOptimized::new(
                    wcii,
                    child,
                    max_doc_id,
                    weight,
                    timeout_nanos,
                    skip_timeout_checks,
                ),
            ),
            IteratorType::Not,
        )
    } else {
        NewNotIterator::NotReduced(
            EitherIterator::First(
                Not::new(child, max_doc_id, weight, timeout_nanos, skip_timeout_checks),
            ),
            IteratorType::Not,
        )
    }
}

} // verus!
