//! The optional iterator that is backed by a wildcard, as far as its child goes.

use vstd::prelude::*;

use crate::index_result::{t_docId, Weight};
use crate::maybe_empty::MaybeEmpty;
use crate::rqe_iterator::{RQEIterator, WildcardIterator};

verus! {

/// An optional iterator over the documents of a wildcard, with the child
/// whose documents are the ones asked for.
pub struct OptionalOptimized<W, I> {
    /// The wildcard, which goes through the documents that exist.
    wcii: W,
    /// The child iterator.
    child: MaybeEmpty<I>,
    /// The maximum document id to iterate up to (inclusive).
    max_doc_id: t_docId,
    /// The weight of the results.
    weight: Weight,
}

impl<W, I> OptionalOptimized<W, I> {
    /// The wildcard.
    pub closed spec fn wildcard(&self) -> W {
        self.wcii
    }

    /// The child, if there is one.
    pub closed spec fn held(&self) -> Option<I> {
        self.child.iterator
    }

    /// The largest id that the iterator goes up to.
    pub closed spec fn max(&self) -> t_docId {
        self.max_doc_id
    }

    /// The weight of the results.
    pub closed spec fn result_weight(&self) -> Weight {
        self.weight
    }

    /// The two differ in their children at most.
    pub open spec fn same_setup(&self, other: &OptionalOptimized<W, I>) -> bool {
        &&& self.wildcard() == other.wildcard()
        &&& self.max() == other.max()
        &&& self.result_weight() == other.result_weight()
    }
}

impl<W: WildcardIterator, I: RQEIterator> OptionalOptimized<W, I> {
    /// An optional iterator over the documents of `wcii` up to `max_doc_id`.
    pub fn new(wcii: W, child: I, max_doc_id: t_docId, weight: Weight) -> (optional: Self)
        ensures
            optional.wildcard() == wcii,
            optional.held() == Some(child),
            optional.max() == max_doc_id,
            optional.result_weight() == weight,
    {
        OptionalOptimized { wcii, child: MaybeEmpty::new(child), max_doc_id, weight }
    }

    /// The child, if there is one.
    pub fn child(&self) -> (r: Option<&I>)
        ensures
            r is Some <==> self.held() is Some,
            r matches Some(child) ==> self.held() == Some(*child),
    {
        self.child.as_ref()
    }

    /// Replaces the child.
    pub fn set_child(&mut self, new_child: I)
        ensures
            final(self).held() == Some(new_child),
            old(self).same_setup(final(self)),
    {
        self.child = MaybeEmpty::new(new_child);
    }

    /// Gives the child away, if there is one.
    pub fn take_child(&mut self) -> (r: Option<I>)
        ensures
            r == old(self).held(),
            final(self).held() is None,
            old(self).same_setup(final(self)),
    {
        self.child.take_iterator()
    }
}

} // verus!
