//! An iterator that may be missing.

use vstd::prelude::*;

use crate::empty::empty_cursor;
use crate::index_result::{t_docId, RSIndexResult};
use crate::rqe_iterator::{
    Cursor, RQEIterator, RQEIteratorError, RQEValidateStatus, Revalidation, SkipToOutcome,
};

verus! {

/// An iterator, or none: without one it behaves as an iterator that has no document.
pub struct MaybeEmpty<I> {
    pub iterator: Option<I>,
}

impl<I> MaybeEmpty<I> {
    /// Holds `iterator`.
    pub fn new(iterator: I) -> (maybe: Self)
        ensures
            maybe.iterator == Some(iterator),
    {
        MaybeEmpty { iterator: Some(iterator) }
    }

    /// Holds no iterator.
    pub fn new_empty() -> (maybe: Self)
        ensures
            maybe.iterator is None,
    {
        MaybeEmpty { iterator: None }
    }

    /// The iterator, if there is one.
    pub fn as_ref(&self) -> (r: Option<&I>)
        ensures
            r is Some <==> self.iterator is Some,
            r matches Some(iterator) ==> self.iterator == Some(*iterator),
    {
        self.iterator.as_ref()
    }

    /// Gives the iterator away, if there is one. Nothing is left behind.
    pub fn take_iterator(&mut self) -> (r: Option<I>)
        ensures
            r == old(self).iterator,
            final(self).iterator is None,
    {
        self.iterator.take()
    }
}

impl<I: RQEIterator> RQEIterator for MaybeEmpty<I> {
    open spec fn view(&self) -> Cursor {
        match self.iterator {
            Some(iterator) => iterator@,
            None => empty_cursor(),
        }
    }

    open spec fn revalidates_to(&self, outcome: Revalidation, next: Cursor) -> bool {
        match self.iterator {
            Some(iterator) => iterator.revalidates_to(outcome, next),
            None => outcome == Revalidation::Valid && next == empty_cursor(),
        }
    }

    proof fn lemma_consistent(&self) {
        if let Some(iterator) = self.iterator {
            iterator.lemma_consistent();
        }
    }

    fn current(&mut self) -> (r: Option<&mut RSIndexResult>)
        ensures
            final(self).iterator is Some <==> old(self).iterator is Some,
    {
        match &mut self.iterator {
            Some(iterator) => iterator.current(),
            None => None,
        }
    }

    fn read(&mut self) -> (r: Result<Option<&mut RSIndexResult>, RQEIteratorError>)
        ensures
            final(self).iterator is Some <==> old(self).iterator is Some,
    {
        match &mut self.iterator {
            Some(iterator) => iterator.read(),
            None => Ok(None),
        }
    }

    fn skip_to(&mut self, doc_id: t_docId) -> (r: Result<
        Option<SkipToOutcome<'_>>,
        RQEIteratorError,
    >)
        ensures
            final(self).iterator is Some <==> old(self).iterator is Some,
    {
        match &mut self.iterator {
            Some(iterator) => iterator.skip_to(doc_id),
            None => Ok(None),
        }
    }

    fn revalidate(&mut self) -> (r: Result<RQEValidateStatus<'_>, RQEIteratorError>)
        ensures
            final(self).iterator is Some <==> old(self).iterator is Some,
            old(self).iterator is None ==> (r matches Ok(RQEValidateStatus::Valid)),
    {
        match &mut self.iterator {
            Some(iterator) => iterator.revalidate(),
            None => Ok(RQEValidateStatus::Valid),
        }
    }

    fn rewind(&mut self)
        ensures
            final(self).iterator is Some <==> old(self).iterator is Some,
    {
        if let Some(iterator) = &mut self.iterator {
            iterator.rewind();
        }
    }

    fn num_estimated(&self) -> (r: usize) {
        match &self.iterator {
            Some(iterator) => iterator.num_estimated(),
            None => 0,
        }
    }

    fn last_doc_id(&self) -> (r: t_docId) {
        match &self.iterator {
            Some(iterator) => iterator.last_doc_id(),
            None => 0,
        }
    }

    fn at_eof(&self) -> (r: bool) {
        match &self.iterator {
            Some(iterator) => iterator.at_eof(),
            None => true,
        }
    }

    fn is_wildcard(&self) -> (r: bool) {
        match &self.iterator {
            Some(iterator) => iterator.is_wildcard(),
            None => false,
        }
    }

    fn is_empty(&self) -> (r: bool) {
        match &self.iterator {
            Some(iterator) => iterator.is_empty(),
            None => true,
        }
    }
}

} // verus!
