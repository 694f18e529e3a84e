//! One of two iterators.

use vstd::prelude::*;

use crate::index_result::{t_docId, RSIndexResult};
use crate::rqe_iterator::{
    Cursor, RQEIterator, RQEIteratorError, RQEValidateStatus, Revalidation, SkipToOutcome,
};

verus! {

/// Either of two iterators. It behaves as the one that it holds.
pub enum EitherIterator<A, B> {
    First(A),
    Second(B),
}

impl<A: RQEIterator, B: RQEIterator> RQEIterator for EitherIterator<A, B> {
    open spec fn view(&self) -> Cursor {
        match self {
            EitherIterator::First(iterator) => iterator@,
            EitherIterator::Second(iterator) => iterator@,
        }
    }

    open spec fn revalidates_to(&self, outcome: Revalidation, next: Cursor) -> bool {
        match self {
            EitherIterator::First(iterator) => iterator.revalidates_to(outcome, next),
            EitherIterator::Second(iterator) => iterator.revalidates_to(outcome, next),
        }
    }

    proof fn lemma_consistent(&self) {
        match self {
            EitherIterator::First(iterator) => iterator.lemma_consistent(),
            EitherIterator::Second(iterator) => iterator.lemma_consistent(),
        }
    }

    fn current(&mut self) -> (r: Option<&mut RSIndexResult>) {
        match self {
            EitherIterator::First(iterator) => iterator.current(),
            EitherIterator::Second(iterator) => iterator.current(),
        }
    }

    fn read(&mut self) -> (r: Result<Option<&mut RSIndexResult>, RQEIteratorError>) {
        match self {
            EitherIterator::First(iterator) => iterator.read(),
            EitherIterator::Second(iterator) => iterator.read(),
        }
    }

    fn skip_to(&mut self, doc_id: t_docId) -> (r: Result<
        Option<SkipToOutcome<'_>>,
        RQEIteratorError,
    >) {
        match self {
            EitherIterator::First(iterator) => iterator.skip_to(doc_id),
            EitherIterator::Second(iterator) => iterator.skip_to(doc_id),
        }
    }

    fn revalidate(&mut self) -> (r: Result<RQEValidateStatus<'_>, RQEIteratorError>) {
        match self {
            EitherIterator::First(iterator) => iterator.revalidate(),
            EitherIterator::Second(iterator) => iterator.revalidate(),
        }
    }

    fn rewind(&mut self) {
        match self {
            EitherIterator::First(iterator) => iterator.rewind(),
            EitherIterator::Second(iterator) => iterator.rewind(),
        }
    }

    fn num_estimated(&self) -> (r: usize) {
        match self {
            EitherIterator::First(iterator) => iterator.num_estimated(),
            EitherIterator::Second(iterator) => iterator.num_estimated(),
        }
    }

    fn last_doc_id(&self) -> (r: t_docId) {
        match self {
            EitherIterator::First(iterator) => iterator.last_doc_id(),
            EitherIterator::Second(iterator) => iterator.last_doc_id(),
        }
    }

    fn at_eof(&self) -> (r: bool) {
        match self {
            EitherIterator::First(iterator) => iterator.at_eof(),
            EitherIterator::Second(iterator) => iterator.at_eof(),
        }
    }

    fn is_wildcard(&self) -> (r: bool) {
        match self {
            EitherIterator::First(iterator) => iterator.is_wildcard(),
            EitherIterator::Second(iterator) => iterator.is_wildcard(),
        }
    }

    fn is_empty(&self) -> (r: bool) {
        match self {
            EitherIterator::First(iterator) => iterator.is_empty(),
            EitherIterator::Second(iterator) => iterator.is_empty(),
        }
    }
}

} // verus!
