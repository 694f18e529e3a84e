//! Iterators behind a pointer.

use vstd::prelude::*;

use crate::index_result::{t_docId, RSIndexResult};
use crate::rqe_iterator::{
    Cursor, RQEIterator, RQEIteratorError, RQEValidateStatus, Revalidation, SkipToOutcome,
};

verus! {

impl<I: RQEIterator + ?Sized> RQEIterator for Box<I> {
    open spec fn view(&self) -> Cursor {
        RQEIterator::view(&**self)
    }

    open spec fn revalidates_to(&self, outcome: Revalidation, next: Cursor) -> bool {
        (**self).revalidates_to(outcome, next)
    }

    proof fn lemma_consistent(&self) {
        (**self).lemma_consistent();
    }

    fn current(&mut self) -> (r: Option<&mut RSIndexResult>) {
        (**self).current()
    }

    fn read(&mut self) -> (r: Result<Option<&mut RSIndexResult>, RQEIteratorError>) {
        (**self).read()
    }

    fn skip_to(&mut self, doc_id: t_docId) -> (r: Result<
        Option<SkipToOutcome<'_>>,
        RQEIteratorError,
    >) {
        (**self).skip_to(doc_id)
    }

    fn revalidate(&mut self) -> (r: Result<RQEValidateStatus<'_>, RQEIteratorError>) {
        (**self).revalidate()
    }

    fn rewind(&mut self) {
        (**self).rewind();
    }

    fn num_estimated(&self) -> (r: usize) {
        (**self).num_estimated()
    }

    fn last_doc_id(&self) -> (r: t_docId) {
        (**self).last_doc_id()
    }

    fn at_eof(&self) -> (r: bool) {
        (**self).at_eof()
    }

    fn is_wildcard(&self) -> (r: bool) {
        (**self).is_wildcard()
    }

    fn is_empty(&self) -> (r: bool) {
        (**self).is_empty()
    }
}

} // verus!
