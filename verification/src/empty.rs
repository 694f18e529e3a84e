//! The iterator without documents.

use vstd::prelude::*;

use crate::index_result::{t_docId, RSIndexResult};
use crate::rqe_iterator::{
    Cursor, RQEIterator, RQEIteratorError, RQEValidateStatus, Revalidation, SkipToOutcome,
};

verus! {

/// An iterator that has no document.
pub struct Empty;

/// What an iterator without documents is at every moment.
pub open spec fn empty_cursor() -> Cursor {
    Cursor {
        index: Set::empty(),
        docs: Set::empty(),
        pending: Set::empty(),
        last: 0,
        ended: true,
        shown: None,
        reliable: true,
        sound: true,
        faults: Set::empty(),
        estimate: 0,
        known_empty: true,
        matches_all: false,
    }
}

impl RQEIterator for Empty {
    open spec fn view(&self) -> Cursor {
        empty_cursor()
    }

    open spec fn revalidates_to(&self, outcome: Revalidation, next: Cursor) -> bool {
        outcome == Revalidation::Valid && next == empty_cursor()
    }

    proof fn lemma_consistent(&self) {
    }

    fn current(&mut self) -> (r: Option<&mut RSIndexResult>) {
        None
    }

    fn read(&mut self) -> (r: Result<Option<&mut RSIndexResult>, RQEIteratorError>)
        ensures
            r matches Ok(None),
    {
        Ok(None)
    }

    fn skip_to(&mut self, doc_id: t_docId) -> (r: Result<
        Option<SkipToOutcome<'_>>,
        RQEIteratorError,
    >)
        ensures
            r matches Ok(None),
    {
        Ok(None)
    }

    fn revalidate(&mut self) -> (r: Result<RQEValidateStatus<'_>, RQEIteratorError>)
        ensures
            r matches Ok(RQEValidateStatus::Valid),
    {
        Ok(RQEValidateStatus::Valid)
    }

    fn rewind(&mut self) {
    }

    fn num_estimated(&self) -> (r: usize) {
        0
    }

    fn last_doc_id(&self) -> (r: t_docId) {
        0
    }

    fn at_eof(&self) -> (r: bool) {
        true
    }

    fn is_wildcard(&self) -> (r: bool) {
        false
    }

    fn is_empty(&self) -> (r: bool) {
        true
    }
}

} // verus!
