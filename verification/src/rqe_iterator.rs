//! The interface of query iterators.

use vstd::prelude::*;

use crate::index_result::{t_docId, RSIndexResult};

verus! {

/// What can stop an iterator.
#[derive(Debug, PartialEq, Eq)]
pub enum RQEIteratorError {
    /// The deadline of the query has been reached.
    TimedOut,
    /// The index could not be read.
    IoError(String),
}

/// Where a successful `skip_to` has led.
pub enum SkipToOutcome<'a> {
    /// To the very document that was asked for.
    Found(&'a mut RSIndexResult),
    /// To the first document behind the one that was asked for.
    NotFound(&'a mut RSIndexResult),
}

/// What has become of an iterator while the index could change.
pub enum RQEValidateStatus<'a> {
    /// It stands where it stood.
    Valid,
    /// It stands further ahead, on `current` unless it has run out.
    Moved { current: Option<&'a mut RSIndexResult> },
    /// It cannot be used any more.
    Aborted,
}

/// The outcome of a revalidation, without the result that may come with it.
#[derive(Clone, Copy, Debug, PartialEq, Eq, Structural)]
pub enum Revalidation {
    /// The iterator stands where it stood.
    Valid,
    /// It stands on a document further ahead.
    Moved,
    /// It has moved forward and run out.
    MovedToEnd,
    /// It cannot be used any more.
    Aborted,
}

impl Revalidation {
    /// Whether an iterator has run out after this outcome, if before it had `ran_out` or not.
    pub open spec fn leaves_ran_out(self, ran_out: bool) -> bool {
        match self {
            Revalidation::Valid => ran_out,
            Revalidation::Moved => false,
            Revalidation::MovedToEnd => true,
            Revalidation::Aborted => false,
        }
    }
}

/// `doc_id` is the smallest member of `ids`.
pub open spec fn is_first(ids: Set<t_docId>, doc_id: t_docId) -> bool {
    &&& ids.contains(doc_id)
    &&& forall|d: t_docId| #[trigger] ids.contains(d) ==> doc_id <= d
}

/// The members of `ids` from `bound` on.
pub open spec fn from_id(ids: Set<t_docId>, bound: t_docId) -> Set<t_docId> {
    ids.filter(|d: t_docId| d >= bound)
}

/// The members of `ids` behind `bound`.
pub open spec fn after_id(ids: Set<t_docId>, bound: t_docId) -> Set<t_docId> {
    ids.filter(|d: t_docId| d > bound)
}

/// What an iterator is at one moment, as far as its users can tell.
pub struct Cursor {
    /// The documents of the index that it searches.
    pub index: Set<t_docId>,
    /// The documents that it goes through, from one `rewind` to the next.
    pub docs: Set<t_docId>,
    /// The documents that it has still to come to.
    pub pending: Set<t_docId>,
    /// The place where it stands: the id of its last document, or 0 in front of the first.
    /// Once it has run out, this may also be an id behind its last document.
    pub last: t_docId,
    /// It says of itself that nothing is left.
    pub ended: bool,
    /// The result that it stands on, if it has one to show.
    pub shown: Option<RSIndexResult>,
    /// Its next answers go by `pending`. An error ends this, and so may a revalidation.
    pub reliable: bool,
    /// A `rewind` makes it reliable.
    pub sound: bool,
    /// The errors that its operations can give.
    pub faults: Set<RQEIteratorError>,
    /// Its estimate of how many documents it has.
    pub estimate: usize,
    /// It says of itself that it has no document.
    pub known_empty: bool,
    /// It says of itself that it goes through all documents.
    pub matches_all: bool,
}

impl Cursor {
    /// The two go through the same documents and make the same promises.
    pub open spec fn same_source(self, other: Cursor) -> bool {
        &&& self.index =~= other.index
        &&& self.docs =~= other.docs
        &&& self.sound == other.sound
        &&& self.faults =~= other.faults
        &&& self.estimate == other.estimate
        &&& self.known_empty == other.known_empty
        &&& self.matches_all == other.matches_all
    }

    /// The two stand at the same place.
    pub open spec fn same_place(self, other: Cursor) -> bool {
        &&& self.last == other.last
        &&& self.pending =~= other.pending
        &&& self.ended == other.ended
        &&& self.reliable == other.reliable
    }

    /// The iterator has `doc_id` ahead of it, or stands on it.
    ///
    /// Once it has run out, the place where it stands need not be a document of it.
    pub open spec fn claims(self, ran_out: bool, doc_id: t_docId) -> bool {
        self.pending.contains(doc_id) || !ran_out && self.last == doc_id
    }

    /// `next` is this iterator after it has come to its pending document `doc_id`.
    pub open spec fn advanced_to(self, doc_id: t_docId, next: Cursor) -> bool {
        &&& next.reliable
        &&& next.last == doc_id
        &&& next.pending =~= after_id(self.pending, doc_id)
    }

    /// `next` is this iterator after it has run out.
    pub open spec fn ran_out(next: Cursor) -> bool {
        &&& next.reliable
        &&& next.ended
        &&& next.pending =~= Set::<t_docId>::empty()
    }

    /// A reliable iterator has all its pending documents ahead of it,
    /// all of them are documents of it, and none once it has ended.
    pub open spec fn consistent(self) -> bool {
        self.reliable ==> {
            &&& self.pending.subset_of(self.docs)
            &&& forall|d: t_docId| #[trigger] self.pending.contains(d) ==> d > self.last
            &&& self.ended ==> self.pending =~= Set::<t_docId>::empty()
        }
    }
}

/// An iterator over documents in increasing order of their ids.
pub trait RQEIterator {
    /// What the iterator is at this moment.
    spec fn view(&self) -> Cursor;

    /// A revalidation can have this outcome, and leave the iterator as `next`.
    spec fn revalidates_to(&self, outcome: Revalidation, next: Cursor) -> bool;

    /// An iterator is consistent at every moment. One that says that it has no document has none,
    /// and one that says that it goes through all documents lacks none of the index.
    proof fn lemma_consistent(&self)
        ensures
            self.view().consistent(),
            self.view().known_empty ==> self.view().docs =~= Set::<t_docId>::empty(),
            self.view().matches_all ==> self.view().index.subset_of(self.view().docs),
    ;

    /// The result that the last `read` or `skip_to` has led to.
    ///
    /// Callers may change the result; as long as they leave its document id alone,
    /// the iterator stays at its place.
    fn current(&mut self) -> (r: Option<&mut RSIndexResult>)
        ensures
            old(self)@.same_source(final(self)@),
            r is Some <==> old(self)@.shown is Some,
            r is None ==> old(self)@.same_place(final(self)@) && final(self)@.shown is None,
            r matches Some(result) ==> {
                &&& old(self)@.shown == Some(*result)
                &&& final(self)@.shown == Some(*final(result))
                &&& final(result).doc_id == result.doc_id ==> old(self)@.same_place(final(self)@)
            },
    ;

    /// Goes on to the next document.
    ///
    /// Returns `None` when there is none left.
    fn read(&mut self) -> (r: Result<Option<&mut RSIndexResult>, RQEIteratorError>)
        ensures
            old(self)@.same_source(final(self)@),
            r matches Err(error) ==> old(self)@.faults.contains(error),
            r matches Ok(Some(result)) ==> {
                &&& old(self)@.last < result.doc_id
                &&& final(self)@.shown == Some(*final(result))
                &&& final(result).doc_id == result.doc_id ==> final(self)@.last == result.doc_id
            },
            old(self)@.reliable ==> match r {
                Ok(Some(result)) => {
                    &&& is_first(old(self)@.pending, result.doc_id)
                    &&& final(result).doc_id == result.doc_id ==> old(self)@.advanced_to(
                        result.doc_id,
                        final(self)@,
                    )
                },
                Ok(None) => {
                    &&& old(self)@.pending =~= Set::<t_docId>::empty()
                    &&& Cursor::ran_out(final(self)@)
                },
                Err(_) => true,
            },
    ;

    /// Goes on to `doc_id`, or to the next document behind it if `doc_id` is none.
    ///
    /// `doc_id` has to lie ahead. Returns `None` when no document is left from there on.
    fn skip_to(&mut self, doc_id: t_docId) -> (r: Result<
        Option<SkipToOutcome<'_>>,
        RQEIteratorError,
    >)
        requires
            old(self)@.last < doc_id,
        ensures
            old(self)@.same_source(final(self)@),
            r matches Err(error) ==> old(self)@.faults.contains(error),
            r matches Ok(Some(SkipToOutcome::Found(result))) ==> final(self)@.shown == Some(
                *final(result),
            ),
            r matches Ok(Some(SkipToOutcome::NotFound(result))) ==> final(self)@.shown == Some(
                *final(result),
            ),
            old(self)@.reliable ==> match r {
                Ok(Some(SkipToOutcome::Found(result))) => {
                    &&& result.doc_id == doc_id
                    &&& old(self)@.pending.contains(doc_id)
                    &&& final(result).doc_id == doc_id ==> old(self)@.advanced_to(
                        doc_id,
                        final(self)@,
                    )
                },
                Ok(Some(SkipToOutcome::NotFound(result))) => {
                    &&& !old(self)@.pending.contains(doc_id)
                    &&& is_first(from_id(old(self)@.pending, doc_id), result.doc_id)
                    &&& final(result).doc_id == result.doc_id ==> old(self)@.advanced_to(
                        result.doc_id,
                        final(self)@,
                    )
                },
                Ok(None) => {
                    &&& from_id(old(self)@.pending, doc_id) =~= Set::<t_docId>::empty()
                    &&& Cursor::ran_out(final(self)@)
                },
                Err(_) => true,
            },
    ;

    /// Takes note of what has happened to the index.
    ///
    /// An iterator never moves backward here.
    fn revalidate(&mut self) -> (r: Result<RQEValidateStatus<'_>, RQEIteratorError>)
        ensures
            r matches Err(error) ==> old(self)@.faults.contains(error),
            final(self)@.faults.subset_of(old(self)@.faults),
            r matches Ok(RQEValidateStatus::Valid) ==> {
                &&& old(self).revalidates_to(Revalidation::Valid, final(self)@)
                &&& final(self)@.last == old(self)@.last
            },
            r matches Ok(RQEValidateStatus::Moved { current: None }) ==> {
                &&& old(self).revalidates_to(Revalidation::MovedToEnd, final(self)@)
                &&& final(self)@.last >= old(self)@.last
            },
            r matches Ok(RQEValidateStatus::Moved { current: Some(result) }) ==> {
                *final(result) == *result ==> {
                    &&& old(self).revalidates_to(Revalidation::Moved, final(self)@)
                    &&& final(self)@.last >= old(self)@.last
                }
            },
            r matches Ok(RQEValidateStatus::Aborted) ==> old(self).revalidates_to(
                Revalidation::Aborted,
                final(self)@,
            ),
    ;

    /// Goes back in front of the first document.
    fn rewind(&mut self)
        ensures
            old(self)@.same_source(final(self)@),
            final(self)@.last == 0,
            old(self)@.sound ==> {
                &&& final(self)@.reliable
                &&& final(self)@.pending =~= final(self)@.docs
            },
    ;

    /// An estimate of how many documents the iterator has.
    fn num_estimated(&self) -> (r: usize)
        ensures
            r == self@.estimate,
    ;

    /// The id of the document that the iterator stands on, or 0 in front of the first.
    fn last_doc_id(&self) -> (r: t_docId)
        ensures
            r == self@.last,
    ;

    /// Whether nothing is left to read.
    fn at_eof(&self) -> (r: bool)
        ensures
            r == self@.ended,
    ;

    /// Whether the iterator is known to go through all documents.
    fn is_wildcard(&self) -> (r: bool)
        ensures
            r == self@.matches_all,
    ;

    /// Whether the iterator is known to have no document.
    fn is_empty(&self) -> (r: bool)
        ensures
            r == self@.known_empty,
    ;
}

/// An iterator that goes through all documents of the index.
pub trait WildcardIterator: RQEIterator {

}

} // verus!
