use std::cell::Cell;

use rqe_iterators::index_result::{IteratorType, RSIndexResult, Weight};
use rqe_iterators::iterators_ffi::{
    GetOptionalOptimizedIteratorChild, NewOptionalOptimizedIterator, OpaqueWildcardIterator,
    SetOptionalOptimizedIteratorChild, TakeOptionalOptimizedIteratorChild,
};
use rqe_iterators::rqe_iterator::{
    Cursor, RQEIterator, RQEIteratorError, RQEValidateStatus, Revalidation, SkipToOutcome,
};

/// An iterator over a sorted list of ids.
#[derive(Clone, Debug, PartialEq)]
struct Ids {
    ids: Vec<u64>,
    next: usize,
    ended: bool,
    result: RSIndexResult,
    wildcard: bool,
    empty: bool,
    aborts: bool,
}

impl Ids {
    fn new(ids: &[u64]) -> Ids {
        Ids {
            ids: ids.to_vec(),
            next: 0,
            ended: false,
            result: RSIndexResult { doc_id: 0, freq: 1, field_mask: 3, weight: Weight { bits: 7 } },
            wildcard: false,
            empty: false,
            aborts: false,
        }
    }
}

impl RQEIterator for Ids {
    fn view(&self) -> Cursor {
        unreachable!("ghost code")
    }

    fn revalidates_to(&self, _outcome: Revalidation, _next: Cursor) -> bool {
        unreachable!("ghost code")
    }

    fn lemma_consistent(&self) {}

    fn current(&mut self) -> Option<&mut RSIndexResult> {
        Some(&mut self.result)
    }

    fn read(&mut self) -> Result<Option<&mut RSIndexResult>, RQEIteratorError> {
        if self.ended || self.next >= self.ids.len() {
            self.ended = true;
            return Ok(None);
        }
        self.result.doc_id = self.ids[self.next];
        self.next += 1;
        Ok(Some(&mut self.result))
    }

    fn skip_to(&mut self, doc_id: u64) -> Result<Option<SkipToOutcome<'_>>, RQEIteratorError> {
        while self.next < self.ids.len() && self.ids[self.next] < doc_id {
            self.next += 1;
        }
        if self.read()?.is_none() {
            return Ok(None);
        }
        if self.result.doc_id == doc_id {
            Ok(Some(SkipToOutcome::Found(&mut self.result)))
        } else {
            Ok(Some(SkipToOutcome::NotFound(&mut self.result)))
        }
    }

    fn revalidate(&mut self) -> Result<RQEValidateStatus<'_>, RQEIteratorError> {
        if self.aborts {
            Ok(RQEValidateStatus::Aborted)
        } else {
            Ok(RQEValidateStatus::Valid)
        }
    }

    fn rewind(&mut self) {
        self.next = 0;
        self.ended = false;
        self.result.doc_id = 0;
    }

    fn num_estimated(&self) -> usize {
        self.ids.len()
    }

    fn last_doc_id(&self) -> u64 {
        self.result.doc_id
    }

    fn at_eof(&self) -> bool {
        self.ended || self.next >= self.ids.len()
    }

    fn is_wildcard(&self) -> bool {
        self.wildcard
    }

    fn is_empty(&self) -> bool {
        self.empty
    }
}

fn drain<I: RQEIterator>(iterator: &mut I) -> Vec<u64> {
    let mut all = Vec::new();
    while let Some(result) = iterator.read().unwrap() {
        all.push(result.doc_id);
    }
    all
}

fn skip<I: RQEIterator>(iterator: &mut I, doc_id: u64) -> Option<(bool, u64)> {
    match iterator.skip_to(doc_id).unwrap() {
        Some(SkipToOutcome::Found(result)) => Some((true, result.doc_id)),
        Some(SkipToOutcome::NotFound(result)) => Some((false, result.doc_id)),
        None => None,
    }
}

#[test]
fn optional_iterator_is_made_with_its_tag_and_child() {
    let asked: Cell<Option<(u32, Weight)>> = Cell::new(None);
    let make = |sctx: u32, weight: Weight| {
        asked.set(Some((sctx, weight)));
        Some(Ids::new(&[1, 2, 3]))
    };
    let weight = Weight { bits: 3.0f64.to_bits() };
    let iterator = NewOptionalOptimizedIterator(9, Some(Ids::new(&[2])), 3, weight, make);
    assert_eq!(asked.get(), Some((9, Weight { bits: 0.0f64.to_bits() })));
    assert_eq!(iterator.type_, IteratorType::OptionalOptimized);
    assert_eq!(GetOptionalOptimizedIteratorChild(&iterator), Some(&Ids::new(&[2])));
}

#[test]
fn child_of_an_optional_iterator_is_taken_and_set() {
    let make = |_sctx: u32, _weight: Weight| Some(Ids::new(&[1, 2, 3]));
    let mut iterator =
        NewOptionalOptimizedIterator(0, Some(Ids::new(&[2])), 3, Weight::zero(), make);
    assert_eq!(TakeOptionalOptimizedIteratorChild(&mut iterator), Some(Ids::new(&[2])));
    assert_eq!(GetOptionalOptimizedIteratorChild(&iterator), None);
    assert_eq!(TakeOptionalOptimizedIteratorChild(&mut iterator), None);
    SetOptionalOptimizedIteratorChild(&mut iterator, Some(Ids::new(&[3])));
    assert_eq!(GetOptionalOptimizedIteratorChild(&iterator), Some(&Ids::new(&[3])));
    SetOptionalOptimizedIteratorChild(&mut iterator, Some(Ids::new(&[1])));
    assert_eq!(GetOptionalOptimizedIteratorChild(&iterator), Some(&Ids::new(&[1])));
    assert_eq!(iterator.type_, IteratorType::OptionalOptimized);
}

#[test]
fn opaque_wildcard_hands_everything_on() {
    let mut inner = Ids::new(&[2, 4, 8]);
    inner.wildcard = true;
    inner.empty = true;
    let mut opaque = OpaqueWildcardIterator(inner);
    assert!(opaque.is_wildcard());
    assert!(!opaque.is_empty());
    assert_eq!(opaque.num_estimated(), 3);
    assert_eq!(opaque.last_doc_id(), 0);
    assert!(!opaque.at_eof());
    assert_eq!(skip(&mut opaque, 3), Some((false, 4)));
    assert_eq!(opaque.current().unwrap().doc_id, 4);
    assert!(matches!(opaque.revalidate(), Ok(RQEValidateStatus::Valid)));
    assert_eq!(drain(&mut opaque), vec![8]);
    assert!(opaque.at_eof());
    opaque.rewind();
    assert_eq!(drain(&mut opaque), vec![2, 4, 8]);
}
