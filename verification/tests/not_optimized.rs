use rqe_iterators::index_result::{RSIndexResult, Weight, RS_FIELDMASK_ALL};
use rqe_iterators::not::Not;
use rqe_iterators::not_optimized::NotOptimized;
use rqe_iterators::rqe_iterator::{
    Cursor, RQEIterator, RQEIteratorError, RQEValidateStatus, Revalidation, SkipToOutcome,
};

/// An iterator over a sorted list of ids.
#[derive(Clone, Debug, PartialEq)]
struct Ids {
    ids: Vec<u64>,
    next: usize,
    ended: bool,
    result: RSIndexResult,
    wildcard: bool,
    empty: bool,
    aborts: bool,
}

impl Ids {
    fn new(ids: &[u64]) -> Ids {
        Ids {
            ids: ids.to_vec(),
            next: 0,
            ended: false,
            result: RSIndexResult { doc_id: 0, freq: 1, field_mask: 3, weight: Weight { bits: 7 } },
            wildcard: false,
            empty: false,
            aborts: false,
        }
    }
}

impl RQEIterator for Ids {
    fn view(&self) -> Cursor {
        unreachable!("ghost code")
    }

    fn revalidates_to(&self, _outcome: Revalidation, _next: Cursor) -> bool {
        unreachable!("ghost code")
    }

    fn lemma_consistent(&self) {}

    fn current(&mut self) -> Option<&mut RSIndexResult> {
        Some(&mut self.result)
    }

    fn read(&mut self) -> Result<Option<&mut RSIndexResult>, RQEIteratorError> {
        if self.ended || self.next >= self.ids.len() {
            self.ended = true;
            return Ok(None);
        }
        self.result.doc_id = self.ids[self.next];
        self.next += 1;
        Ok(Some(&mut self.result))
    }

    fn skip_to(&mut self, doc_id: u64) -> Result<Option<SkipToOutcome<'_>>, RQEIteratorError> {
        while self.next < self.ids.len() && self.ids[self.next] < doc_id {
            self.next += 1;
        }
        if self.read()?.is_none() {
            return Ok(None);
        }
        if self.result.doc_id == doc_id {
            Ok(Some(SkipToOutcome::Found(&mut self.result)))
        } else {
            Ok(Some(SkipToOutcome::NotFound(&mut self.result)))
        }
    }

    fn revalidate(&mut self) -> Result<RQEValidateStatus<'_>, RQEIteratorError> {
        if self.aborts {
            Ok(RQEValidateStatus::Aborted)
        } else {
            Ok(RQEValidateStatus::Valid)
        }
    }

    fn rewind(&mut self) {
        self.next = 0;
        self.ended = false;
        self.result.doc_id = 0;
    }

    fn num_estimated(&self) -> usize {
        self.ids.len()
    }

    fn last_doc_id(&self) -> u64 {
        self.result.doc_id
    }

    fn at_eof(&self) -> bool {
        self.ended || self.next >= self.ids.len()
    }

    fn is_wildcard(&self) -> bool {
        self.wildcard
    }

    fn is_empty(&self) -> bool {
        self.empty
    }
}

fn drain<I: RQEIterator>(iterator: &mut I) -> Vec<u64> {
    let mut all = Vec::new();
    while let Some(result) = iterator.read().unwrap() {
        all.push(result.doc_id);
    }
    all
}

fn skip<I: RQEIterator>(iterator: &mut I, doc_id: u64) -> Option<(bool, u64)> {
    match iterator.skip_to(doc_id).unwrap() {
        Some(SkipToOutcome::Found(result)) => Some((true, result.doc_id)),
        Some(SkipToOutcome::NotFound(result)) => Some((false, result.doc_id)),
        None => None,
    }
}

fn negate(existing: &[u64], ids: &[u64], max_doc_id: u64) -> NotOptimized<Ids, Ids> {
    let weight = Weight { bits: 2.5f64.to_bits() };
    NotOptimized::new(Ids::new(existing), Ids::new(ids), max_doc_id, weight, 0, true)
}

#[test]
fn optimized_negation_yields_existing_documents_that_the_child_lacks() {
    let mut not = negate(&[1, 2, 4, 6, 8, 11], &[2, 3, 6], 10);
    assert_eq!(not.num_estimated(), 6);
    assert_eq!(drain(&mut not), vec![1, 4, 8]);
    assert!(not.at_eof());
    assert_eq!(not.last_doc_id(), 8);
    not.rewind();
    assert_eq!(drain(&mut not), vec![1, 4, 8]);
}

#[test]
fn optimized_negation_hands_out_virtual_results() {
    let mut not = negate(&[5], &[], 10);
    let expected = RSIndexResult {
        doc_id: 5,
        freq: 0,
        field_mask: RS_FIELDMASK_ALL,
        weight: Weight { bits: 2.5f64.to_bits() },
    };
    assert_eq!(*not.read().unwrap().unwrap(), expected);
    assert_eq!(*not.current().unwrap(), expected);
}

#[test]
fn optimized_negation_skips_like_it_reads() {
    let existing = [1, 2, 4, 6, 8, 9, 12, 14];
    let ids = [2, 6, 7, 8];
    for doc_id in 1..=15 {
        let mut by_skip = negate(&existing, &ids, 12);
        let mut by_read = negate(&existing, &ids, 12);
        let skipped = skip(&mut by_skip, doc_id);
        let mut read = None;
        while let Some(result) = by_read.read().unwrap() {
            if result.doc_id >= doc_id {
                read = Some((result.doc_id == doc_id, result.doc_id));
                break;
            }
        }
        assert_eq!(skipped, read);
        assert_eq!(drain(&mut by_skip), drain(&mut by_read));
    }
}

#[test]
fn optimized_negation_over_no_documents_is_empty() {
    assert_eq!(drain(&mut negate(&[], &[1], 10)), Vec::<u64>::new());
    assert_eq!(drain(&mut negate(&[3], &[], 2)), Vec::<u64>::new());
    assert_eq!(skip(&mut negate(&[], &[1], 10), 4), None);
}

#[test]
fn optimized_negation_keeps_to_its_deadline() {
    let existing: Vec<u64> = (1..=6_000).collect();
    let weight = Weight::zero();
    let mut not =
        NotOptimized::new(Ids::new(&existing), Ids::new(&existing), 10_000, weight, 0, false);
    assert_eq!(not.read().err(), Some(RQEIteratorError::TimedOut));
    assert!(!not.at_eof());
    // A rewind does not lift the deadline.
    not.rewind();
    assert_eq!(not.read().err(), Some(RQEIteratorError::TimedOut));
}

#[test]
fn place_where_the_child_of_an_optimized_negation_ran_out_does_not_matter() {
    // The child has only the document 1. Asked for more, it runs out and stands on 4.
    let only_one = || Not::new(Ids::new(&[2, 3, 4]), 4, Weight::zero(), 0, true);
    let existing = Ids::new(&[1, 2, 3, 4, 5, 6]);
    let mut not = NotOptimized::new(existing.clone(), only_one(), 6, Weight::zero(), 0, true);
    assert_eq!(drain(&mut not), vec![2, 3, 4, 5, 6]);
    let mut not = NotOptimized::new(existing, only_one(), 6, Weight::zero(), 0, true);
    assert_eq!(skip(&mut not, 2), Some((true, 2)));
    assert_eq!(skip(&mut not, 4), Some((true, 4)));
    not.rewind();
    assert_eq!(drain(&mut not), vec![2, 3, 4, 5, 6]);
}

#[test]
fn optimized_negation_is_aborted_with_its_wildcard_only() {
    let mut not = negate(&[1, 2, 3], &[2], 3);
    assert!(matches!(not.revalidate(), Ok(RQEValidateStatus::Valid)));
    let mut child = Ids::new(&[2]);
    child.aborts = true;
    not.set_child(child);
    assert!(matches!(not.revalidate(), Ok(RQEValidateStatus::Valid)));
    assert!(not.child().is_none());
    assert_eq!(drain(&mut not), vec![1, 2, 3]);

    let mut wildcard = Ids::new(&[1]);
    wildcard.aborts = true;
    let mut not = NotOptimized::new(wildcard, Ids::new(&[]), 3, Weight::zero(), 0, true);
    assert!(matches!(not.revalidate(), Ok(RQEValidateStatus::Aborted)));
}

#[test]
fn result_of_an_optimized_negation_starts_the_count_of_checks_anew() {
    let existing: Vec<u64> = (1..=8_001).collect();
    let ids: Vec<u64> = (1..=8_000).filter(|id| *id != 4_001).collect();
    let mut not =
        NotOptimized::new(Ids::new(&existing), Ids::new(&ids), 10_000, Weight::zero(), 0, false);
    assert_eq!(not.read().unwrap().unwrap().doc_id, 4_001);
    assert_eq!(not.read().unwrap().unwrap().doc_id, 8_001);
}

#[test]
fn deadline_above_zero_stops_an_optimized_negation_once_it_has_passed() {
    let existing: Vec<u64> = (1..=20_000).filter(|id| id % 2 == 0).collect();
    let child = Ids::new(&existing[..6_000]);
    let mut not =
        NotOptimized::new(Ids::new(&existing), child.clone(), 20_000, Weight::zero(), 1, false);
    assert_eq!(not.read().err(), Some(RQEIteratorError::TimedOut));
    not.rewind();
    assert_eq!(not.skip_to(3).err(), Some(RQEIteratorError::TimedOut));

    // Documents that do not exist lead to no check.
    let mut not =
        NotOptimized::new(Ids::new(&existing[..4_000]), child, 20_000, Weight::zero(), 1, false);
    assert!(not.read().unwrap().is_none());
}

#[test]
fn every_skip_of_an_optimized_negation_counts_as_a_check() {
    let existing: Vec<u64> = (1..=6_000).collect();
    let mut not =
        NotOptimized::new(Ids::new(&existing), Ids::new(&[]), 10_000, Weight::zero(), 1, false);
    for doc_id in 1..=4_999 {
        assert_eq!(skip(&mut not, doc_id), Some((true, doc_id)));
    }
    assert_eq!(not.skip_to(5_000).err(), Some(RQEIteratorError::TimedOut));
}
