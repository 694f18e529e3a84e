use rqe_iterators::empty::Empty;
use rqe_iterators::index_result::{RSIndexResult, Weight, RS_FIELDMASK_ALL};
use rqe_iterators::not::{Not, TIMEOUT_GRANULARITY};
use rqe_iterators::rqe_iterator::{
    Cursor, RQEIterator, RQEIteratorError, RQEValidateStatus, Revalidation, SkipToOutcome,
};

/// What the next revalidation of an `Ids` reports.
#[derive(Clone, Debug, PartialEq)]
enum Next {
    Valid,
    Moved,
    Aborted,
    Fails,
}

/// An iterator over a sorted list of ids.
#[derive(Clone, Debug, PartialEq)]
struct Ids {
    ids: Vec<u64>,
    next: usize,
    ended: bool,
    result: RSIndexResult,
    fail_on: Option<u64>,
    revalidation: Next,
}

impl Ids {
    fn new(ids: &[u64]) -> Ids {
        Ids {
            ids: ids.to_vec(),
            next: 0,
            ended: false,
            result: RSIndexResult::virt(Weight { bits: 7 }, 1),
            fail_on: None,
            revalidation: Next::Valid,
        }
    }
}

impl RQEIterator for Ids {
    fn view(&self) -> Cursor {
        unreachable!("ghost code")
    }

    fn revalidates_to(&self, _outcome: Revalidation, _next: Cursor) -> bool {
        unreachable!("ghost code")
    }

    fn lemma_consistent(&self) {}

    fn current(&mut self) -> Option<&mut RSIndexResult> {
        if self.ended {
            None
        } else {
            Some(&mut self.result)
        }
    }

    fn read(&mut self) -> Result<Option<&mut RSIndexResult>, RQEIteratorError> {
        if self.ended || self.next >= self.ids.len() {
            self.ended = true;
            return Ok(None);
        }
        let id = self.ids[self.next];
        if self.fail_on == Some(id) {
            return Err(RQEIteratorError::IoError(String::from("unreadable")));
        }
        self.next += 1;
        self.result.doc_id = id;
        Ok(Some(&mut self.result))
    }

    fn skip_to(&mut self, doc_id: u64) -> Result<Option<SkipToOutcome<'_>>, RQEIteratorError> {
        while self.next < self.ids.len() && self.ids[self.next] < doc_id {
            self.next += 1;
        }
        if self.read()?.is_none() {
            return Ok(None);
        }
        if self.result.doc_id == doc_id {
            Ok(Some(SkipToOutcome::Found(&mut self.result)))
        } else {
            Ok(Some(SkipToOutcome::NotFound(&mut self.result)))
        }
    }

    fn revalidate(&mut self) -> Result<RQEValidateStatus<'_>, RQEIteratorError> {
        match self.revalidation {
            Next::Valid => Ok(RQEValidateStatus::Valid),
            Next::Moved => {
                let moved = self.read()?.is_some();
                if moved {
                    Ok(RQEValidateStatus::Moved { current: Some(&mut self.result) })
                } else {
                    Ok(RQEValidateStatus::Moved { current: None })
                }
            }
            Next::Aborted => Ok(RQEValidateStatus::Aborted),
            Next::Fails => Err(RQEIteratorError::IoError(String::from("gone"))),
        }
    }

    fn rewind(&mut self) {
        self.next = 0;
        self.ended = false;
        self.result.doc_id = 0;
    }

    fn num_estimated(&self) -> usize {
        self.ids.len()
    }

    fn last_doc_id(&self) -> u64 {
        self.result.doc_id
    }

    fn at_eof(&self) -> bool {
        self.ended || self.next >= self.ids.len()
    }

    fn is_wildcard(&self) -> bool {
        false
    }

    fn is_empty(&self) -> bool {
        false
    }
}

const HOUR: u128 = 3_600_000_000_000;

fn weight(value: f64) -> Weight {
    Weight { bits: value.to_bits() }
}

fn negate(ids: &[u64], max_doc_id: u64) -> Not<Ids> {
    Not::new(Ids::new(ids), max_doc_id, weight(1.5), 0, true)
}

fn drain<I: RQEIterator>(iterator: &mut I) -> Vec<u64> {
    let mut all = Vec::new();
    while let Some(result) = iterator.read().unwrap() {
        all.push(result.doc_id);
    }
    all
}

fn skip<I: RQEIterator>(iterator: &mut I, doc_id: u64) -> Option<(bool, u64)> {
    match iterator.skip_to(doc_id).unwrap() {
        Some(SkipToOutcome::Found(result)) => Some((true, result.doc_id)),
        Some(SkipToOutcome::NotFound(result)) => Some((false, result.doc_id)),
        None => None,
    }
}

fn range(from: u64, to: u64) -> Vec<u64> {
    (from..=to).collect()
}

#[test]
fn negation_yields_the_ids_that_the_child_lacks() {
    let mut not = negate(&[2, 3, 7], 10);
    assert_eq!(drain(&mut not), vec![1, 4, 5, 6, 8, 9, 10]);
    assert!(not.at_eof());
    assert_eq!(not.last_doc_id(), 10);
    assert!(not.read().unwrap().is_none());
}

#[test]
fn negation_of_a_child_without_documents_yields_all_ids() {
    assert_eq!(drain(&mut negate(&[], 4)), vec![1, 2, 3, 4]);
    let mut not = Not::new(Empty, 4, weight(1.0), 0, true);
    assert_eq!(drain(&mut not), vec![1, 2, 3, 4]);
}

#[test]
fn negation_of_a_child_with_all_documents_yields_none() {
    let mut not = negate(&[1, 2, 3], 3);
    assert!(!not.at_eof());
    assert!(not.read().unwrap().is_none());
    assert!(not.at_eof());
    assert_eq!(not.last_doc_id(), 3);
}

#[test]
fn documents_of_the_child_beyond_the_maximum_do_not_matter() {
    assert_eq!(drain(&mut negate(&[2, 50, 60], 4)), vec![1, 3, 4]);
}

#[test]
fn negation_up_to_zero_is_at_its_end_at_once() {
    let mut not = negate(&[1], 0);
    assert!(not.at_eof());
    assert!(not.read().unwrap().is_none());
    assert_eq!(skip(&mut not, 1), None);
    assert_eq!(not.last_doc_id(), 0);
}

#[test]
fn negation_up_to_the_largest_id_does_not_overflow() {
    let mut not = negate(&[u64::MAX - 1, u64::MAX], u64::MAX);
    assert_eq!(skip(&mut not, u64::MAX - 2), Some((true, u64::MAX - 2)));
    assert!(not.read().unwrap().is_none());
    assert_eq!(not.last_doc_id(), u64::MAX);
    assert!(not.read().unwrap().is_none());
}

#[test]
fn results_are_virtual_and_carry_the_weight() {
    let mut not = negate(&[1], 3);
    let expected =
        RSIndexResult { doc_id: 2, freq: 0, field_mask: RS_FIELDMASK_ALL, weight: weight(1.5) };
    assert_eq!(*not.read().unwrap().unwrap(), expected);
    assert_eq!(*not.current().unwrap(), expected);
    assert_eq!(RS_FIELDMASK_ALL, u128::MAX);
    assert_eq!(f64::from_bits(Weight::zero().bits), 0.0);
}

#[test]
fn current_shows_the_result_before_the_first_read() {
    let mut not = negate(&[1], 3);
    assert_eq!(not.current().unwrap().doc_id, 0);
    not.current().unwrap().freq = 9;
    assert_eq!(not.read().unwrap().unwrap().freq, 9);
    assert_eq!(not.last_doc_id(), 2);
}

#[test]
fn estimate_is_the_maximum() {
    assert_eq!(negate(&[1, 2], 42).num_estimated(), 42);
    assert!(!negate(&[], 1).is_empty());
    assert!(!negate(&[], 1).is_wildcard());
}

#[test]
fn skip_finds_an_id_that_the_child_lacks() {
    let mut not = negate(&[2, 3, 7], 10);
    // The child is behind and does not have the id.
    assert_eq!(skip(&mut not, 5), Some((true, 5)));
    // The child is ahead.
    assert_eq!(skip(&mut not, 6), Some((true, 6)));
    // The child has run out.
    assert_eq!(skip(&mut not, 9), Some((true, 9)));
    assert_eq!(skip(&mut not, 10), Some((true, 10)));
    assert_eq!(skip(&mut not, 11), None);
}

#[test]
fn skip_passes_over_ids_that_the_child_has() {
    let mut not = negate(&[2, 3, 7], 10);
    // The child is behind and has the id.
    assert_eq!(skip(&mut not, 2), Some((false, 4)));
    // The child already stands on the id.
    assert_eq!(skip(&mut not, 7), Some((false, 8)));
}

#[test]
fn skip_runs_out_where_the_child_has_all_that_is_left() {
    let mut not = negate(&[8, 9, 10], 10);
    assert_eq!(skip(&mut not, 9), None);
    assert!(not.at_eof());
    assert_eq!(not.last_doc_id(), 10);
}

#[test]
fn skip_does_not_go_beyond_the_maximum() {
    let mut not = negate(&[2], 10);
    assert_eq!(skip(&mut not, 20), None);
    assert_eq!(not.last_doc_id(), 10);
    assert!(not.at_eof());
    assert_eq!(skip(&mut not, 21), None);
    assert_eq!(not.child().unwrap().last_doc_id(), 0);
}

#[test]
fn skip_leads_to_where_reading_on_leads() {
    let ids = [1, 2, 5, 6, 7, 11, 12];
    for doc_id in 1..=12 {
        let mut by_skip = negate(&ids, 12);
        let mut by_read = negate(&ids, 12);
        let skipped = skip(&mut by_skip, doc_id);
        let mut read = None;
        while let Some(result) = by_read.read().unwrap() {
            if result.doc_id >= doc_id {
                read = Some((result.doc_id == doc_id, result.doc_id));
                break;
            }
        }
        assert_eq!(skipped, read);
        assert_eq!(drain(&mut by_skip), drain(&mut by_read));
    }
}

#[test]
fn child_stays_ahead_of_the_negation() {
    let mut not = negate(&[2, 3, 7], 10);
    while not.read().unwrap().is_some() {
        let child = not.child().unwrap();
        assert!(child.at_eof() || child.last_doc_id() > not.last_doc_id());
    }
}

#[test]
fn rewind_starts_all_over() {
    let mut not = negate(&[2, 3], 5);
    let first = drain(&mut not);
    not.rewind();
    assert_eq!(not.last_doc_id(), 0);
    assert!(!not.at_eof());
    assert_eq!(drain(&mut not), first);
    not.rewind();
    assert_eq!(skip(&mut not, 3), Some((false, 4)));
}

#[test]
fn child_can_be_replaced_and_taken() {
    let mut not = negate(&[1], 3);
    assert_eq!(not.child().unwrap().ids, vec![1]);
    not.set_child(Ids::new(&[2]));
    assert_eq!(not.child().unwrap().ids, vec![2]);
    assert_eq!(not.take_child().unwrap().ids, vec![2]);
    assert!(not.child().is_none());
    assert!(not.take_child().is_none());
    assert_eq!(drain(&mut not), vec![1, 2, 3]);
    not.set_child(Ids::new(&[1, 3]));
    not.rewind();
    assert_eq!(drain(&mut not), vec![2]);
    not.unset_child();
    assert!(not.child().is_none());
    not.rewind();
    assert_eq!(drain(&mut not), vec![1, 2, 3]);
}

#[test]
fn new_child_that_lags_behind_is_read_once_for_each_id() {
    let mut not = negate(&[], 10);
    assert_eq!(skip(&mut not, 5), Some((true, 5)));
    // 6 meets 2, 7 meets 3, and only then the child is up with the negation.
    not.set_child(Ids::new(&[2, 3, 8, 10]));
    assert_eq!(drain(&mut not), vec![6, 7, 9]);
}

#[test]
fn skip_brings_a_lagging_child_up() {
    let mut not = negate(&[], 10);
    assert_eq!(skip(&mut not, 5), Some((true, 5)));
    not.set_child(Ids::new(&[2, 3, 4, 7, 9]));
    assert_eq!(skip(&mut not, 6), Some((true, 6)));
    assert_eq!(drain(&mut not), vec![8, 10]);
}

#[test]
fn error_of_the_child_is_handed_on() {
    let error = || RQEIteratorError::IoError(String::from("unreadable"));
    let mut child = Ids::new(&[1, 3]);
    child.fail_on = Some(3);
    let mut not = Not::new(child.clone(), 5, weight(1.0), 0, true);
    assert_eq!(not.read().err(), Some(error()));
    assert!(!not.at_eof());
    let mut not = Not::new(child, 5, weight(1.0), 0, true);
    assert_eq!(not.skip_to(3).err(), Some(error()));
    assert_eq!(not.last_doc_id(), 0);
}

#[test]
fn deadline_stops_a_long_run_of_documents_of_the_child() {
    let mut not = Not::new(Ids::new(&range(1, 6_000)), 10_000, weight(1.0), 0, false);
    assert_eq!(not.read().err(), Some(RQEIteratorError::TimedOut));
    assert_eq!(not.last_doc_id(), 5_000);
    // From then on the negation is at its end.
    assert!(not.at_eof());
    assert!(not.read().unwrap().is_none());
    assert_eq!(skip(&mut not, 7_000), None);
    // A rewind lifts that, but not the deadline.
    not.rewind();
    assert!(!not.at_eof());
    assert_eq!(not.read().err(), Some(RQEIteratorError::TimedOut));
}

#[test]
fn deadline_is_looked_at_once_in_so_many_checks() {
    assert_eq!(TIMEOUT_GRANULARITY, 5_000);
    let mut not = Not::new(Ids::new(&range(1, 4_999)), 10_000, weight(1.0), 0, false);
    assert_eq!(not.read().unwrap().unwrap().doc_id, 5_000);
    let mut not = Not::new(Ids::new(&range(1, 5_000)), 10_000, weight(1.0), 0, false);
    assert_eq!(not.read().err(), Some(RQEIteratorError::TimedOut));
}

#[test]
fn result_starts_the_count_of_checks_anew() {
    let mut ids = range(1, 4_000);
    ids.extend(range(4_002, 8_000));
    let mut not = Not::new(Ids::new(&ids), 10_000, weight(1.0), 0, false);
    assert_eq!(not.read().unwrap().unwrap().doc_id, 4_001);
    assert_eq!(not.read().unwrap().unwrap().doc_id, 8_001);
}

#[test]
fn every_skip_counts_as_a_check() {
    let mut not = Not::new(Ids::new(&[]), 10_000, weight(1.0), 0, false);
    for doc_id in 1..=4_999 {
        assert_eq!(skip(&mut not, doc_id), Some((true, doc_id)));
    }
    assert_eq!(not.skip_to(5_000).err(), Some(RQEIteratorError::TimedOut));
    assert!(not.at_eof());
}

#[test]
fn deadline_far_away_or_skipped_does_not_stop_anything() {
    let mut not = Not::new(Ids::new(&range(1, 12_000)), 12_001, weight(1.0), HOUR, false);
    assert_eq!(drain(&mut not), vec![12_001]);
    let mut not = Not::new(Ids::new(&range(1, 12_000)), 12_001, weight(1.0), 0, true);
    assert_eq!(drain(&mut not), vec![12_001]);
}

#[test]
fn revalidation_keeps_the_place() {
    let mut not = negate(&[2, 5, 8], 10);
    assert_eq!(skip(&mut not, 3), Some((true, 3)));
    assert!(matches!(not.revalidate(), Ok(RQEValidateStatus::Valid)));
    assert_eq!(not.last_doc_id(), 3);

    let mut child = not.take_child().unwrap();
    child.revalidation = Next::Moved;
    not.set_child(child);
    assert!(matches!(not.revalidate(), Ok(RQEValidateStatus::Valid)));
    assert_eq!(not.last_doc_id(), 3);
    assert_eq!(not.child().unwrap().last_doc_id(), 8);
    assert_eq!(drain(&mut not), vec![4, 5, 6, 7, 9, 10]);
}

#[test]
fn aborted_child_counts_as_empty() {
    let mut not = negate(&[2, 5], 6);
    assert_eq!(not.read().unwrap().unwrap().doc_id, 1);
    let mut child = not.take_child().unwrap();
    child.revalidation = Next::Aborted;
    not.set_child(child);
    assert!(matches!(not.revalidate(), Ok(RQEValidateStatus::Valid)));
    assert!(not.child().is_none());
    assert_eq!(drain(&mut not), vec![2, 3, 4, 5, 6]);
    assert!(matches!(not.revalidate(), Ok(RQEValidateStatus::Valid)));
}

#[test]
fn failed_revalidation_of_the_child_is_handed_on() {
    let mut child = Ids::new(&[2]);
    child.revalidation = Next::Fails;
    let mut not = Not::new(child, 3, weight(1.0), 0, true);
    assert_eq!(
        not.revalidate().err(),
        Some(RQEIteratorError::IoError(String::from("gone")))
    );
    assert!(not.child().is_some());
}

#[test]
fn only_an_aborted_child_is_dropped() {
    let mut not = negate(&[2], 3);
    for fate in [Revalidation::Valid, Revalidation::Moved, Revalidation::MovedToEnd] {
        assert!(matches!(not.settle_child(fate), RQEValidateStatus::Valid));
        assert!(not.child().is_some());
    }
    assert!(matches!(not.settle_child(Revalidation::Aborted), RQEValidateStatus::Valid));
    assert!(not.child().is_none());
}

#[test]
fn double_negation_gives_the_documents_back() {
    let inner = Not::new(Ids::new(&[3, 5]), 6, weight(1.0), 0, true);
    let mut outer = Not::new(inner, 6, weight(1.0), 0, true);
    assert_eq!(drain(&mut outer), vec![3, 5]);
}

/// A negation up to 4 that has only the document 1. Asked for more, it runs out and stands on 4.
fn only_one() -> Not<Ids> {
    Not::new(Ids::new(&[2, 3, 4]), 4, weight(1.0), 0, true)
}

#[test]
fn double_negation_gives_back_documents_at_the_end() {
    let inner = Not::new(Ids::new(&[2, 3]), 3, weight(1.0), 0, true);
    let mut outer = Not::new(inner, 3, weight(1.0), 0, true);
    assert_eq!(drain(&mut outer), vec![2, 3]);
    outer.rewind();
    assert_eq!(drain(&mut outer), vec![2, 3]);
}

#[test]
fn place_where_a_child_ran_out_is_no_document_of_it() {
    let mut outer = Not::new(only_one(), 6, weight(1.0), 0, true);
    assert_eq!(drain(&mut outer), vec![2, 3, 4, 5, 6]);

    let mut outer = Not::new(only_one(), 6, weight(1.0), 0, true);
    assert_eq!(outer.read().unwrap().unwrap().doc_id, 2);
    assert_eq!(outer.child().unwrap().last_doc_id(), 4);
    assert_eq!(skip(&mut outer, 4), Some((true, 4)));
    assert_eq!(outer.read().unwrap().unwrap().doc_id, 5);

    let mut outer = Not::new(only_one(), 6, weight(1.0), 0, true);
    assert_eq!(skip(&mut outer, 2), Some((true, 2)));
    assert_eq!(drain(&mut outer), vec![3, 4, 5, 6]);
    outer.rewind();
    assert_eq!(drain(&mut outer), vec![2, 3, 4, 5, 6]);
}

#[test]
fn new_child_in_place_of_one_that_ran_out_counts_again() {
    let mut not = negate(&[], 6);
    assert_eq!(not.read().unwrap().unwrap().doc_id, 1);
    let mut child = Ids::new(&[4, 5]);
    assert_eq!(child.read().unwrap().unwrap().doc_id, 4);
    not.set_child(child);
    assert_eq!(drain(&mut not), vec![2, 3, 6]);
}

#[test]
fn child_that_moves_to_its_end_claims_nothing() {
    let mut child = Ids::new(&[2, 5]);
    child.revalidation = Next::Moved;
    let mut not = Not::new(child, 6, weight(1.0), 0, true);
    assert_eq!(skip(&mut not, 3), Some((true, 3)));
    assert_eq!(not.child().unwrap().last_doc_id(), 5);
    assert!(matches!(not.revalidate(), Ok(RQEValidateStatus::Valid)));
    assert_eq!(drain(&mut not), vec![4, 5, 6]);
}

#[test]
fn child_that_is_ahead_or_has_run_out_is_left_alone() {
    let mut not = negate(&[7], 10);
    assert_eq!(not.read().unwrap().unwrap().doc_id, 1);
    let ahead = not.child().unwrap().clone();
    assert_eq!(ahead.last_doc_id(), 7);
    assert_eq!(not.read().unwrap().unwrap().doc_id, 2);
    assert_eq!(*not.child().unwrap(), ahead);
    assert_eq!(skip(&mut not, 5), Some((true, 5)));
    assert_eq!(*not.child().unwrap(), ahead);
    // The child has nothing left behind 7.
    assert_eq!(skip(&mut not, 9), Some((true, 9)));
    assert_eq!(*not.child().unwrap(), ahead);
}

#[test]
fn error_of_the_child_leaves_a_skip_where_it_was_or_behind_its_aim() {
    let error = RQEIteratorError::IoError(String::from("unreadable"));
    let mut child = Ids::new(&[3, 4]);
    child.fail_on = Some(4);
    let mut not = Not::new(child, 6, weight(1.0), 0, true);
    assert_eq!(not.skip_to(3).err(), Some(error));
    assert_eq!(not.last_doc_id(), 4);
    assert!(!not.at_eof());
}

#[test]
fn deadline_stops_a_skip_over_a_long_run_of_documents_of_the_child() {
    let mut not = Not::new(Ids::new(&range(1, 6_000)), 10_000, weight(1.0), 0, false);
    assert_eq!(not.skip_to(2).err(), Some(RQEIteratorError::TimedOut));
    assert_eq!(not.last_doc_id(), 5_001);
    not.rewind();
    assert_eq!(not.skip_to(2).err(), Some(RQEIteratorError::TimedOut));
}

#[test]
fn deadline_above_zero_stops_reads_and_skips_once_it_has_passed() {
    // A nanosecond is over long before the clock is looked at.
    let mut not = Not::new(Ids::new(&range(1, 6_000)), 10_000, weight(1.0), 1, false);
    assert_eq!(not.read().err(), Some(RQEIteratorError::TimedOut));
    assert!(not.at_eof());
    assert!(not.read().unwrap().is_none());
    // A rewind does not move the deadline.
    not.rewind();
    assert!(!not.at_eof());
    assert_eq!(not.read().err(), Some(RQEIteratorError::TimedOut));

    let mut not = Not::new(Ids::new(&[]), 10_000, weight(1.0), 1, false);
    for doc_id in 1..=4_999 {
        assert_eq!(skip(&mut not, doc_id), Some((true, doc_id)));
    }
    assert_eq!(not.skip_to(5_000).err(), Some(RQEIteratorError::TimedOut));
    for doc_id in 5_001..=6_000 {
        assert_eq!(skip(&mut not, doc_id), None);
    }
}

#[test]
fn child_has_ended_or_is_ahead_after_each_result() {
    for child in [vec![2, 3, 4], vec![2, 5], vec![1, 2, 3, 4, 5, 6], vec![]] {
        let inner = Not::new(Ids::new(&child), 4, weight(1.0), 0, true);
        let mut outer = Not::new(inner, 8, weight(1.0), 0, true);
        while outer.read().unwrap().is_some() {
            let inner = outer.child().unwrap();
            assert!(inner.at_eof() || inner.last_doc_id() > outer.last_doc_id());
        }
        outer.rewind();
        let mut doc_id = 1;
        while skip(&mut outer, doc_id).is_some() {
            let inner = outer.child().unwrap();
            assert!(inner.at_eof() || inner.last_doc_id() > outer.last_doc_id());
            doc_id = outer.last_doc_id() + 1;
        }
    }
}
