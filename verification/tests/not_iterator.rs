use rqe_iterators::either::EitherIterator;
use rqe_iterators::index_result::{IteratorType, RSIndexResult, Weight};
use rqe_iterators::not_iterator::{
    negate_nothing, new_not_iterator, not_iterator_reducer, IndexSpec, NewNotIterator, NotIterator,
    NotReduction, QueryEvalCtx, RedisSearchCtx, SchemaRule,
};
use rqe_iterators::rqe_iterator::{
    Cursor, RQEIterator, RQEIteratorError, RQEValidateStatus, Revalidation, SkipToOutcome,
};

/// An iterator over a sorted list of ids.
#[derive(Clone, Debug, PartialEq)]
struct Ids {
    ids: Vec<u64>,
    next: usize,
    ended: bool,
    result: RSIndexResult,
    wildcard: bool,
    empty: bool,
    aborts: bool,
}

impl Ids {
    fn new(ids: &[u64]) -> Ids {
        Ids {
            ids: ids.to_vec(),
            next: 0,
            ended: false,
            result: RSIndexResult { doc_id: 0, freq: 1, field_mask: 3, weight: Weight { bits: 7 } },
            wildcard: false,
            empty: false,
            aborts: false,
        }
    }
}

impl RQEIterator for Ids {
    fn view(&self) -> Cursor {
        unreachable!("ghost code")
    }

    fn revalidates_to(&self, _outcome: Revalidation, _next: Cursor) -> bool {
        unreachable!("ghost code")
    }

    fn lemma_consistent(&self) {}

    fn current(&mut self) -> Option<&mut RSIndexResult> {
        Some(&mut self.result)
    }

    fn read(&mut self) -> Result<Option<&mut RSIndexResult>, RQEIteratorError> {
        if self.ended || self.next >= self.ids.len() {
            self.ended = true;
            return Ok(None);
        }
        self.result.doc_id = self.ids[self.next];
        self.next += 1;
        Ok(Some(&mut self.result))
    }

    fn skip_to(&mut self, doc_id: u64) -> Result<Option<SkipToOutcome<'_>>, RQEIteratorError> {
        while self.next < self.ids.len() && self.ids[self.next] < doc_id {
            self.next += 1;
        }
        if self.read()?.is_none() {
            return Ok(None);
        }
        if self.result.doc_id == doc_id {
            Ok(Some(SkipToOutcome::Found(&mut self.result)))
        } else {
            Ok(Some(SkipToOutcome::NotFound(&mut self.result)))
        }
    }

    fn revalidate(&mut self) -> Result<RQEValidateStatus<'_>, RQEIteratorError> {
        if self.aborts {
            Ok(RQEValidateStatus::Aborted)
        } else {
            Ok(RQEValidateStatus::Valid)
        }
    }

    fn rewind(&mut self) {
        self.next = 0;
        self.ended = false;
        self.result.doc_id = 0;
    }

    fn num_estimated(&self) -> usize {
        self.ids.len()
    }

    fn last_doc_id(&self) -> u64 {
        self.result.doc_id
    }

    fn at_eof(&self) -> bool {
        self.ended || self.next >= self.ids.len()
    }

    fn is_wildcard(&self) -> bool {
        self.wildcard
    }

    fn is_empty(&self) -> bool {
        self.empty
    }
}

fn drain<I: RQEIterator>(iterator: &mut I) -> Vec<u64> {
    let mut all = Vec::new();
    while let Some(result) = iterator.read().unwrap() {
        all.push(result.doc_id);
    }
    all
}

const WILDCARD: IteratorType = IteratorType::Other(5);

fn wildcard(weight: Weight) -> (Ids, IteratorType) {
    let mut ids = Ids::new(&[1, 2, 5, 6]);
    ids.wildcard = true;
    ids.result.weight = weight;
    (ids, WILDCARD)
}

fn query(has_disk_spec: bool, rule: Option<SchemaRule>) -> QueryEvalCtx {
    QueryEvalCtx { sctx: Some(RedisSearchCtx { spec: IndexSpec { has_disk_spec, rule } }) }
}

fn child() -> Ids {
    Ids::new(&[2, 3])
}

fn empty_child() -> Ids {
    let mut ids = Ids::new(&[]);
    ids.empty = true;
    ids
}

fn wildcard_child() -> Ids {
    let mut ids = Ids::new(&[1, 2, 3]);
    ids.wildcard = true;
    ids
}

fn weight() -> Weight {
    Weight { bits: 0.25f64.to_bits() }
}

/// Drives a negation through its interface alone.
fn swap_child<N: NotIterator<Child = Ids>>(not: &mut N) -> Option<Ids> {
    assert_eq!(not.child().map(|c| c.ids.clone()), Some(vec![2, 3]));
    let taken = not.take_child();
    assert!(not.child().is_none());
    assert!(not.take_child().is_none());
    not.set_child(Ids::new(&[1]));
    taken
}

#[test]
fn negation_of_an_empty_child_is_reduced_to_a_wildcard() {
    match not_iterator_reducer(empty_child(), weight(), &wildcard) {
        NotReduction::Reduced(EitherIterator::First(mut reduced), iterator_type) => {
            assert_eq!(iterator_type, WILDCARD);
            let current = *reduced.current().unwrap();
            assert_eq!(current.freq, 0);
            assert_eq!(current.weight, weight());
            assert_eq!(drain(&mut reduced), vec![1, 2, 5, 6]);
        }
        _ => panic!("not reduced to a wildcard"),
    }
}

#[test]
fn negation_of_a_wildcard_is_reduced_to_nothing() {
    match not_iterator_reducer(wildcard_child(), weight(), &wildcard) {
        NotReduction::Reduced(EitherIterator::Second(mut reduced), iterator_type) => {
            assert_eq!(iterator_type, IteratorType::Empty);
            assert!(reduced.is_empty());
            assert!(reduced.at_eof());
            assert_eq!(drain(&mut reduced), Vec::<u64>::new());
        }
        _ => panic!("not reduced to nothing"),
    }
}

#[test]
fn empty_child_is_reduced_before_a_wildcard() {
    let mut both = empty_child();
    both.wildcard = true;
    assert!(matches!(
        not_iterator_reducer(both, weight(), &wildcard),
        NotReduction::Reduced(EitherIterator::First(_), _)
    ));
}

#[test]
fn other_children_are_handed_back() {
    match not_iterator_reducer(child(), weight(), &wildcard) {
        NotReduction::NotReduced(same) => assert_eq!(same, child()),
        _ => panic!("reduced"),
    }
}

#[test]
fn wildcard_that_stands_for_a_negation_counts_no_term() {
    let (ids, _) = wildcard(weight());
    assert_eq!(ids.result.freq, 1);
    let mut negated = negate_nothing(ids.clone());
    assert_eq!(*negated.current().unwrap(), RSIndexResult { freq: 0, ..ids.result });
}

#[test]
fn reductions_need_no_search_context() {
    let query = QueryEvalCtx { sctx: None };
    assert!(matches!(
        new_not_iterator(empty_child(), 6, weight(), 0, true, &query, &wildcard),
        NewNotIterator::Reduced(EitherIterator::First(_), WILDCARD)
    ));
    assert!(matches!(
        new_not_iterator(wildcard_child(), 6, weight(), 0, true, &query, &wildcard),
        NewNotIterator::Reduced(EitherIterator::Second(_), IteratorType::Empty)
    ));
}

#[test]
fn index_that_does_not_list_its_documents_gets_a_sequential_negation() {
    // Not even an index on disk counts as one that lists its documents.
    let not_all = Some(SchemaRule { index_all: false });
    for (disk, rule) in [(false, None), (false, not_all), (true, None), (true, not_all)] {
        match new_not_iterator(child(), 6, weight(), 0, true, &query(disk, rule), &wildcard) {
            NewNotIterator::NotReduced(EitherIterator::First(mut not), iterator_type) => {
                assert_eq!(iterator_type, IteratorType::Not);
                assert_eq!(not.current().unwrap().weight, weight());
                assert_eq!(drain(&mut not), vec![1, 4, 5, 6]);
            }
            _ => panic!("not sequential"),
        }
    }
}

#[test]
fn index_that_lists_its_documents_gets_an_optimized_negation() {
    let index_all = Some(SchemaRule { index_all: true });
    for disk in [false, true] {
        match new_not_iterator(child(), 6, weight(), 0, true, &query(disk, index_all), &wildcard) {
            NewNotIterator::NotReduced(EitherIterator::Second(mut not), iterator_type) => {
                assert_eq!(iterator_type, IteratorType::Not);
                assert_eq!(not.current().unwrap().weight, weight());
                assert_eq!(drain(&mut not), vec![1, 5, 6]);
            }
            _ => panic!("not optimized"),
        }
    }
}

#[test]
fn deadline_reaches_the_negation() {
    let ids: Vec<u64> = (1..=6_000).collect();
    let query = query(false, None);
    match new_not_iterator(Ids::new(&ids), 7_000, weight(), 0, false, &query, &wildcard) {
        NewNotIterator::NotReduced(mut not, _) => {
            assert_eq!(not.read().err(), Some(RQEIteratorError::TimedOut));
            assert!(not.at_eof());
        }
        _ => panic!("reduced"),
    }
}

#[test]
fn children_of_both_negations_can_be_swapped() {
    for rule in [None, Some(SchemaRule { index_all: true })] {
        match new_not_iterator(child(), 6, weight(), 0, true, &query(false, rule), &wildcard) {
            NewNotIterator::NotReduced(mut not, _) => {
                let estimate = not.num_estimated();
                assert_eq!(swap_child(&mut not), Some(child()));
                assert_eq!(not.read().unwrap().unwrap().doc_id, 2);
                assert_eq!(not.last_doc_id(), 2);
                assert_eq!(not.num_estimated(), estimate);
            }
            _ => panic!("reduced"),
        }
    }
}

#[test]
fn child_may_be_any_boxed_iterator() {
    let boxed: Box<dyn RQEIterator> = Box::new(child());
    match new_not_iterator(boxed, 4, weight(), 0, true, &query(false, None), &wildcard) {
        NewNotIterator::NotReduced(mut not, _) => {
            assert_eq!(drain(&mut not), vec![1, 4]);
            assert_eq!(not.child().unwrap().num_estimated(), 2);
            assert!(not.take_child().unwrap().at_eof());
        }
        _ => panic!("reduced"),
    }
}
