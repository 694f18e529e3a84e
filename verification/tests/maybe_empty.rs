use rqe_iterators::empty::Empty;
use rqe_iterators::index_result::Weight;
use rqe_iterators::maybe_empty::MaybeEmpty;
use rqe_iterators::not::Not;
use rqe_iterators::rqe_iterator::{RQEIterator, RQEValidateStatus};

#[test]
fn empty_iterator_has_no_document() {
    let mut empty = Empty;
    assert!(empty.current().is_none());
    assert!(empty.read().unwrap().is_none());
    assert!(empty.skip_to(3).unwrap().is_none());
    assert!(matches!(empty.revalidate(), Ok(RQEValidateStatus::Valid)));
    empty.rewind();
    assert!(empty.at_eof());
    assert!(empty.is_empty());
    assert!(!empty.is_wildcard());
    assert_eq!(empty.last_doc_id(), 0);
    assert_eq!(empty.num_estimated(), 0);
}

#[test]
fn missing_iterator_behaves_like_an_empty_one() {
    let mut missing = MaybeEmpty::<Empty>::new_empty();
    assert!(missing.as_ref().is_none());
    assert!(missing.current().is_none());
    assert!(missing.read().unwrap().is_none());
    assert!(missing.skip_to(3).unwrap().is_none());
    assert!(matches!(missing.revalidate(), Ok(RQEValidateStatus::Valid)));
    missing.rewind();
    assert!(missing.at_eof());
    assert!(missing.is_empty());
    assert!(!missing.is_wildcard());
    assert_eq!(missing.last_doc_id(), 0);
    assert_eq!(missing.num_estimated(), 0);
    assert!(missing.take_iterator().is_none());
}

#[test]
fn held_iterator_is_handed_through() {
    let mut held = MaybeEmpty::new(Not::new(Empty, 3, Weight::zero(), 0, true));
    assert_eq!(held.num_estimated(), 3);
    assert!(!held.is_empty());
    assert_eq!(held.read().unwrap().unwrap().doc_id, 1);
    assert_eq!(held.last_doc_id(), 1);
    assert!(held.skip_to(3).unwrap().is_some());
    assert!(held.at_eof());
    assert!(held.as_ref().is_some());
    let mut taken = held.take_iterator().unwrap();
    assert!(held.as_ref().is_none());
    assert_eq!(taken.current().unwrap().doc_id, 3);
}
