//! Verified query iterators: negations of an iterator, sequential or backed by a wildcard,
//! and the handling of the child of an optional iterator.
//!
//! An iterator goes through documents in increasing order of their ids. What it is at one moment
//! is a [`rqe_iterator::Cursor`]; the contracts of [`rqe_iterator::RQEIterator`] say how each
//! operation changes it. [`laws`] says what follows for whole runs, and the other modules of laws
//! say what each single call does: [`laws_of_operations`] for any iterator, [`laws_of_negation`]
//! and [`laws_of_optimized_negation`] for the negations, [`laws_of_reduction`] for the choice
//! between them, and [`laws_of_parts`] for all that they are made of.

pub mod boxed;
pub mod either;
pub mod empty;
pub mod index_result;
pub mod iterators_ffi;
pub mod laws;
pub mod laws_of_negation;
pub mod laws_of_operations;
pub mod laws_of_optimized_negation;
pub mod laws_of_parts;
pub mod laws_of_reduction;
pub mod maybe_empty;
pub mod not;
pub mod not_iterator;
pub mod not_optimized;
pub mod optional_optimized;
pub mod rqe_iterator;
pub mod timeout;
