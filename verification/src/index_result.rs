//! The result record that every iterator hands out, and the tags of iterators.

use vstd::prelude::*;

verus! {

/// The id of a document. Ids start at 1; 0 stands for "before the first document".
#[allow(non_camel_case_types)]
pub type t_docId = u64;

/// The set of fields that a result refers to, one bit for each field.
#[allow(non_camel_case_types)]
pub type t_fieldMask = u128;

/// The mask that selects every field.
pub const RS_FIELDMASK_ALL: t_fieldMask = 0xffff_ffff_ffff_ffff_ffff_ffff_ffff_ffff;

/// The weight of a result, held as the bit pattern of its floating-point value.
///
/// Iterators only carry weights along; they never compute with them.
#[derive(Clone, Copy, Debug, PartialEq, Eq, Structural)]
pub struct Weight {
    pub bits: u64,
}

impl Weight {
    /// The weight 0.0, whose bit pattern is all zeros.
    pub fn zero() -> (weight: Weight)
        ensures
            weight == (Weight { bits: 0 }),
    {
        Weight { bits: 0 }
    }
}

/// One result of an iterator.
#[derive(Clone, Copy, Debug, PartialEq, Eq, Structural)]
pub struct RSIndexResult {
    /// The document that the result stands for.
    pub doc_id: t_docId,
    /// How often the searched term occurs in the document.
    pub freq: u32,
    /// The fields that the result refers to.
    pub field_mask: t_fieldMask,
    /// The weight of the result in scoring.
    pub weight: Weight,
}

impl RSIndexResult {
    /// A virtual result: one that stands for a document without any term in it.
    /// It starts in front of the first document.
    pub fn virt(weight: Weight, field_mask: t_fieldMask) -> (result: RSIndexResult)
        ensures
            result == (RSIndexResult { doc_id: 0, freq: 0, field_mask, weight }),
    {
        RSIndexResult { doc_id: 0, freq: 0, field_mask, weight }
    }
}

/// The tag by which a query engine tells iterators apart.
#[derive(Clone, Copy, Debug, PartialEq, Eq, Structural)]
pub enum IteratorType {
    /// An iterator without documents.
    Empty,
    /// A negation, sequential or backed by a wildcard.
    Not,
    /// An optional iterator that is backed by a wildcard.
    OptionalOptimized,
    /// Any other iterator, under the number that the engine gives it.
    Other(u32),
}

} // verus!
