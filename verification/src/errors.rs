//! Error taxonomy for page operations.
//!
//! Lower-level errors are wrapped without loss of detail; every surface error
//! carries the `PageId` of the affected page.

use vstd::prelude::*;
use crate::le::BinaryError;
use crate::conversions::ConversionError;
use crate::page_id::PageId;

verus! {

/// Errors while reading or writing the fixed page header.
#[derive(Debug, Clone, Copy, PartialEq, Eq, Structural)]
pub enum HeaderError {
    /// A byte-range error from the little-endian codec.
    BinaryError(BinaryError),
    /// A checked offset addition or subtraction failed.
    OffsetArithmetic,
    /// The byte slice handed to a header view does not have the header size.
    HeaderSliceSizeMismatch { actual: usize },
}

/// Errors while reading or writing the slot array.
#[derive(Debug, Clone, Copy, PartialEq, Eq, Structural)]
pub enum SlotError {
    /// The slot-array region size disagrees with the header's slot count.
    SlotRegionSizeMismatch { expected_size: usize, actual_size: usize },
    /// A single slot's byte slice does not have the slot size.
    SlotSizeMismatch { expected_size: usize, actual_size: usize },
    /// The slot index is out of range, or the slot is invalid.
    InvalidSlot { slot_index: usize },
    /// A byte-range error from the little-endian codec.
    BinaryError(BinaryError),
    /// An error while reading the page header.
    HeaderError(HeaderError),
}

/// Errors while reading a row by slot index.
#[derive(Debug, Clone, Copy, PartialEq, Eq, Structural)]
pub enum ReadRowError {
    /// An error while reading the slot array.
    SlotError(SlotError),
}

/// Errors while planning or applying a row insertion.
#[derive(Debug, Clone, Copy, PartialEq, Eq, Structural)]
pub enum InsertError {
    /// The row does not fit in the page's free space.
    NotEnoughSpace { row_len: usize, page_free_space: usize },
    /// An error while accessing the slot array.
    SlotError(SlotError),
    /// An error while accessing the header.
    HeaderError(HeaderError),
}

/// Errors while deleting a row.
#[derive(Debug, Clone, Copy, PartialEq, Eq, Structural)]
pub enum DeleteError {
    /// An error while accessing the slot array.
    SlotError(SlotError),
    /// An error while accessing the header.
    HeaderError(HeaderError),
}

/// Errors while updating a row in place or by relocation.
#[derive(Debug, Clone, Copy, PartialEq, Eq, Structural)]
pub enum UpdateError {
    /// The new row does not fit in the free space plus the old row's bytes.
    NotEnoughSpace { row_len: usize, page_free_space: usize },
    /// An error while accessing the slot array.
    SlotError(SlotError),
    /// An error while accessing the header.
    HeaderError(HeaderError),
    /// An error while inserting the value for the updated row.
    InsertError(InsertError),
    /// An error while converting between integer widths.
    ConversionError(ConversionError),
    /// An error while deleting the old row.
    DeleteError(DeleteError),
}

/// Aggregator for all page-operation errors.
#[derive(Debug, Clone, Copy, PartialEq, Eq, Structural)]
pub enum PageOpError {
    /// An error while accessing the header.
    Header(HeaderError),
    /// An error while accessing the slot array.
    Slot(SlotError),
    /// An error while reading a row.
    ReadRow(ReadRowError),
    /// An error while inserting a row.
    Insert(InsertError),
    /// An error while deleting a row.
    DeleteRow(DeleteError),
    /// An error while updating a row.
    UpdateRow(UpdateError),
}

/// Public-facing error of page operations: the source error annotated with
/// the id of the affected page.
#[derive(Debug, Clone, Copy, PartialEq, Eq, Structural)]
pub struct PageError {
    /// The page on which the error occurred.
    pub page_id: PageId,
    /// The underlying error.
    pub source: PageOpError,
}

/// Public-facing result type of page operations.
pub type PageResult<T> = Result<T, PageError>;

} // verus!
