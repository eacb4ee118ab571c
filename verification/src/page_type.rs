//! Page classification codes stored in the `page_type` header field.

use vstd::prelude::*;

verus! {

/// Enumeration of the different page types in the storage system.
#[derive(Debug, Clone, Copy, PartialEq, Eq, Structural)]
pub enum PageType {
    /// Simple slotted unsorted data page.
    Unsorted,
    /// B+ tree index root page.
    IndexRoot,
    /// B+ tree index internal page.
    IndexInternal,
    /// B+ tree index leaf data page.
    IndexLeaf,
}

impl PageType {
    /// The `u16` code under which this page type is stored in a header.
    pub open spec fn code(self) -> u16 {
        match self {
            PageType::Unsorted => 1u16,
            PageType::IndexRoot => 2u16,
            PageType::IndexInternal => 3u16,
            PageType::IndexLeaf => 4u16,
        }
    }

    /// Converts the page type to its `u16` header code.
    pub fn as_u16(self) -> (r: u16)
        ensures
            r == self.code(),
    {
        match self {
            PageType::Unsorted => 1,
            PageType::IndexRoot => 2,
            PageType::IndexInternal => 3,
            PageType::IndexLeaf => 4,
        }
    }

    /// Attempts to convert a `u16` header code back to a page type.
    ///
    /// Returns `Err(())` exactly when the code names no page type.
    pub fn try_from_u16(v: u16) -> (r: Result<PageType, ()>)
        ensures
            match r {
                Ok(t) => t.code() == v,
                Err(u) => v == 0 || v > 4,
            },
    {
        match v {
            1u16 => Ok(PageType::Unsorted),
            2u16 => Ok(PageType::IndexRoot),
            3u16 => Ok(PageType::IndexInternal),
            4u16 => Ok(PageType::IndexLeaf),
            _ => Err(()),
        }
    }
}

} // verus!
