//! Core storage engine for a page-oriented database: a fixed-size slotted-page
//! format, a buffer pool that caches pages in frames, and a file-manager
//! abstraction for positional page I/O.

use vstd::prelude::*;

pub mod le;
pub mod conversions;
pub mod page_id;
pub mod page_type;
pub mod errors;
pub mod layout;
pub mod plan;
pub mod page;
pub mod header;
pub mod slot;
pub mod slot_array;
pub mod catalog;
pub mod file_manager;
pub mod buffer;
pub mod storage;
pub mod config;

verus! {

/// Size of a page in bytes.
pub const PAGE_SIZE: usize = 4096;

/// Size of the fixed page header in bytes.
pub const HEADER_SIZE: usize = 96;

/// Size of one slot-array entry in bytes.
pub const SLOT_SIZE: usize = 4;

} // verus!
