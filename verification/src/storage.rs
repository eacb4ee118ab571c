//! The storage facade: the thin front the engine exposes for creating,
//! reading and writing pages through the buffer pool. Surface errors wrap
//! the buffer error without loss of detail and carry the id of the
//! affected page.

use vstd::prelude::*;
use crate::buffer::BufferError;
use crate::buffer::BufferFrame;
use crate::buffer::BufferManager;
use crate::buffer::PageReadGuard;
use crate::buffer::PageWriteGuard;
use crate::file_manager::FileManager;
use crate::page_id::PageId;

verus! {

/// Public storage API errors: the operation that failed, the page it
/// failed on, and the buffer error underneath.
#[derive(Debug, Clone, Copy, PartialEq, Eq, Structural)]
pub enum StorageErrors {
    /// An error while reading a page.
    ReadPage { page_id: PageId, source: BufferError },
    /// An error while creating a new page.
    NewPage { page_id: PageId, source: BufferError },
}

/// The storage manager: a thin facade over the buffer pool.
pub struct StorageManager<F: FileManager> {
    buffer_manager: BufferManager<F>,
}

impl<F: FileManager> StorageManager<F> {
    /// The underlying buffer manager.
    pub closed spec fn buffer(&self) -> BufferManager<F> {
        self.buffer_manager
    }

    /// The facade is usable when its buffer pool is.
    pub open spec fn wf(&self) -> bool {
        self.buffer().wf()
    }

    /// What a failed lookup-or-load promises: the page was not already
    /// resident (a cache hit cannot fail), the page map is unchanged, and
    /// the buffer error pins what happened — `BufferFull` leaves
    /// everything as it was and holds exactly when every frame is claimed;
    /// `IoReadFailed` holds exactly when the file manager does not store
    /// the page, with the claimed frame rolled back.
    pub open spec fn read_failure(
        old_buf: BufferManager<F>,
        new_buf: BufferManager<F>,
        page_id: PageId,
        source: BufferError,
    ) -> bool {
        &&& !old_buf.residency().contains_key(page_id)
        &&& new_buf.entries() == old_buf.entries()
        &&& match source {
            BufferError::BufferFull => new_buf.pool() == old_buf.pool() && new_buf.manager()
                == old_buf.manager() && (forall|j: int|
                0 <= j < old_buf.pool().len() ==> (#[trigger] old_buf.pool()[j]).page_id is Some),
            BufferError::IoReadFailed(p) => p == page_id && !old_buf.manager().stored().contains_key(
                page_id,
            ) && new_buf.manager().stored() == old_buf.manager().stored() && exists|fid: int|
                0 <= fid < old_buf.pool().len() && (#[trigger] old_buf.pool()[fid]).page_id is None
                    && new_buf.pool() == old_buf.pool().update(
                    fid,
                    (BufferFrame {
                        page: old_buf.pool()[fid].page,
                        page_id: None,
                        pin_count: 1,
                        dirty: false,
                    }),
                ),
        }
    }

    /// Creates a new storage manager over the given buffer manager.
    pub fn new(buffer_manager: BufferManager<F>) -> (r: StorageManager<F>)
        ensures
            r.buffer() == buffer_manager,
    {
        StorageManager { buffer_manager }
    }

    /// Obtains a read guard for the page, loading it on a miss. A resident
    /// page always succeeds; on failure the error names the page and says
    /// whether the pool was full or the read failed.
    pub fn read_page(&mut self, page_id: PageId) -> (r: Result<PageReadGuard, StorageErrors>)
        requires
            old(self).wf(),
        ensures
            final(self).wf(),
            match r {
                Ok(g) => g.page_id_spec() == page_id && BufferManager::<F>::load_post(
                    old(self).buffer(),
                    final(self).buffer(),
                    page_id,
                    g.frame_spec(),
                ),
                Err(e) => exists|source: BufferError|
                    e == (StorageErrors::ReadPage { page_id, source })
                        && #[trigger] Self::read_failure(
                        old(self).buffer(),
                        final(self).buffer(),
                        page_id,
                        source,
                    ),
            },
    {
        match self.buffer_manager.read_page(page_id) {
            Ok(g) => Ok(g),
            Err(e) => {
                proof {
                    assert(Self::read_failure(
                        old(self).buffer(),
                        self.buffer(),
                        page_id,
                        e,
                    ));
                }
                Err(StorageErrors::ReadPage { page_id, source: e })
            },
        }
    }

    /// Obtains a write guard for the page, loading it on a miss. A
    /// resident page always succeeds; on failure the error names the page
    /// and says whether the pool was full or the read failed.
    pub fn read_page_mut(&mut self, page_id: PageId) -> (r: Result<PageWriteGuard, StorageErrors>)
        requires
            old(self).wf(),
        ensures
            final(self).wf(),
            match r {
                Ok(g) => g.page_id_spec() == page_id && BufferManager::<F>::load_post(
                    old(self).buffer(),
                    final(self).buffer(),
                    page_id,
                    g.frame_spec(),
                ),
                Err(e) => exists|source: BufferError|
                    e == (StorageErrors::ReadPage { page_id, source })
                        && #[trigger] Self::read_failure(
                        old(self).buffer(),
                        final(self).buffer(),
                        page_id,
                        source,
                    ),
            },
    {
        match self.buffer_manager.read_page_mut(page_id) {
            Ok(g) => Ok(g),
            Err(e) => {
                proof {
                    assert(Self::read_failure(
                        old(self).buffer(),
                        self.buffer(),
                        page_id,
                        e,
                    ));
                }
                Err(StorageErrors::ReadPage { page_id, source: e })
            },
        }
    }

    /// Claims a frame for a brand-new page and returns a write guard; the
    /// caller is responsible for initializing the page. No storage I/O is
    /// performed. Fails exactly when every frame is claimed, leaving
    /// everything as it was.
    pub fn new_page(&mut self, page_id: PageId) -> (r: Result<PageWriteGuard, StorageErrors>)
        requires
            old(self).wf(),
        ensures
            final(self).wf(),
            final(self).buffer().manager() == old(self).buffer().manager(),
            match r {
                Ok(g) => {
                    &&& g.page_id_spec() == page_id
                    &&& g.frame_spec() < old(self).buffer().pool().len()
                    &&& old(self).buffer().pool()[g.frame_spec() as int].page_id is None
                    &&& final(self).buffer().pool() == old(self).buffer().pool().update(
                        g.frame_spec() as int,
                        (BufferFrame {
                            page: old(self).buffer().pool()[g.frame_spec() as int].page,
                            page_id: Some(page_id),
                            pin_count: 1,
                            dirty: false,
                        }),
                    )
                    &&& final(self).buffer().entries() == old(self).buffer().entries().push(
                        (page_id, g.frame_spec()),
                    )
                    &&& final(self).buffer().residency() == old(
                        self,
                    ).buffer().residency().insert(page_id, g.frame_spec())
                },
                Err(e) => {
                    &&& e == (StorageErrors::NewPage {
                        page_id,
                        source: BufferError::BufferFull,
                    })
                    &&& (forall|j: int|
                        0 <= j < old(self).buffer().pool().len() ==> (#[trigger] old(
                            self,
                        ).buffer().pool()[j]).page_id is Some)
                    &&& final(self).buffer().pool() == old(self).buffer().pool()
                    &&& final(self).buffer().entries() == old(self).buffer().entries()
                },
            },
    {
        match self.buffer_manager.allocate_new_page(page_id) {
            Ok(g) => Ok(g),
            Err(e) => Err(StorageErrors::NewPage { page_id, source: e }),
        }
    }

    /// Writes the guarded page back to storage, consuming the guard: the
    /// page's bytes become the stored content for its id. The frame stays
    /// resident.
    pub fn write_page(&mut self, page_id: PageId, guard: PageWriteGuard)
        requires
            old(self).wf(),
            guard.frame_spec() < old(self).buffer().pool().len(),
            guard.page_id_spec() == page_id,
        ensures
            final(self).wf(),
            final(self).buffer().pool() == old(self).buffer().pool(),
            final(self).buffer().entries() == old(self).buffer().entries(),
            final(self).buffer().manager().stored() == old(
                self,
            ).buffer().manager().stored().insert(
                page_id,
                old(self).buffer().pool()[guard.frame_spec() as int].page.bytes(),
            ),
    {
        self.buffer_manager.write_page(page_id, guard)
    }

    /// Read access to the page a read guard names.
    pub fn guard_page(&self, guard: &PageReadGuard) -> (r: &crate::page::Page)
        requires
            guard.frame_spec() < self.buffer().pool().len(),
        ensures
            *r == self.buffer().pool()[guard.frame_spec() as int].page,
    {
        self.buffer_manager.guard_page(guard)
    }

    /// Read access to the page a write guard names.
    pub fn write_guard_page(&self, guard: &PageWriteGuard) -> (r: &crate::page::Page)
        requires
            guard.frame_spec() < self.buffer().pool().len(),
        ensures
            *r == self.buffer().pool()[guard.frame_spec() as int].page,
    {
        self.buffer_manager.write_guard_page(guard)
    }

    /// Write access to the page a write guard names.
    pub fn guard_page_mut(&mut self, guard: &PageWriteGuard) -> (r: &mut crate::page::Page)
        requires
            guard.frame_spec() < old(self).buffer().pool().len(),
        ensures
            *r == old(self).buffer().pool()[guard.frame_spec() as int].page,
            final(self).buffer().pool() == old(self).buffer().pool().update(
                guard.frame_spec() as int,
                (crate::buffer::BufferFrame {
                    page: *final(r),
                    page_id: old(self).buffer().pool()[guard.frame_spec() as int].page_id,
                    pin_count: old(self).buffer().pool()[guard.frame_spec() as int].pin_count,
                    dirty: old(self).buffer().pool()[guard.frame_spec() as int].dirty,
                }),
            ),
            final(self).buffer().entries() == old(self).buffer().entries(),
    {
        self.buffer_manager.guard_page_mut(guard)
    }
}

} // verus!
