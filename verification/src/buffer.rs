//! The buffer pool: a fixed array of frames that cache pages in memory,
//! with a page map recording which frame holds which page.
//!
//! A page is brought in by `read_page`, `read_page_mut` (loading it through
//! the file manager on a miss) or `allocate_new_page` (claiming a frame for
//! a page with no on-disk contents yet). Callers receive guards naming the
//! frame; the page itself is reached through the guard accessors. There is
//! no eviction: once every frame is claimed, further loads fail with
//! `BufferFull`. A failed load rolls back both the frame claim and the page
//! map, so a later call can retry.

use vstd::prelude::*;
use crate::file_manager::FileManager;
use crate::page::Page;
use crate::page_id::PageId;

verus! {

/// The id of a frame: its index in the buffer's frame array.
pub type FrameId = usize;

/// Buffer errors.
#[derive(Debug, Clone, Copy, PartialEq, Eq, Structural)]
pub enum BufferError {
    /// Every frame is claimed and no eviction exists.
    BufferFull,
    /// The file manager could not read the page.
    IoReadFailed(PageId),
}

/// A frame: memory for one page, with the metadata the pool needs.
pub struct BufferFrame {
    /// The page hosted by this frame.
    pub page: Page,
    /// The id of the hosted page; `None` means the frame is free.
    pub page_id: Option<PageId>,
    /// Number of outstanding references preventing eviction.
    pub pin_count: u32,
    /// Whether the page was mutated since it was loaded.
    pub dirty: bool,
}

/// The residency map denoted by a sequence of page-map entries: later
/// entries for the same page shadow earlier ones.
pub open spec fn entries_map(s: Seq<(PageId, FrameId)>) -> Map<PageId, FrameId>
    decreases s.len(),
{
    if s.len() == 0 {
        Map::empty()
    } else {
        entries_map(s.drop_last()).insert(s.last().0, s.last().1)
    }
}

/// Shared read access to a page resident in a frame.
#[derive(Debug, Clone, Copy)]
pub struct PageReadGuard {
    frame_id: FrameId,
    page_id: PageId,
}

/// Exclusive write access to a page resident in a frame.
#[derive(Debug)]
pub struct PageWriteGuard {
    frame_id: FrameId,
    page_id: PageId,
}

impl PageReadGuard {
    /// The frame the guard names.
    pub closed spec fn frame_spec(&self) -> FrameId {
        self.frame_id
    }

    /// The page the guard names.
    pub closed spec fn page_id_spec(&self) -> PageId {
        self.page_id
    }

    /// Returns the id of the guarded page.
    pub fn page_id(&self) -> (r: PageId)
        ensures
            r == self.page_id_spec(),
    {
        self.page_id
    }
}

impl PageWriteGuard {
    /// The frame the guard names.
    pub closed spec fn frame_spec(&self) -> FrameId {
        self.frame_id
    }

    /// The page the guard names.
    pub closed spec fn page_id_spec(&self) -> PageId {
        self.page_id
    }

    /// Returns the id of the guarded page.
    pub fn page_id(&self) -> (r: PageId)
        ensures
            r == self.page_id_spec(),
    {
        self.page_id
    }
}

/// The buffer manager: the frame array, the page map, and the file manager
/// used to fill frames on a miss.
pub struct BufferManager<F: FileManager> {
    file_manager: F,
    page_map: Vec<(PageId, FrameId)>,
    frames: Vec<BufferFrame>,
}

impl<F: FileManager> BufferManager<F> {
    /// The frame array.
    pub closed spec fn pool(&self) -> Seq<BufferFrame> {
        self.frames@
    }

    /// The page map's entries.
    pub closed spec fn entries(&self) -> Seq<(PageId, FrameId)> {
        self.page_map@
    }

    /// The owned file manager.
    pub closed spec fn manager(&self) -> F {
        self.file_manager
    }

    /// Which frame each known page resides in.
    pub open spec fn residency(&self) -> Map<PageId, FrameId> {
        entries_map(self.entries())
    }

    /// Every frame hosts a well-formed page, and every page-map entry
    /// points at a frame claimed for that page.
    pub open spec fn wf(&self) -> bool {
        &&& forall|i: int| 0 <= i < self.pool().len() ==> (#[trigger] self.pool()[i]).page.wf()
        &&& forall|p: PageId|
            self.residency().contains_key(p) ==> #[trigger] self.residency()[p]
                < self.pool().len() && self.pool()[self.residency()[p] as int].page_id == Some(p)
    }

    /// Creates a new buffer manager with `pool_size` free, zeroed frames
    /// and an empty page map.
    pub fn new(file_manager: F, pool_size: usize) -> (r: BufferManager<F>)
        ensures
            r.wf(),
            r.pool().len() == pool_size,
            forall|i: int|
                0 <= i < pool_size ==> (#[trigger] r.pool()[i]).page_id is None && r.pool()[i].pin_count
                    == 0 && r.pool()[i].dirty == false && (forall|b: int|
                    0 <= b < 4096 ==> r.pool()[i].page.bytes()[b] == 0u8),
            r.residency() == Map::<PageId, FrameId>::empty(),
            r.manager() == file_manager,
    {
        let mut frames: Vec<BufferFrame> = Vec::new();
        let mut i: usize = 0;
        while i < pool_size
            invariant
                i <= pool_size,
                frames@.len() == i,
                forall|j: int|
                    0 <= j < i ==> (#[trigger] frames@[j]).page_id is None && frames@[j].pin_count
                        == 0 && frames@[j].dirty == false && frames@[j].page.wf() && (forall|b: int|
                        0 <= b < 4096 ==> frames@[j].page.bytes()[b] == 0u8),
            decreases pool_size - i,
        {
            frames.push(
                BufferFrame {
                    page: Page::new_zeroed(PageId::new(0, 0)),
                    page_id: None,
                    pin_count: 0,
                    dirty: false,
                },
            );
            i = i + 1;
        }
        BufferManager { file_manager, page_map: Vec::new(), frames }
    }

    /// Scans the frames in increasing index order and claims the first
    /// free one for `for_page_id`: the frame's page id is set, its pin
    /// count becomes 1 and its dirty mark is cleared. Returns `None`, and
    /// changes nothing, when every frame is claimed.
    pub fn claim_free_frame(&mut self, for_page_id: PageId) -> (r: Option<FrameId>)
        ensures
            final(self).entries() == old(self).entries(),
            final(self).manager() == old(self).manager(),
            match r {
                Some(fid) => {
                    &&& fid < old(self).pool().len()
                    &&& old(self).pool()[fid as int].page_id is None
                    &&& forall|j: int| 0 <= j < fid ==> (#[trigger] old(self).pool()[j]).page_id is Some
                    &&& final(self).pool() == old(self).pool().update(
                        fid as int,
                        (BufferFrame {
                            page: old(self).pool()[fid as int].page,
                            page_id: Some(for_page_id),
                            pin_count: 1,
                            dirty: false,
                        }),
                    )
                },
                None => {
                    &&& forall|j: int|
                        0 <= j < old(self).pool().len() ==> (#[trigger] old(self).pool()[j]).page_id is Some
                    &&& final(self).pool() == old(self).pool()
                },
            },
    {
        let n = self.frames.len();
        let mut i: usize = 0;
        while i < n
            invariant
                i <= n,
                n == self.frames@.len(),
                self.frames@ == old(self).pool(),
                self.page_map@ == old(self).entries(),
                self.file_manager == old(self).manager(),
                forall|j: int| 0 <= j < i ==> (#[trigger] self.frames@[j]).page_id is Some,
            decreases n - i,
        {
            let is_free = match self.frames[i].page_id {
                None => true,
                Some(p) => false,
            };
            if is_free {
                let fr = &mut self.frames[i];
                fr.page_id = Some(for_page_id);
                fr.pin_count = 1;
                fr.dirty = false;
                proof {
                    assert(final(self).pool() =~= old(self).pool().update(
                        i as int,
                        (BufferFrame {
                            page: old(self).pool()[i as int].page,
                            page_id: Some(for_page_id),
                            pin_count: 1,
                            dirty: false,
                        }),
                    ));
                }
                return Some(i);
            }
            i = i + 1;
        }
        None
    }

    /// The conditions common to a successful page lookup or load: the
    /// returned frame hosts the page and the page map records it.
    pub open spec fn load_post(old_self: Self, new_self: Self, page_id: PageId, fid: FrameId) -> bool {
        &&& fid < new_self.pool().len()
        &&& new_self.pool()[fid as int].page_id == Some(page_id)
        &&& new_self.residency().contains_key(page_id)
        &&& new_self.residency()[page_id] == fid
        &&& if old_self.residency().contains_key(page_id) {
            // Cache hit: the page was already resident and nothing moved.
            &&& fid == old_self.residency()[page_id]
            &&& new_self.pool() == old_self.pool()
            &&& new_self.entries() == old_self.entries()
            &&& new_self.manager() == old_self.manager()
        } else {
            // Miss: the first free frame was claimed, filled with exactly
            // the page the file manager stores, and recorded.
            &&& fid < old_self.pool().len()
            &&& old_self.pool()[fid as int].page_id is None
            &&& (forall|j: int| 0 <= j < fid ==> (#[trigger] old_self.pool()[j]).page_id is Some)
            &&& new_self.entries() == old_self.entries().push((page_id, fid))
            &&& old_self.manager().stored().contains_key(page_id)
            &&& new_self.manager().stored() == old_self.manager().stored()
            &&& exists|p: Page|
                #[trigger] p.wf() && p.id() == page_id && p.bytes() == old_self.manager().stored()[page_id]
                    && new_self.pool() == old_self.pool().update(
                    fid as int,
                    (BufferFrame { page: p, page_id: Some(page_id), pin_count: 1, dirty: false }),
                )
        }
    }

    /// Looks the page up in the page map; on a miss, claims a free frame,
    /// fills it through the file manager and records the page. The shared
    /// logic behind `read_page` and `read_page_mut`.
    fn get_or_load(&mut self, page_id: PageId) -> (r: Result<FrameId, BufferError>)
        requires
            old(self).wf(),
        ensures
            final(self).wf(),
            match r {
                Ok(fid) => Self::load_post(*old(self), *final(self), page_id, fid),
                Err(e) => {
                    &&& !old(self).residency().contains_key(page_id)
                    &&& final(self).entries() == old(self).entries()
                    &&& match e {
                        BufferError::BufferFull => final(self).pool() == old(self).pool() && (
                        forall|j: int|
                            0 <= j < old(self).pool().len() ==> (#[trigger] old(self).pool()[j]).page_id is Some)
                            && final(self).manager() == old(self).manager(),
                        BufferError::IoReadFailed(p) => p == page_id && !old(
                            self,
                        ).manager().stored().contains_key(page_id) && final(self).manager().stored() == old(
                            self,
                        ).manager().stored() && exists|fid: int|
                            0 <= fid < old(self).pool().len() && (#[trigger] old(self).pool()[fid]).page_id is None
                                && final(self).pool() == old(self).pool().update(
                                fid,
                                (BufferFrame {
                                    page: old(self).pool()[fid].page,
                                    page_id: None,
                                    pin_count: 1,
                                    dirty: false,
                                }),
                            ),
                    }
                },
            },
    {
        // Probe the page map, newest entry first.
        let ghost s = self.page_map@;
        let mut i: usize = self.page_map.len();
        proof {
            assert(s.take(i as int) =~= s);
        }
        while i > 0
            invariant
                i <= self.page_map.len(),
                s == self.page_map@,
                self.wf(),
                self.pool() == old(self).pool(),
                self.entries() == old(self).entries(),
                self.manager() == old(self).manager(),
                entries_map(s).contains_key(page_id) <==> entries_map(s.take(i as int)).contains_key(
                    page_id,
                ),
                entries_map(s).contains_key(page_id) ==> entries_map(s)[page_id] == entries_map(
                    s.take(i as int),
                )[page_id],
            decreases i,
        {
            proof {
                assert(s.take(i as int).drop_last() =~= s.take(i - 1));
                assert(s.take(i as int).last() == s[i - 1]);
            }
            let hit = self.page_map[i - 1].0 == page_id;
            if hit {
                let fid = self.page_map[i - 1].1;
                proof {
                    assert(entries_map(s.take(i as int))[page_id] == s[i - 1].1);
                    assert(self.residency()[page_id] == fid);
                }
                return Ok(fid);
            }
            i = i - 1;
        }
        proof {
            assert(s.take(0) =~= Seq::<(PageId, FrameId)>::empty());
            assert(!self.residency().contains_key(page_id));
        }
        // Miss: claim a free frame and fill it from storage.
        let fid = match self.claim_free_frame(page_id) {
            Some(f) => f,
            None => {
                return Err(BufferError::BufferFull);
            },
        };
        let mut buf: Vec<u8> = vec![0u8; 4096];
        let okread = self.file_manager.read_page(page_id, &mut buf);
        if !okread {
            // Roll back the claim; the map was never touched, so a later
            // call can retry the load.
            let fr = &mut self.frames[fid];
            fr.page_id = None;
            proof {
                assert(self.pool() =~= old(self).pool().update(
                    fid as int,
                    (BufferFrame {
                        page: old(self).pool()[fid as int].page,
                        page_id: None,
                        pin_count: 1,
                        dirty: false,
                    }),
                ));
                assert forall|p: PageId|
                    self.residency().contains_key(p) implies #[trigger] self.residency()[p]
                    < self.pool().len() && self.pool()[self.residency()[p] as int].page_id == Some(
                    p,
                ) by {
                    assert(old(self).residency().contains_key(p));
                    assert(self.residency()[p] != fid);
                }
                assert forall|i: int|
                    0 <= i < self.pool().len() implies (#[trigger] self.pool()[i]).page.wf() by {
                    assert(old(self).pool()[i].page.wf());
                }
            }
            return Err(BufferError::IoReadFailed(page_id));
        }
        let loaded = Page::new_from_bytes(buf, page_id);
        let fr = &mut self.frames[fid];
        fr.page = loaded;
        let ghost s1 = self.page_map@;
        self.page_map.push((page_id, fid));
        proof {
            assert(self.page_map@.drop_last() =~= s1);
            assert(self.pool() =~= old(self).pool().update(
                fid as int,
                (BufferFrame { page: loaded, page_id: Some(page_id), pin_count: 1, dirty: false }),
            ));
            assert forall|p: PageId|
                self.residency().contains_key(p) implies #[trigger] self.residency()[p]
                < self.pool().len() && self.pool()[self.residency()[p] as int].page_id == Some(
                p,
            ) by {
                if p != page_id {
                    assert(old(self).residency().contains_key(p));
                }
            }
            assert forall|i: int|
                0 <= i < self.pool().len() implies (#[trigger] self.pool()[i]).page.wf() by {
                if i != fid as int {
                    assert(old(self).pool()[i].page.wf());
                }
            }
        }
        Ok(fid)
    }

    /// Retrieves a page by id, loading it from storage on a miss, and
    /// returns a read guard naming the hosting frame.
    pub fn read_page(&mut self, page_id: PageId) -> (r: Result<PageReadGuard, BufferError>)
        requires
            old(self).wf(),
        ensures
            final(self).wf(),
            match r {
                Ok(g) => g.page_id_spec() == page_id && Self::load_post(
                    *old(self),
                    *final(self),
                    page_id,
                    g.frame_spec(),
                ),
                Err(e) => {
                    &&& !old(self).residency().contains_key(page_id)
                    &&& final(self).entries() == old(self).entries()
                    &&& final(self).wf()
                    &&& match e {
                        BufferError::BufferFull => final(self).pool() == old(self).pool() && (
                        forall|j: int|
                            0 <= j < old(self).pool().len() ==> (#[trigger] old(self).pool()[j]).page_id is Some)
                            && final(self).manager() == old(self).manager(),
                        BufferError::IoReadFailed(p) => p == page_id && !old(
                            self,
                        ).manager().stored().contains_key(page_id) && final(self).manager().stored() == old(
                            self,
                        ).manager().stored() && exists|fid: int|
                            0 <= fid < old(self).pool().len() && (#[trigger] old(self).pool()[fid]).page_id is None
                                && final(self).pool() == old(self).pool().update(
                                fid,
                                (BufferFrame {
                                    page: old(self).pool()[fid].page,
                                    page_id: None,
                                    pin_count: 1,
                                    dirty: false,
                                }),
                            ),
                    }
                },
            },
    {
        match self.get_or_load(page_id) {
            Ok(fid) => Ok(PageReadGuard { frame_id: fid, page_id }),
            Err(e) => Err(e),
        }
    }

    /// Retrieves a page by id, loading it from storage on a miss, and
    /// returns a write guard naming the hosting frame.
    pub fn read_page_mut(&mut self, page_id: PageId) -> (r: Result<PageWriteGuard, BufferError>)
        requires
            old(self).wf(),
        ensures
            final(self).wf(),
            match r {
                Ok(g) => g.page_id_spec() == page_id && Self::load_post(
                    *old(self),
                    *final(self),
                    page_id,
                    g.frame_spec(),
                ),
                Err(e) => {
                    &&& !old(self).residency().contains_key(page_id)
                    &&& final(self).entries() == old(self).entries()
                    &&& final(self).wf()
                    &&& match e {
                        BufferError::BufferFull => final(self).pool() == old(self).pool() && (
                        forall|j: int|
                            0 <= j < old(self).pool().len() ==> (#[trigger] old(self).pool()[j]).page_id is Some)
                            && final(self).manager() == old(self).manager(),
                        BufferError::IoReadFailed(p) => p == page_id && !old(
                            self,
                        ).manager().stored().contains_key(page_id) && final(self).manager().stored() == old(
                            self,
                        ).manager().stored() && exists|fid: int|
                            0 <= fid < old(self).pool().len() && (#[trigger] old(self).pool()[fid]).page_id is None
                                && final(self).pool() == old(self).pool().update(
                                fid,
                                (BufferFrame {
                                    page: old(self).pool()[fid].page,
                                    page_id: None,
                                    pin_count: 1,
                                    dirty: false,
                                }),
                            ),
                    }
                },
            },
    {
        match self.get_or_load(page_id) {
            Ok(fid) => Ok(PageWriteGuard { frame_id: fid, page_id }),
            Err(e) => Err(e),
        }
    }

    /// Claims a free frame for a page with no on-disk contents yet,
    /// records it in the page map, and returns a write guard. The caller
    /// is responsible for initializing the page.
    pub fn allocate_new_page(&mut self, page_id: PageId) -> (r: Result<
        PageWriteGuard,
        BufferError,
    >)
        requires
            old(self).wf(),
        ensures
            final(self).wf(),
            match r {
                Ok(g) => {
                    &&& g.page_id_spec() == page_id
                    &&& g.frame_spec() < old(self).pool().len()
                    &&& old(self).pool()[g.frame_spec() as int].page_id is None
                    &&& final(self).pool() == old(self).pool().update(
                        g.frame_spec() as int,
                        (BufferFrame {
                            page: old(self).pool()[g.frame_spec() as int].page,
                            page_id: Some(page_id),
                            pin_count: 1,
                            dirty: false,
                        }),
                    )
                    &&& final(self).entries() == old(self).entries().push(
                        (page_id, g.frame_spec()),
                    )
                    &&& final(self).residency() == old(self).residency().insert(
                        page_id,
                        g.frame_spec(),
                    )
                },
                Err(e) => e == BufferError::BufferFull && final(self).pool() == old(self).pool()
                    && final(self).entries() == old(self).entries() && (forall|j: int|
                    0 <= j < old(self).pool().len() ==> (#[trigger] old(self).pool()[j]).page_id is Some),
            },
            final(self).manager() == old(self).manager(),
    {
        let fid = match self.claim_free_frame(page_id) {
            Some(f) => f,
            None => {
                return Err(BufferError::BufferFull);
            },
        };
        let ghost s1 = self.page_map@;
        self.page_map.push((page_id, fid));
        proof {
            assert(self.page_map@.drop_last() =~= s1);
            assert forall|p: PageId|
                self.residency().contains_key(p) implies #[trigger] self.residency()[p]
                < self.pool().len() && self.pool()[self.residency()[p] as int].page_id == Some(
                p,
            ) by {
                if p != page_id {
                    assert(old(self).residency().contains_key(p));
                }
            }
            assert forall|i: int|
                0 <= i < self.pool().len() implies (#[trigger] self.pool()[i]).page.wf() by {
                assert(old(self).pool()[i].page.wf());
            }
        }
        Ok(PageWriteGuard { frame_id: fid, page_id })
    }

    /// Hands the guarded page's bytes to the file manager for a positional
    /// write, consuming the guard. The frame stays resident.
    pub fn write_page(&mut self, page_id: PageId, guard: PageWriteGuard)
        requires
            old(self).wf(),
            guard.frame_spec() < old(self).pool().len(),
            guard.page_id_spec() == page_id,
        ensures
            final(self).wf(),
            final(self).pool() == old(self).pool(),
            final(self).entries() == old(self).entries(),
            final(self).manager().stored() == old(self).manager().stored().insert(
                page_id,
                old(self).pool()[guard.frame_spec() as int].page.bytes(),
            ),
    {
        let fid = guard.frame_id;
        let bytes = self.frames[fid].page.data().clone();
        proof {
            assert(old(self).pool()[fid as int].page.wf());
        }
        self.file_manager.write_page(page_id, &bytes);
    }

    /// Read access to the page a guard names.
    pub fn guard_page(&self, guard: &PageReadGuard) -> (r: &Page)
        requires
            guard.frame_spec() < self.pool().len(),
        ensures
            *r == self.pool()[guard.frame_spec() as int].page,
    {
        &self.frames[guard.frame_id].page
    }

    /// Read access to the page a write guard names.
    pub fn write_guard_page(&self, guard: &PageWriteGuard) -> (r: &Page)
        requires
            guard.frame_spec() < self.pool().len(),
        ensures
            *r == self.pool()[guard.frame_spec() as int].page,
    {
        &self.frames[guard.frame_id].page
    }

    /// Write access to the page a write guard names.
    pub fn guard_page_mut(&mut self, guard: &PageWriteGuard) -> (r: &mut Page)
        requires
            guard.frame_spec() < old(self).pool().len(),
        ensures
            *r == old(self).pool()[guard.frame_spec() as int].page,
            final(self).pool() == old(self).pool().update(
                guard.frame_spec() as int,
                (BufferFrame {
                    page: *final(r),
                    page_id: old(self).pool()[guard.frame_spec() as int].page_id,
                    pin_count: old(self).pool()[guard.frame_spec() as int].pin_count,
                    dirty: old(self).pool()[guard.frame_spec() as int].dirty,
                }),
            ),
            final(self).entries() == old(self).entries(),
            final(self).manager() == old(self).manager(),
    {
        &mut self.frames[guard.frame_id].page
    }

    /// Number of frames in the pool.
    pub fn pool_size(&self) -> (r: usize)
        ensures
            r == self.pool().len(),
    {
        self.frames.len()
    }

    /// The id of the page a frame hosts, or `None` for a free frame.
    pub fn frame_page_id(&self, frame_id: FrameId) -> (r: Option<PageId>)
        requires
            frame_id < self.pool().len(),
        ensures
            r == self.pool()[frame_id as int].page_id,
    {
        self.frames[frame_id].page_id
    }

    /// A frame's pin count.
    pub fn frame_pin_count(&self, frame_id: FrameId) -> (r: u32)
        requires
            frame_id < self.pool().len(),
        ensures
            r == self.pool()[frame_id as int].pin_count,
    {
        self.frames[frame_id].pin_count
    }

    /// A frame's dirty mark.
    pub fn frame_dirty(&self, frame_id: FrameId) -> (r: bool)
        requires
            frame_id < self.pool().len(),
        ensures
            r == self.pool()[frame_id as int].dirty,
    {
        self.frames[frame_id].dirty
    }

    /// Read access to the page a frame hosts.
    pub fn frame_page(&self, frame_id: FrameId) -> (r: &Page)
        requires
            frame_id < self.pool().len(),
        ensures
            *r == self.pool()[frame_id as int].page,
    {
        &self.frames[frame_id].page
    }

    /// Number of entries in the page map.
    pub fn map_len(&self) -> (r: usize)
        ensures
            r == self.entries().len(),
    {
        self.page_map.len()
    }

    /// Read access to the owned file manager.
    pub fn manager_ref(&self) -> (r: &F)
        ensures
            *r == self.manager(),
    {
        &self.file_manager
    }

    /// Durability round trip: after a write-back stored a page's bytes,
    /// any later successful load of that page from a state where it is not
    /// resident (and the stored contents have not changed since) fills the
    /// frame with exactly the written bytes.
    pub proof fn lemma_write_then_load_round_trip(
        written_buf: BufferManager<F>,
        loading_buf: BufferManager<F>,
        loaded_buf: BufferManager<F>,
        page_id: PageId,
        written: Seq<u8>,
        fid: FrameId,
    )
        requires
            written_buf.manager().stored().contains_key(page_id),
            written_buf.manager().stored()[page_id] == written,
            loading_buf.manager().stored() == written_buf.manager().stored(),
            !loading_buf.residency().contains_key(page_id),
            Self::load_post(loading_buf, loaded_buf, page_id, fid),
        ensures
            loaded_buf.pool()[fid as int].page.bytes() == written,
            loaded_buf.pool()[fid as int].page.id() == page_id,
    {
        assert(exists|p: Page|
            #[trigger] p.wf() && p.id() == page_id && p.bytes() == loading_buf.manager().stored()[page_id]
                && loaded_buf.pool() == loading_buf.pool().update(
                fid as int,
                (BufferFrame { page: p, page_id: Some(page_id), pin_count: 1, dirty: false }),
            ));
        let p = choose|p: Page|
            #[trigger] p.wf() && p.id() == page_id && p.bytes() == loading_buf.manager().stored()[page_id]
                && loaded_buf.pool() == loading_buf.pool().update(
                fid as int,
                (BufferFrame { page: p, page_id: Some(page_id), pin_count: 1, dirty: false }),
            );
        assert(fid < loading_buf.pool().len());
        assert(loaded_buf.pool()[fid as int].page == p);
    }
}

} // verus!
