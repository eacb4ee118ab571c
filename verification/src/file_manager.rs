//! The file-manager abstraction: positional page I/O addressed by
//! `PageId`, and an in-memory implementation used for tests and as the
//! reference model of the on-disk layout.

use vstd::prelude::*;
use crate::page_id::PageId;

verus! {

/// A `FileManager` manages a collection of fixed-size pages addressed by
/// `PageId`. Implementations choose the backing storage; a disk-backed
/// implementation reads and writes page `p` of a file at byte offset
/// `p * PAGE_SIZE`. The `stored` model is the manager's current page
/// contents: reads return exactly what was last written, and report a miss
/// exactly for pages never written.
pub trait FileManager: Sized {
    /// The pages the manager currently holds, by id. Implementations that
    /// live outside the proofs inherit the default model and promise
    /// nothing about what their reads return.
    open spec fn stored(&self) -> Map<PageId, Seq<u8>> {
        Map::empty()
    }

    /// Reads the page identified by `page_id` into `destination`, which
    /// must hold exactly one page. Returns `true` exactly when the page is
    /// stored; its bytes are then copied into `destination`. On `false`
    /// the destination is unchanged. Reading never changes what is stored.
    fn read_page(&mut self, page_id: PageId, destination: &mut Vec<u8>) -> (found: bool)
        requires
            old(destination)@.len() == 4096,
        ensures
            final(destination)@.len() == 4096,
            final(self).stored() == old(self).stored(),
            found <==> old(self).stored().contains_key(page_id),
            found ==> final(destination)@ == old(self).stored()[page_id],
            !found ==> final(destination)@ == old(destination)@,
    ;

    /// Writes `page_data`, exactly one page, as the content of the page
    /// identified by `page_id`, shadowing any earlier write.
    fn write_page(&mut self, page_id: PageId, page_data: &Vec<u8>)
        requires
            page_data@.len() == 4096,
        ensures
            final(self).stored() == old(self).stored().insert(page_id, page_data@),
    ;
}

/// The pages denoted by a sequence of writes: later writes to the same
/// page shadow earlier ones. Anything that is not exactly one page long is
/// ignored; the store never holds such an entry.
pub open spec fn writes_map(s: Seq<(PageId, Vec<u8>)>) -> Map<PageId, Seq<u8>>
    decreases s.len(),
{
    if s.len() == 0 {
        Map::empty()
    } else if s.last().1@.len() == 4096 {
        writes_map(s.drop_last()).insert(s.last().0, s.last().1@)
    } else {
        writes_map(s.drop_last())
    }
}

/// An in-memory file manager: pages live in a map instead of on disk.
pub struct InMemoryFileManager {
    data_dir: String,
    pages: Vec<(PageId, Vec<u8>)>,
}

impl InMemoryFileManager {
    /// Creates a new empty in-memory file manager for the given directory
    /// name (kept only for symmetry with disk-backed managers).
    pub fn new(data_dir: String) -> (r: InMemoryFileManager)
        ensures
            r.stored() == Map::<PageId, Seq<u8>>::empty(),
    {
        InMemoryFileManager { data_dir, pages: Vec::new() }
    }
}

impl FileManager for InMemoryFileManager {
    /// The pages currently stored.
    closed spec fn stored(&self) -> Map<PageId, Seq<u8>> {
        writes_map(self.pages@)
    }

    /// Copies the stored page into `destination` and returns `true`, or
    /// returns `false` leaving `destination` unchanged when the page was
    /// never written. Reading back a written page yields exactly the bytes
    /// written.
    fn read_page(&mut self, page_id: PageId, destination: &mut Vec<u8>) -> (found: bool) {
        let ghost s = self.pages@;
        let mut i: usize = self.pages.len();
        proof {
            assert(s.take(i as int) =~= s);
        }
        while i > 0
            invariant
                i <= self.pages.len(),
                s == self.pages@,
                destination@ == old(destination)@,
                destination@.len() == 4096,
                writes_map(s).contains_key(page_id) <==> writes_map(s.take(i as int)).contains_key(
                    page_id,
                ),
                writes_map(s).contains_key(page_id) ==> writes_map(s)[page_id] == writes_map(
                    s.take(i as int),
                )[page_id],
            decreases i,
        {
            proof {
                assert(s.take(i as int).drop_last() =~= s.take(i - 1));
                assert(s.take(i as int).last() == s[i - 1]);
            }
            let hit = self.pages[i - 1].0 == page_id && self.pages[i - 1].1.len()
                == destination.len();
            if hit {
                proof {
                    assert(writes_map(s.take(i as int))[page_id] == s[i - 1].1@);
                }
                let mut k: usize = 0;
                let n = destination.len();
                while k < n
                    invariant
                        k <= n,
                        i >= 1,
                        (i as int) <= self.pages@.len(),
                        s == self.pages@,
                        n == destination@.len(),
                        n == s[i - 1].1@.len(),
                        forall|b: int| 0 <= b < k ==> #[trigger] destination@[b] == s[i - 1].1@[b],
                    decreases n - k,
                {
                    destination[k] = self.pages[i - 1].1[k];
                    k = k + 1;
                }
                proof {
                    assert(destination@ =~= s[i - 1].1@);
                }
                return true;
            }
            i = i - 1;
        }
        proof {
            assert(s.take(0) =~= Seq::<(PageId, Vec<u8>)>::empty());
        }
        false
    }

    /// Stores a copy of `page_data` as the page's content, shadowing any
    /// earlier write to the same page.
    fn write_page(&mut self, page_id: PageId, page_data: &Vec<u8>) {
        let ghost s0 = self.pages@;
        let mut copy: Vec<u8> = Vec::new();
        let mut k: usize = 0;
        let n = page_data.len();
        while k < n
            invariant
                k <= n,
                n == page_data@.len(),
                copy@ =~= page_data@.take(k as int),
            decreases n - k,
        {
            copy.push(page_data[k]);
            k = k + 1;
        }
        proof {
            assert(copy@ =~= page_data@);
        }
        self.pages.push((page_id, copy));
        proof {
            assert(self.pages@.drop_last() =~= s0);
        }
    }
}

} // verus!
