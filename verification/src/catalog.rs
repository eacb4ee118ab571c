//! The file catalog: a process-wide mapping from file ids to filesystem
//! paths.

use vstd::prelude::*;
use crate::page_id::FileId;

verus! {

/// The mapping denoted by a sequence of registrations: later registrations
/// for the same id shadow earlier ones.
pub open spec fn registrations_map(s: Seq<(FileId, String)>) -> Map<FileId, Seq<char>>
    decreases s.len(),
{
    if s.len() == 0 {
        Map::empty()
    } else {
        registrations_map(s.drop_last()).insert(s.last().0, s.last().1@)
    }
}

/// Catalog holding the mappings between a `FileId` and the path of the file
/// it names.
pub struct FileCatalog {
    mappings: Vec<(FileId, String)>,
}

impl FileCatalog {
    /// The mapping the catalog currently holds.
    pub closed spec fn catalog(&self) -> Map<FileId, Seq<char>> {
        registrations_map(self.mappings@)
    }

    /// Creates a new empty catalog.
    pub fn new() -> (r: FileCatalog)
        ensures
            r.catalog() == Map::<FileId, Seq<char>>::empty(),
    {
        FileCatalog { mappings: Vec::new() }
    }

    /// Registers a mapping from `file_id` to `path`, shadowing any earlier
    /// registration of the same id.
    pub fn add_file(&mut self, file_id: FileId, path: String)
        ensures
            final(self).catalog() == old(self).catalog().insert(file_id, path@),
    {
        let ghost s0 = self.mappings@;
        self.mappings.push((file_id, path));
        proof {
            assert(self.mappings@.drop_last() =~= s0);
        }
    }

    /// Resolves `file_id` to the path it was last registered with, or
    /// `None` when the id is unknown.
    pub fn get_file_name(&self, file_id: FileId) -> (r: Option<String>)
        ensures
            match r {
                Some(p) => self.catalog().contains_key(file_id) && p@ == self.catalog()[file_id],
                None => !self.catalog().contains_key(file_id),
            },
    {
        let ghost s = self.mappings@;
        let mut i: usize = self.mappings.len();
        proof {
            assert(s.take(i as int) =~= s);
        }
        while i > 0
            invariant
                i <= self.mappings.len(),
                s == self.mappings@,
                registrations_map(s).contains_key(file_id) <==> registrations_map(
                    s.take(i as int),
                ).contains_key(file_id),
                registrations_map(s).contains_key(file_id) ==> registrations_map(s)[file_id]
                    == registrations_map(s.take(i as int))[file_id],
            decreases i,
        {
            proof {
                assert(s.take(i as int).drop_last() =~= s.take(i - 1));
                assert(s.take(i as int).last() == s[i - 1]);
            }
            let entry_id = self.mappings[i - 1].0;
            if entry_id == file_id {
                let path = self.mappings[i - 1].1.clone();
                proof {
                    assert(registrations_map(s.take(i as int))[file_id] == s[i - 1].1@);
                }
                return Some(path);
            }
            i = i - 1;
        }
        proof {
            assert(s.take(0) =~= Seq::<(FileId, String)>::empty());
        }
        None
    }
}

} // verus!
