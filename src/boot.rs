//! Reconstruction of the cache store from the files of the cache directory.
use vstd::prelude::*;
use crate::codec::{decode_spec, generate_key_from_filename, join_file, join_path};
use crate::content::{determine_content_type, sniff_window, sniffed_mime, type_for_mime};
use crate::lru_slots::Slot;
use crate::store::{rebuild_slots, slots_of, CacheEntry, CacheStore};

verus! {

/// A regular file found in the cache directory: its name and its leading
/// bytes (as many as could be read, up to the sniffer's window).
pub struct DiskFile {
    pub name: String,
    pub head: Vec<u8>,
}

/// The slot that file `f` of directory `dir` stands for: the key its name
/// decodes to, its location, and the content type sniffed from its head.
pub open spec fn file_slot(dir: Seq<char>, f: DiskFile) -> Slot {
    (
        decode_spec(f.name@),
        (join_path(dir, f.name@), type_for_mime(sniffed_mime(sniff_window(f.head@)))),
    )
}

/// The slots that the files of directory `dir` stand for, in listing order.
pub open spec fn boot_slots(dir: Seq<char>, files: Seq<DiskFile>) -> Seq<Slot> {
    files.map_values(|f: DiskFile| file_slot(dir, f))
}

/// The (key, entry) pairs for the files of directory `dir`, in listing order.
pub fn boot_entries(dir: &str, files: &Vec<DiskFile>) -> (r: Vec<(String, CacheEntry)>)
    ensures
        slots_of(r@) == boot_slots(dir@, files@),
{
    let mut r: Vec<(String, CacheEntry)> = Vec::new();
    let mut i: usize = 0;
    while i < files.len()
        invariant
            i <= files@.len(),
            r@.len() == i,
            forall|j: int| 0 <= j < i ==> ((#[trigger] r@[j]).0@, r@[j].1@) == file_slot(dir@, files@[j]),
        decreases files@.len() - i,
    {
        let f = &files[i];
        let key = generate_key_from_filename(f.name.as_str());
        let path = join_file(dir, f.name.as_str());
        let content_type = determine_content_type(f.head.as_slice());
        r.push((key, CacheEntry { path, content_type }));
        i = i + 1;
    }
    assert(slots_of(r@) =~= boot_slots(dir@, files@));
    r
}

impl CacheStore {
    /// Replaces the content of the store by the files of directory `dir`, as
    /// at start-up: each file's name is decoded into its key and its content
    /// type is sniffed from its head. The bound is not applied here.
    pub fn rebuild_from_files(&mut self, dir: &str, files: &Vec<DiskFile>)
        requires
            old(self).wf(),
        ensures
            final(self).wf(),
            final(self).cap() == old(self).cap(),
            final(self)@ == rebuild_slots(boot_slots(dir@, files@)),
    {
        let entries = boot_entries(dir, files);
        self.rebuild_all(entries);
    }
}

} // verus!
