use vstd::prelude::*;

use crate::util::{fresh_id, os_random_bytes};

verus! {

/// One entry of the registry: a named collection, the path of its
/// encrypted credential file, and the 32-byte salt its keys are derived
/// with. The salt is public but permanently bound to the collection:
/// it is drawn once at creation and never regenerated, since changing
/// it would invalidate everything encrypted under it. Text fields are
/// opaque UTF-8 byte strings.
pub struct Collection {
    pub id: Vec<u8>,
    pub name: Vec<u8>,
    pub file_path: Vec<u8>,
    pub salt: Vec<u8>,
}

/// The mathematical value of a registry entry.
pub struct CollectionData {
    pub id: Seq<u8>,
    pub name: Seq<u8>,
    pub file_path: Seq<u8>,
    pub salt: Seq<u8>,
}

impl View for Collection {
    type V = CollectionData;

    open spec fn view(&self) -> CollectionData {
        CollectionData {
            id: self.id@,
            name: self.name@,
            file_path: self.file_path@,
            salt: self.salt@,
        }
    }
}

impl Collection {
    /// A registry entry carries a full-size salt.
    pub open spec fn wf(&self) -> bool {
        self.salt@.len() == 32
    }

    /// A new collection with a fresh random identifier and a fresh
    /// 32-byte salt from the operating system's secure random source.
    pub fn new(name: Vec<u8>, file_path: Vec<u8>) -> (r: Collection)
        ensures
            r.wf(),
            r.id@.len() == 36,
            r.name@ == name@,
            r.file_path@ == file_path@,
    {
        Collection { id: fresh_id(), name, file_path, salt: os_random_bytes(32) }
    }
}

} // verus!
