use vstd::prelude::*;
use crate::models::device::str_eq;

verus! {

broadcast use vstd::string::group_string_axioms;

/// The image list of a system-image server's `index.json`.
#[derive(Debug, Clone)]
pub struct SystemImageIndex {
    pub images: Vec<SystemImageEntry>,
}

/// A single image entry (full or delta update).
#[derive(Debug, Clone)]
pub struct SystemImageEntry {
    pub image_type: String,
    pub version: u32,
    pub files: Vec<SystemImageFile>,
}

/// A file within a system-image entry.
#[derive(Debug, Clone)]
pub struct SystemImageFile {
    /// Path on the server (e.g. "/pool/ubports-foo.tar.xz").
    pub path: String,
    /// SHA256 checksum.
    pub checksum: String,
    /// Installation order.
    pub order: u32,
    /// File size in bytes.
    pub size: u64,
    /// Path of the `.asc` signature file.
    pub signature: String,
}

pub open spec fn is_full(e: SystemImageEntry) -> bool {
    e.image_type@ == "full"@
}

/// `i` is the latest full image: a full entry with the highest version among
/// the full ones, and the last such entry when several share that version.
pub open spec fn is_latest_full(images: Seq<SystemImageEntry>, i: int) -> bool {
    &&& 0 <= i < images.len()
    &&& is_full(images[i])
    &&& forall|j: int| 0 <= j < images.len() && is_full(#[trigger] images[j]) ==> images[j].version <= images[i].version
    &&& forall|j: int| i < j < images.len() && is_full(#[trigger] images[j]) ==> images[j].version < images[i].version
}

impl SystemImageIndex {
    /// Find the latest "full" image entry (highest version number; on a tie,
    /// the one listed last).
    pub fn latest_full(&self) -> (r: Option<&SystemImageEntry>)
        ensures
            r is None <==> forall|j: int| 0 <= j < self.images@.len() ==> !is_full(#[trigger] self.images@[j]),
            r matches Some(e) ==> exists|i: int| is_latest_full(self.images@, i) && self.images@[i] == *e,
    {
        let mut best: Option<usize> = None;
        for k in 0..self.images.len()
            invariant
                best matches Some(b) ==> b < k && is_latest_full(self.images@.take(k as int), b as int),
                best is None ==> forall|j: int| 0 <= j < k ==> !is_full(#[trigger] self.images@[j]),
        {
            let ghost prev = self.images@.take(k as int);
            let ghost next = self.images@.take(k + 1);
            assert(next.drop_last() =~= prev);
            if str_eq(self.images[k].image_type.as_str(), "full") {
                match best {
                    None => {
                        best = Some(k);
                    },
                    Some(b) => {
                        if self.images[k].version >= self.images[b].version {
                            best = Some(k);
                        }
                    },
                }
            }
            proof {
                match best {
                    Some(b) => {
                        assert forall|j: int| 0 <= j < next.len() && is_full(#[trigger] next[j]) implies next[j].version <= next[b as int].version by {
                            if j < k {
                                assert(next[j] == prev[j]);
                            }
                        }
                        assert forall|j: int| b < j < next.len() && is_full(#[trigger] next[j]) implies next[j].version < next[b as int].version by {
                            if j < k {
                                assert(next[j] == prev[j]);
                            }
                        }
                    },
                    None => {},
                }
            }
        }
        assert(self.images@.take(self.images.len() as int) =~= self.images@);
        match best {
            None => None,
            Some(b) => Some(&self.images[b]),
        }
    }
}

} // verus!
