//! Handles on the songs of the pool.

use crate::id_generator::Id;
use vstd::prelude::*;

verus! {

/// A counted handle on a song of the pool: the identifier of the song and
/// the number of the object that holds it. Two handles with the same number
/// are handles on one and the same object.
#[derive(Copy, Clone, Debug)]
pub struct SongRef {
    pub id: Id,
    pub object: u64,
}

impl SongRef {
    /// Both are handles on the same song.
    pub open spec fn same_song(self, other: SongRef) -> bool {
        self.id.same_id(other.id)
    }

    /// Both are handles on one and the same object.
    pub open spec fn same_object(self, other: SongRef) -> bool {
        self.id.same_id(other.id) && self.object == other.object
    }

    /// Whether both are handles on the same song.
    pub fn is_same_song(&self, other: &SongRef) -> (same: bool)
        ensures
            same == self.same_song(*other),
    {
        self.id == other.id
    }

    /// Whether both are handles on one and the same object.
    pub fn is_same_object(&self, other: &SongRef) -> (same: bool)
        ensures
            same == self.same_object(*other),
    {
        self.id == other.id && self.object == other.object
    }
}

} // verus!
