//! Equality of songs: two songs are equal when their identifiers are.

use crate::song::Song;
use vstd::prelude::*;
use vstd::std_specs::cmp::PartialEqSpecImpl;

verus! {

impl PartialEq for Song {
    fn eq(&self, other: &Self) -> (equal: bool) {
        self.is_same_song(other)
    }
}

impl PartialEqSpecImpl for Song {
    open spec fn obeys_eq_spec() -> bool {
        true
    }

    open spec fn eq_spec(&self, other: &Self) -> bool {
        self.same_song(*other)
    }
}

impl Eq for Song {

}

} // verus!
