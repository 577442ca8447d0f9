//! Which songs of the list on display are selected.

use crate::song_ref::SongRef;
use vstd::prelude::*;
use vstd::slice::slice_subrange;

verus! {

/// The selection: no song, the songs from one position to another, both
/// counted in, the song at one position, or all songs.
#[derive(Copy, Clone, Debug, PartialEq, Eq, Structural)]
pub enum SelectedSongsVariant {
    Nothing,
    Range { start: usize, end: usize },
    Single(usize),
    All,
}

impl SelectedSongsVariant {
    /// The song at `index` is selected.
    pub open spec fn spec_is_selected(self, index: usize) -> bool {
        match self {
            SelectedSongsVariant::All => true,
            SelectedSongsVariant::Range { start, end } => start <= index <= end,
            SelectedSongsVariant::Single(selected_index) => index == selected_index,
            SelectedSongsVariant::Nothing => false,
        }
    }

    /// The first selected position of a list of `len` songs, or `len`
    /// where none is selected.
    pub open spec fn spec_first(self, len: int) -> int {
        match self {
            SelectedSongsVariant::All => 0,
            SelectedSongsVariant::Range { start, end } => if start < len && start <= end {
                start as int
            } else {
                len
            },
            SelectedSongsVariant::Single(selected_index) => if selected_index < len {
                selected_index as int
            } else {
                len
            },
            SelectedSongsVariant::Nothing => len,
        }
    }

    /// The first position behind the selected ones of a list of `len`
    /// songs.
    pub open spec fn spec_behind(self, len: int) -> int {
        match self {
            SelectedSongsVariant::All => len,
            SelectedSongsVariant::Range { start, end } => if end < len && start <= end {
                end + 1
            } else {
                len
            },
            SelectedSongsVariant::Single(selected_index) => if selected_index < len {
                selected_index + 1
            } else {
                len
            },
            SelectedSongsVariant::Nothing => len,
        }
    }

    /// The selected songs of `songs`, in their order: those at the selected
    /// positions, as far as `songs` has songs there.
    pub open spec fn spec_selected_songs(self, songs: Seq<SongRef>) -> Seq<SongRef> {
        songs.subrange(self.spec_first(songs.len() as int), self.spec_behind(songs.len() as int))
    }

    pub fn is_selected(&self, index: usize) -> (selected: bool)
        ensures
            selected == self.spec_is_selected(index),
    {
        match self {
            SelectedSongsVariant::All => true,
            SelectedSongsVariant::Range { start, end } => *start <= index && index <= *end,
            SelectedSongsVariant::Single(selected_index) => index == *selected_index,
            SelectedSongsVariant::Nothing => false,
        }
    }

    pub fn get_selected_songs<'s>(&self, songs: &'s [SongRef]) -> (selected: &'s [SongRef])
        ensures
            selected@ == self.spec_selected_songs(songs@),
    {
        let len = songs.len();
        let (first, behind): (usize, usize) = match self {
            SelectedSongsVariant::All => (0, len),
            SelectedSongsVariant::Range { start, end } => {
                if *start > *end {
                    (len, len)
                } else {
                    let first = if *start < len {
                        *start
                    } else {
                        len
                    };
                    let behind = if *end < len {
                        *end + 1
                    } else {
                        len
                    };
                    (first, behind)
                }
            },
            SelectedSongsVariant::Single(selected_index) => {
                if *selected_index < len {
                    (*selected_index, *selected_index + 1)
                } else {
                    (len, len)
                }
            },
            SelectedSongsVariant::Nothing => (len, len),
        };
        slice_subrange(songs, first, behind)
    }
}

/// The selected songs are the songs at the selected positions.
pub proof fn lemma_selected_songs(selection: SelectedSongsVariant, songs: Seq<SongRef>, index: usize)
    requires
        index < songs.len(),
    ensures
        selection.spec_first(songs.len() as int) <= selection.spec_behind(songs.len() as int)
            <= songs.len(),
        selection.spec_is_selected(index) <==> selection.spec_first(songs.len() as int) <= index
            < selection.spec_behind(songs.len() as int),
{
}

} // verus!
