//! A song: its identifier and what is known of it, which is read when it is
//! first asked for.

use crate::id_generator::Id;
use crate::sidecar::{spec_decode, spec_encode};
use crate::song_data::{
    spec_default_song_data, spec_probed_views, ProbedTag, ProbedTagView, SongData, SongDataView,
};
use vstd::prelude::*;
use vstd::string::StringExecFns;

verus! {

/// The ending of the name of an audio file.
pub const SONG_AUDIO_EXT: &'static str = ".mp3";

/// The ending of the name of the file that holds what is known of a song.
pub const SONG_DATA_EXT: &'static str = ".snap";

/// The ending of such a name without its dot.
pub const SONG_DATA_EXT_NO_PER: &'static str = "snap";

/// The title of a song that has none.
pub const UNNAMED_SONG_STR: &'static str = "Unnamed Song";

/// A song, as plain values.
pub struct SongView {
    pub id: Id,
    pub song_data: SongDataView,
    pub has_loaded_song_data: bool,
}

/// A song.
#[derive(Debug)]
pub struct Song {
    pub id: Id,
    pub song_data: SongData,
    pub has_loaded_song_data: bool,
}

impl View for Song {
    type V = SongView;

    open spec fn view(&self) -> SongView {
        SongView {
            id: self.id,
            song_data: self.song_data@,
            has_loaded_song_data: self.has_loaded_song_data,
        }
    }
}

impl Clone for Song {
    fn clone(&self) -> (copy: Self)
        ensures
            copy@ == self@,
    {
        Song {
            id: self.id,
            song_data: self.song_data.clone(),
            has_loaded_song_data: self.has_loaded_song_data,
        }
    }
}

/// What is known of a song once its files were read.
///
/// Where the file beside the song can be read, it says what is known.
/// Where it cannot, the tags of the audio file are laid over the data of an
/// unknown song. Either way an empty artist or album becomes the unknown
/// one.
pub open spec fn spec_loaded(sidecar: Option<Seq<u8>>, tags: Seq<ProbedTagView>) -> SongDataView {
    match spec_stored(sidecar) {
        Some(stored) => stored.with_unknowns(),
        None => spec_probed(tags).with_unknowns(),
    }
}

/// What the file beside a song says, where there is one and it can be read.
pub open spec fn spec_stored(sidecar: Option<Seq<u8>>) -> Option<SongDataView> {
    match sidecar {
        Some(bytes) => spec_decode(bytes),
        None => None,
    }
}

/// The tags of an audio file laid over the data of an unknown song.
pub open spec fn spec_probed(tags: Seq<ProbedTagView>) -> SongDataView {
    spec_default_song_data().with_tags(tags)
}

impl Song {
    /// The song `id`, of which nothing was read yet.
    pub fn new(id: Id) -> (song: Self)
        ensures
            song@.id == id,
            song@.song_data == spec_default_song_data(),
            !song@.has_loaded_song_data,
    {
        Song { id, song_data: SongData::default(), has_loaded_song_data: false }
    }

    /// The name of the audio file of the song: its identifier as text, and
    /// the ending of audio files.
    pub fn audio_file_name(&self) -> (name: String)
        ensures
            name@ == self.id.spec_text() + SONG_AUDIO_EXT@,
    {
        self.id.to_string().concat(SONG_AUDIO_EXT)
    }

    /// The name of the file beside the song: its identifier as text, and the
    /// ending of such files.
    pub fn data_file_name(&self) -> (name: String)
        ensures
            name@ == self.id.spec_text() + SONG_DATA_EXT@,
    {
        self.id.to_string().concat(SONG_DATA_EXT)
    }

    /// What is known of the song as far as it was read or set.
    pub fn get_song_data(&self) -> (data: &SongData)
        ensures
            data@ == self@.song_data,
    {
        &self.song_data
    }

    /// Takes in what the files of the song say: `sidecar` holds the bytes of
    /// the file beside the song, or `None` where it could not be read, and
    /// `tags` what was found in the audio file.
    ///
    /// Hands back the bytes to write to the file beside the song, where the
    /// tags of the audio file were used.
    pub fn load_song_data(&mut self, sidecar: Option<&[u8]>, tags: &Vec<ProbedTag>) -> (to_write:
        Option<Vec<u8>>)
        ensures
            final(self)@.id == old(self)@.id,
            final(self)@.has_loaded_song_data,
            final(self)@.song_data == spec_loaded(spec_sidecar(sidecar), spec_probed_views(tags@)),
            match to_write {
                Some(bytes) => spec_stored(spec_sidecar(sidecar)) is None && bytes@ == spec_encode(
                    spec_probed(spec_probed_views(tags@)),
                ),
                None => spec_stored(spec_sidecar(sidecar)) is Some,
            },
    {
        let stored = match sidecar {
            Some(bytes) => SongData::from_bytes(bytes),
            None => None,
        };
        let (mut data, to_write) = match stored {
            Some(data) => (data, None),
            None => {
                let mut data = SongData::default();
                data.apply_probed_tags(tags);
                let bytes = data.to_bytes();
                (data, Some(bytes))
            },
        };
        data.fill_unknowns();
        self.song_data = data;
        self.has_loaded_song_data = true;
        to_write
    }

    /// What is known of the song, read from its files where it was not read
    /// before. The files are looked at only then; see `load_song_data`.
    pub fn get_or_load_song_data(&mut self, sidecar: Option<&[u8]>, tags: &Vec<ProbedTag>) -> (read:
        (&SongData, Option<Vec<u8>>))
        ensures
            final(self)@.id == old(self)@.id,
            final(self)@.has_loaded_song_data,
            read.0@ == final(self)@.song_data,
            old(self)@.has_loaded_song_data ==> final(self)@ == old(self)@ && read.1 is None,
            !old(self)@.has_loaded_song_data ==> final(self)@.song_data == spec_loaded(
                spec_sidecar(sidecar),
                spec_probed_views(tags@),
            ) && (match read.1 {
                Some(bytes) => spec_stored(spec_sidecar(sidecar)) is None && bytes@ == spec_encode(
                    spec_probed(spec_probed_views(tags@)),
                ),
                None => spec_stored(spec_sidecar(sidecar)) is Some,
            }),
    {
        let to_write = if self.has_loaded_song_data {
            None
        } else {
            self.load_song_data(sidecar, tags)
        };
        (&self.song_data, to_write)
    }

    /// What is known of the song, to be changed in place, read from its
    /// files where it was not read before. What the caller leaves there is
    /// what is known of the song from then on.
    pub fn get_or_load_song_data_mut(
        &mut self,
        sidecar: Option<&[u8]>,
        tags: &Vec<ProbedTag>,
    ) -> (data: &mut SongData)
        ensures
            data@ == (if old(self)@.has_loaded_song_data {
                old(self)@.song_data
            } else {
                spec_loaded(spec_sidecar(sidecar), spec_probed_views(tags@))
            }),
            final(self).id == old(self).id,
            final(self).has_loaded_song_data,
            final(self).song_data == *final(data),
    {
        if !self.has_loaded_song_data {
            let _ = self.load_song_data(sidecar, tags);
        }
        &mut self.song_data
    }

    /// Puts `new_song_data` in place of what was known of the song, and
    /// hands back the bytes to write to the file beside the song.
    pub fn set_song_data(&mut self, new_song_data: SongData) -> (to_write: Vec<u8>)
        ensures
            final(self)@.id == old(self)@.id,
            final(self)@.has_loaded_song_data,
            final(self)@.song_data == new_song_data@,
            to_write@ == spec_encode(new_song_data@),
    {
        let to_write = new_song_data.to_bytes();
        self.song_data = new_song_data;
        self.has_loaded_song_data = true;
        to_write
    }

    /// Two songs are the same song when their identifiers are the same.
    pub open spec fn same_song(self, other: Song) -> bool {
        self.id.same_id(other.id)
    }

    /// Whether `other` is the same song.
    pub fn is_same_song(&self, other: &Song) -> (same: bool)
        ensures
            same == self.same_song(*other),
    {
        self.id == other.id
    }
}

/// The bytes of a file that was read, as a sequence.
pub open spec fn spec_sidecar(sidecar: Option<&[u8]>) -> Option<Seq<u8>> {
    match sidecar {
        Some(bytes) => Some(bytes@),
        None => None,
    }
}

} // verus!
