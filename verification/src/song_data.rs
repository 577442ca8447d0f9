//! What is known of a song: artist, album, title and free tags.

use crate::text::{chars_of, spec_split, spec_views, split_chars, string_of};
use vstd::prelude::*;

verus! {

/// The artist of a song of which none is known.
pub const UNKNOWN_ARTIST_STR: &'static str = "Unknown Artist";

/// The album of a song of which none is known.
pub const UNKNOWN_ALBUM_STR: &'static str = "Unknown Album";

/// The value of a free tag.
#[derive(Debug)]
pub enum SongTagValue {
    String(String),
}

/// The key of a free tag.
#[derive(Debug)]
pub enum TagType {
    Dynamic(String),
}

impl View for SongTagValue {
    type V = Seq<char>;

    open spec fn view(&self) -> Seq<char> {
        match *self {
            SongTagValue::String(text) => text@,
        }
    }
}

impl View for TagType {
    type V = Seq<char>;

    open spec fn view(&self) -> Seq<char> {
        match *self {
            TagType::Dynamic(text) => text@,
        }
    }
}

impl Clone for SongTagValue {
    fn clone(&self) -> (copy: Self)
        ensures
            copy@ == self@,
    {
        match self {
            SongTagValue::String(text) => SongTagValue::String(text.clone()),
        }
    }
}

impl Clone for TagType {
    fn clone(&self) -> (copy: Self)
        ensures
            copy@ == self@,
    {
        match self {
            TagType::Dynamic(text) => TagType::Dynamic(text.clone()),
        }
    }
}

/// The artists of a song in one text, with a `/` between each two.
#[derive(Debug)]
pub struct Artist {
    pub artist_string: String,
}

impl View for Artist {
    type V = Seq<char>;

    open spec fn view(&self) -> Seq<char> {
        self.artist_string@
    }
}

impl Clone for Artist {
    fn clone(&self) -> (copy: Self)
        ensures
            copy@ == self@,
    {
        Artist { artist_string: self.artist_string.clone() }
    }
}

impl Artist {
    pub fn new(artist_string: String) -> (artist: Self)
        ensures
            artist@ == artist_string@,
    {
        Artist { artist_string }
    }

    /// The artists, one by one: the pieces of the text between the `/`.
    pub open spec fn spec_artist_list(self) -> Seq<Seq<char>> {
        spec_split(self@, '/')
    }

    /// The artists, one by one, in the order of the text.
    pub fn get_artist_list(&self) -> (artists: Vec<String>)
        ensures
            artists@.len() == self.spec_artist_list().len(),
            forall|i: int| 0 <= i < artists@.len() ==> artists@[i]@ == self.spec_artist_list()[i],
    {
        let chars = chars_of(self.artist_string.as_str());
        let pieces = split_chars(&chars, '/');
        let mut artists: Vec<String> = Vec::new();
        let mut i: usize = 0;
        while i < pieces.len()
            invariant
                i <= pieces@.len(),
                artists@.len() == i,
                spec_views(pieces@) == self.spec_artist_list(),
                forall|j: int| 0 <= j < i ==> artists@[j]@ == self.spec_artist_list()[j],
            decreases pieces@.len() - i,
        {
            let artist = string_of(&pieces[i]);
            assert(spec_views(pieces@)[i as int] == pieces@[i as int]@);
            artists.push(artist);
            i += 1;
        }
        artists
    }

    /// The first artist of the text: what stands before the first `/`.
    pub fn main_artist(&self) -> (artist: String)
        ensures
            artist@ == self.spec_artist_list()[0],
    {
        let chars = chars_of(self.artist_string.as_str());
        let pieces = split_chars(&chars, '/');
        assert(spec_views(pieces@)[0] == pieces@[0]@);
        string_of(&pieces[0])
    }
}

/// What is known of a song, as plain values.
pub struct SongDataView {
    pub artist: Seq<char>,
    pub album: Seq<char>,
    pub title: Seq<char>,
    pub custom_song_tags: Seq<(Seq<char>, Seq<char>)>,
}

/// What is known of a song.
#[derive(Debug)]
pub struct SongData {
    pub artist: Artist,
    pub album: String,
    pub title: String,
    /// The free tags, each with its key and its value, in the order in which
    /// they were set.
    pub custom_song_tags: Vec<(TagType, SongTagValue)>,
}

/// The tags of `tags` as plain values.
pub open spec fn spec_tag_views(tags: Seq<(TagType, SongTagValue)>) -> Seq<(Seq<char>, Seq<char>)> {
    Seq::new(tags.len(), |i: int| (tags[i].0@, tags[i].1@))
}

impl View for SongData {
    type V = SongDataView;

    open spec fn view(&self) -> SongDataView {
        SongDataView {
            artist: self.artist@,
            album: self.album@,
            title: self.title@,
            custom_song_tags: spec_tag_views(self.custom_song_tags@),
        }
    }
}

/// The data of a song of which nothing is known: the unknown artist, the
/// unknown album, no title and no tags.
pub open spec fn spec_default_song_data() -> SongDataView {
    SongDataView {
        artist: UNKNOWN_ARTIST_STR@,
        album: UNKNOWN_ALBUM_STR@,
        title: Seq::<char>::empty(),
        custom_song_tags: Seq::<(Seq<char>, Seq<char>)>::empty(),
    }
}

impl Default for SongData {
    fn default() -> (data: Self)
        ensures
            data@ == spec_default_song_data(),
    {
        let data = SongData {
            artist: Artist::new(UNKNOWN_ARTIST_STR.to_owned()),
            album: UNKNOWN_ALBUM_STR.to_owned(),
            title: String::new(),
            custom_song_tags: Vec::new(),
        };
        assert(data@.custom_song_tags =~= Seq::<(Seq<char>, Seq<char>)>::empty());
        data
    }
}

impl Clone for SongData {
    fn clone(&self) -> (copy: Self)
        ensures
            copy@ == self@,
    {
        let mut tags: Vec<(TagType, SongTagValue)> = Vec::new();
        let mut i: usize = 0;
        while i < self.custom_song_tags.len()
            invariant
                i <= self.custom_song_tags@.len(),
                tags@.len() == i,
                spec_tag_views(tags@) == spec_tag_views(self.custom_song_tags@.take(i as int)),
            decreases self.custom_song_tags@.len() - i,
        {
            let key = self.custom_song_tags[i].0.clone();
            let value = self.custom_song_tags[i].1.clone();
            let ghost before = tags@;
            tags.push((key, value));
            proof {
                let source = self.custom_song_tags@;
                assert forall|j: int| 0 <= j <= i implies #[trigger] spec_tag_views(tags@)[j]
                    == spec_tag_views(source.take(i + 1))[j] by {
                    if j < i {
                        assert(spec_tag_views(before)[j] == spec_tag_views(
                            source.take(i as int),
                        )[j]);
                    }
                }
            }
            i += 1;
            assert(spec_tag_views(tags@) =~= spec_tag_views(
                self.custom_song_tags@.take(i as int),
            ));
        }
        assert(self.custom_song_tags@.take(self.custom_song_tags@.len() as int)
            =~= self.custom_song_tags@);
        SongData {
            artist: self.artist.clone(),
            album: self.album.clone(),
            title: self.title.clone(),
            custom_song_tags: tags,
        }
    }
}

/// The fields of a song that a tag of an audio file can fill.
#[derive(Copy, Clone, Debug, PartialEq, Eq, Structural)]
pub enum TagKey {
    Artist,
    Album,
    TrackTitle,
    Other,
}

/// One tag found in an audio file: what it is about and its text.
#[derive(Debug)]
pub struct ProbedTag {
    pub key: TagKey,
    pub value: String,
}

/// A tag found in an audio file, as plain values.
pub struct ProbedTagView {
    pub key: TagKey,
    pub value: Seq<char>,
}

impl View for ProbedTag {
    type V = ProbedTagView;

    open spec fn view(&self) -> ProbedTagView {
        ProbedTagView { key: self.key, value: self.value@ }
    }
}

/// The tags of `tags` as plain values.
pub open spec fn spec_probed_views(tags: Seq<ProbedTag>) -> Seq<ProbedTagView> {
    Seq::new(tags.len(), |i: int| tags[i]@)
}

impl SongDataView {
    /// The data after one tag: the tag's text in the field that it is about;
    /// a tag about anything else changes nothing.
    pub open spec fn with_tag(self, tag: ProbedTagView) -> SongDataView {
        match tag.key {
            TagKey::Artist => SongDataView { artist: tag.value, ..self },
            TagKey::Album => SongDataView { album: tag.value, ..self },
            TagKey::TrackTitle => SongDataView { title: tag.value, ..self },
            TagKey::Other => self,
        }
    }

    /// The data after the tags, one after the other: of two tags about one
    /// field the later one stays.
    pub open spec fn with_tags(self, tags: Seq<ProbedTagView>) -> SongDataView
        decreases tags.len(),
    {
        if tags.len() == 0 {
            self
        } else {
            self.with_tags(tags.drop_last()).with_tag(tags.last())
        }
    }

    /// The data with the unknown artist in place of an empty artist, and the
    /// unknown album in place of an empty album.
    pub open spec fn with_unknowns(self) -> SongDataView {
        SongDataView {
            artist: if self.artist.len() == 0 {
                UNKNOWN_ARTIST_STR@
            } else {
                self.artist
            },
            album: if self.album.len() == 0 {
                UNKNOWN_ALBUM_STR@
            } else {
                self.album
            },
            ..self
        }
    }
}

impl SongData {
    /// Takes over what the tags of an audio file say of artist, album and
    /// title.
    pub fn apply_probed_tags(&mut self, tags: &Vec<ProbedTag>)
        ensures
            final(self)@ == old(self)@.with_tags(spec_probed_views(tags@)),
    {
        let mut i: usize = 0;
        while i < tags.len()
            invariant
                i <= tags@.len(),
                self@ == old(self)@.with_tags(spec_probed_views(tags@.take(i as int))),
            decreases tags@.len() - i,
        {
            let tag = &tags[i];
            proof {
                let upto = spec_probed_views(tags@.take(i + 1));
                assert(upto.drop_last() =~= spec_probed_views(tags@.take(i as int)));
                assert(upto.last() == tag@);
            }
            match tag.key {
                TagKey::Artist => {
                    self.artist = Artist::new(tag.value.clone());
                },
                TagKey::Album => {
                    self.album = tag.value.clone();
                },
                TagKey::TrackTitle => {
                    self.title = tag.value.clone();
                },
                TagKey::Other => {},
            }
            i += 1;
        }
        assert(tags@.take(tags@.len() as int) =~= tags@);
    }

    /// Puts the unknown artist in place of an empty artist, and the unknown
    /// album in place of an empty album.
    pub fn fill_unknowns(&mut self)
        ensures
            final(self)@ == old(self)@.with_unknowns(),
    {
        if self.artist.artist_string.as_str().unicode_len() == 0 {
            self.artist = Artist::new(UNKNOWN_ARTIST_STR.to_owned());
        }
        if self.album.as_str().unicode_len() == 0 {
            self.album = UNKNOWN_ALBUM_STR.to_owned();
        }
    }
}

} // verus!
