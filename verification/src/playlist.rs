//! A playlist: its songs, the view on them that a search leaves, the
//! selection, and what it keeps in its file.
//!
//! Reading and writing files happens outside this crate. A function that
//! changes what the file of the playlist holds hands back the bytes to
//! write there.

use crate::id_generator::{spec_ids_of_stems, spec_texts, Id};
use crate::manager::{MusicCommand, MusicManager, MusicManagerView, PlaybackPhase, SongStatus};
use crate::playlist_data::{
    spec_decode_playlist, spec_empty_playlist, spec_encode_playlist, PlaybackMode, PlaylistData,
    PlaylistDataView,
};
use crate::queue::spec_identity;
use crate::search::{
    lemma_found_distinct, lemma_found_songs, spec_finds, spec_found, spec_parse_search,
    ParsedSearch,
};
use crate::selection::SelectedSongsVariant;
use crate::song_list::{
    lemma_position_of, lemma_position_of_own, lemma_sorted_keeps, spec_distinct, spec_field,
    spec_position_of, spec_sorted_songs, SongList, SortBy, SortByVariant,
};
use crate::song_pool::{SongPool, SongPoolView};
use crate::song_ref::SongRef;
use crate::song_source::{
    lemma_push_all_shared_keeps, lemma_push_sources_keeps, spec_push_all_shared,
    spec_push_sources, spec_source_views, spec_write_views, SidecarWrite, SongSource,
};
use vstd::prelude::*;

verus! {

/// Where a playlist has its songs from.
#[derive(Copy, Clone, Debug, PartialEq, Eq, Structural)]
pub enum PlaylistVariant {
    /// All songs of the folder of songs.
    SongFolder,
    /// The songs that the file of the playlist names.
    PlaylistFile,
}

/// A playlist, as plain values.
pub struct PlaylistView {
    pub variant: PlaylistVariant,
    pub songs: Seq<SongRef>,
    pub has_loaded_songs: bool,
    /// What the search that is on found, or `None` where none is on.
    pub songs_filtered: Option<Seq<SongRef>>,
    pub selected_songs: SelectedSongsVariant,
    pub playlist_data: PlaylistDataView,
    pub has_session: bool,
}

impl PlaylistView {
    /// The songs on display: those that the search found while a search is
    /// on, and all songs otherwise.
    pub open spec fn displayed(self) -> Seq<SongRef> {
        match self.songs_filtered {
            Some(found) => found,
            None => self.songs,
        }
    }

    /// The place among the songs of the playlist of the song on display at
    /// `index`.
    pub open spec fn place_of_displayed(self, index: usize) -> int {
        spec_position_of(self.songs, self.displayed()[index as int].id)
    }
}

/// What a search found are songs of the playlist, none of them twice.
pub open spec fn spec_shown_within(found: Option<Seq<SongRef>>, songs: Seq<SongRef>) -> bool {
    found matches Some(found) ==> spec_distinct(found) && forall|i: int|
        0 <= i < found.len() ==> songs.contains(#[trigger] found[i])
}

/// What a search for `query` leaves on display of `songs`: what it finds
/// among them. The empty query, and a query that cannot be taken apart, end
/// the search.
pub open spec fn spec_filtered(query: Seq<char>, pool: SongPoolView, songs: Seq<SongRef>) -> Option<
    Seq<SongRef>,
> {
    if query.len() == 0 {
        None
    } else {
        match spec_parse_search(query) {
            Some(search) => Some(spec_found(search, pool, songs)),
            None => None,
        }
    }
}

/// The empty query ends a search: all songs of the playlist are on display
/// again.
pub proof fn lemma_empty_query_shows_all(playlist: PlaylistView, pool: SongPoolView)
    ensures
        (PlaylistView {
            songs_filtered: spec_filtered(Seq::<char>::empty(), pool, playlist.songs),
            ..playlist
        }).displayed() == playlist.songs,
{
}

/// The songs on display during a search are the songs of the playlist that
/// the search finds, in the order of the playlist: none where it finds
/// none.
pub proof fn lemma_search_shows_what_it_finds(
    playlist: PlaylistView,
    pool: SongPoolView,
    query: Seq<char>,
    song: SongRef,
)
    requires
        spec_parse_search(query) is Some,
        query.len() > 0,
    ensures
        ({
            let search = spec_parse_search(query)->0;
            let shown = (PlaylistView {
                songs_filtered: spec_filtered(query, pool, playlist.songs),
                ..playlist
            }).displayed();
            &&& shown == spec_found(search, pool, playlist.songs)
            &&& shown.contains(song) <==> playlist.songs.contains(song) && spec_finds(
                search,
                pool,
                song,
            )
            &&& shown.len() <= playlist.songs.len()
        }),
{
    lemma_found_songs(spec_parse_search(query)->0, pool, playlist.songs);
}

/// A song on display stands among the songs of the playlist at its place.
pub proof fn lemma_place_of_displayed(playlist: PlaylistView, index: usize)
    requires
        spec_distinct(playlist.songs),
        spec_shown_within(playlist.songs_filtered, playlist.songs),
        index < playlist.displayed().len(),
    ensures
        0 <= playlist.place_of_displayed(index) < playlist.songs.len(),
        playlist.songs[playlist.place_of_displayed(index)] == playlist.displayed()[index as int],
{
    let shown = playlist.displayed()[index as int];
    assert(playlist.songs.contains(shown));
    let k = choose|k: int| 0 <= k < playlist.songs.len() && playlist.songs[k] == shown;
    lemma_position_of_own(playlist.songs, k);
}

/// What the file of a playlist says, or the data of a playlist without
/// songs where the file could not be read or makes no sense.
pub open spec fn spec_playlist_data_of(file: Option<Seq<u8>>) -> PlaylistDataView {
    match file {
        Some(bytes) => match spec_decode_playlist(bytes) {
            Some(data) => data,
            None => spec_empty_playlist(),
        },
        None => spec_empty_playlist(),
    }
}

/// The identifiers of the songs behind the handles.
pub open spec fn spec_ids_of(songs: Seq<SongRef>) -> Seq<Id> {
    Seq::new(songs.len(), |i: int| songs[i].id)
}

/// The playlist once what it keeps in its file is brought up to date:
/// the file of a playlist with a file names the songs of the playlist, once
/// these were loaded. Nothing is kept of the playlist of all songs.
pub open spec fn spec_saved(playlist: PlaylistView) -> PlaylistView {
    if playlist.variant == PlaylistVariant::PlaylistFile && playlist.has_loaded_songs {
        PlaylistView {
            playlist_data: PlaylistDataView {
                song_ids: spec_ids_of(playlist.songs),
                ..playlist.playlist_data
            },
            ..playlist
        }
    } else {
        playlist
    }
}

/// The bytes to write to the file of the playlist, where it has one.
pub open spec fn spec_saved_bytes(playlist: PlaylistView) -> Option<Seq<u8>> {
    if playlist.variant == PlaylistVariant::PlaylistFile {
        Some(spec_encode_playlist(spec_saved(playlist).playlist_data))
    } else {
        None
    }
}

/// The mode that follows `mode` when the modes are gone through.
pub open spec fn spec_next_mode(mode: PlaybackMode) -> PlaybackMode {
    match mode {
        PlaybackMode::Sequential => PlaybackMode::Shuffle,
        PlaybackMode::Shuffle => PlaybackMode::Sequential,
    }
}

/// The field that follows `variant` when the fields to sort by are gone
/// through.
pub open spec fn spec_next_variant(variant: SortByVariant) -> SortByVariant {
    match variant {
        SortByVariant::Title => SortByVariant::Artist,
        SortByVariant::Artist => SortByVariant::Album,
        SortByVariant::Album => SortByVariant::Title,
    }
}

/// The playlist after the song on display at `index` was taken out: out of
/// what the search found, where one is on, and out of the songs of the
/// playlist, where it is found by its identifier. The search stays on, also
/// where nothing is left on display. Where no song is on display at `index`,
/// nothing is taken out.
pub open spec fn spec_after_delete(playlist: PlaylistView, index: usize) -> PlaylistView {
    let shown = playlist.displayed();
    if index >= shown.len() {
        playlist
    } else {
        let at = spec_position_of(playlist.songs, shown[index as int].id);
        PlaylistView {
            songs: if at < playlist.songs.len() {
                playlist.songs.remove(at)
            } else {
                playlist.songs
            },
            songs_filtered: match playlist.songs_filtered {
                Some(found) => Some(found.remove(index as int)),
                None => None,
            },
            ..playlist
        }
    }
}

/// Taking a song on display out leaves what the search found among the
/// songs of the playlist.
proof fn lemma_after_delete_shown_within(playlist: PlaylistView, index: usize)
    requires
        spec_distinct(playlist.songs),
        spec_shown_within(playlist.songs_filtered, playlist.songs),
        index < playlist.displayed().len(),
    ensures
        spec_shown_within(
            spec_after_delete(playlist, index).songs_filtered,
            spec_after_delete(playlist, index).songs,
        ),
{
    let after = spec_after_delete(playlist, index);
    let victim = playlist.displayed()[index as int];
    let at = spec_position_of(playlist.songs, victim.id);
    lemma_position_of(playlist.songs, victim.id);
    match playlist.songs_filtered {
        Some(found) => {
            let left = found.remove(index as int);
            assert forall|i: int, j: int|
                0 <= i < left.len() && 0 <= j < left.len() && i != j implies !(
            #[trigger] left[i]).id.same_id((#[trigger] left[j]).id) by {
                let fi = if i < index {
                    i
                } else {
                    i + 1
                };
                let fj = if j < index {
                    j
                } else {
                    j + 1
                };
                assert(left[i] == found[fi] && left[j] == found[fj]);
            }
            assert forall|i: int| 0 <= i < left.len() implies after.songs.contains(
                #[trigger] left[i],
            ) by {
                let fi = if i < index {
                    i
                } else {
                    i + 1
                };
                assert(left[i] == found[fi]);
                assert(playlist.songs.contains(found[fi]));
                let k = choose|k: int| 0 <= k < playlist.songs.len() && playlist.songs[k] == found[fi];
                if at < playlist.songs.len() {
                    assert(found[index as int] == victim);
                    assert(!found[fi].id.same_id(found[index as int].id));
                    assert(k != at);
                    if k < at {
                        assert(after.songs[k] == found[fi]);
                    } else {
                        assert(after.songs[k - 1] == found[fi]);
                    }
                } else {
                    assert(after.songs[k] == found[fi]);
                }
            }
        },
        None => {},
    }
}

/// The pool after the song on display at `index` was taken out of the
/// playlist: the handle that the playlist had on it is given back.
pub open spec fn spec_pool_after_delete(
    playlist: PlaylistView,
    pool: SongPoolView,
    index: usize,
) -> SongPoolView {
    let shown = playlist.displayed();
    if index >= shown.len() {
        pool
    } else {
        let at = spec_position_of(playlist.songs, shown[index as int].id);
        if at < playlist.songs.len() {
            pool.release(playlist.songs[at])
        } else {
            pool
        }
    }
}

/// The different texts that the songs of `songs` have in the field
/// `variant`, each once, in the order in which they first come. A song
/// whose handle is on no live object has none.
pub open spec fn spec_field_list(
    songs: Seq<SongRef>,
    pool: SongPoolView,
    variant: SortByVariant,
) -> Seq<Seq<char>>
    decreases songs.len(),
{
    if songs.len() == 0 {
        Seq::<Seq<char>>::empty()
    } else {
        let front = spec_field_list(songs.drop_last(), pool, variant);
        match pool.song_data(songs.last()) {
            Some(data) => if front.contains(spec_field(data, variant)) {
                front
            } else {
                front.push(spec_field(data, variant))
            },
            None => front,
        }
    }
}

/// `session` is a new session over the songs of `playlist` that starts with
/// the song at `start` of them: the queue has that song next, in the order of
/// play of the playlist; the first song of the queue counts as the song that
/// plays; the session is starting, at the volume of the playlist, with no
/// change of device noted, and its end will be told.
pub open spec fn spec_is_new_session(
    playlist: PlaylistView,
    start: int,
    session: MusicManagerView,
) -> bool {
    &&& 0 <= start < playlist.songs.len()
    &&& session.wf()
    &&& session.queue.indexes.len() == playlist.songs.len()
    &&& session.queue.next_song() == start
    &&& playlist.playlist_data.playback_mode == PlaybackMode::Sequential ==> session.queue.cursor
        == start && session.queue.indexes == spec_identity(playlist.songs.len())
    &&& playlist.playlist_data.playback_mode == PlaybackMode::Shuffle ==> session.queue.cursor == 0
        && session.queue.indexes[0] == start
    &&& session.song_status == (SongStatus {
        song: playlist.songs[session.queue.indexes[0] as int],
        total_duration: None,
    })
    &&& session.phase == PlaybackPhase::Starting
    &&& !session.change_audio_device
    &&& session.should_send_stop_action
    &&& session.volume == playlist.playlist_data.volume
}

/// What starting to play answers: whether a session that runs must be
/// stopped and waited for first, and the new session, where there is a song
/// to start with.
pub struct StartPlay {
    pub stop_previous: bool,
    pub session: Option<MusicManager>,
}

/// A playlist.
pub struct Playlist {
    pub variant: PlaylistVariant,
    songs: SongList,
    has_loaded_songs: bool,
    songs_filtered: Option<Vec<SongRef>>,
    selected_songs: SelectedSongsVariant,
    playlist_data: PlaylistData,
    has_session: bool,
}

impl View for Playlist {
    type V = PlaylistView;

    closed spec fn view(&self) -> PlaylistView {
        PlaylistView {
            variant: self.variant,
            songs: self.songs@,
            has_loaded_songs: self.has_loaded_songs,
            songs_filtered: match self.songs_filtered {
                Some(found) => Some(found@),
                None => None,
            },
            selected_songs: self.selected_songs,
            playlist_data: self.playlist_data@,
            has_session: self.has_session,
        }
    }
}

impl Playlist {
    /// No song stands twice among the songs of the playlist, and what a
    /// search found are songs of the playlist, none of them twice.
    pub closed spec fn wf(&self) -> bool {
        self.songs.wf() && spec_shown_within(self@.songs_filtered, self@.songs)
    }

    /// No song stands twice among the songs of a playlist, nor among the
    /// songs on display, and every song on display is a song of the
    /// playlist: it stands among the songs at its place.
    pub proof fn lemma_songs_distinct(&self)
        requires
            self.wf(),
        ensures
            spec_distinct(self@.songs),
            spec_distinct(self@.displayed()),
            spec_shown_within(self@.songs_filtered, self@.songs),
            forall|index: usize|
                index < self@.displayed().len() ==> 0 <= #[trigger] self@.place_of_displayed(index)
                    < self@.songs.len() && self@.songs[self@.place_of_displayed(index)]
                    == self@.displayed()[index as int],
            self@.songs_filtered is None ==> forall|index: usize|
                index < self@.songs.len() ==> #[trigger] self@.place_of_displayed(index) == index,
    {
        let view = self@;
        assert forall|index: usize| index < view.displayed().len() implies 0
            <= #[trigger] view.place_of_displayed(index) < view.songs.len()
            && view.songs[view.place_of_displayed(index)] == view.displayed()[index as int] by {
            lemma_place_of_displayed(view, index);
        }
        assert forall|index: usize|
            view.songs_filtered is None && index < view.songs.len() implies #[trigger] view.place_of_displayed(
            index,
        ) == index by {
            lemma_position_of_own(view.songs, index as int);
        }
    }

    fn new(playlist_data: PlaylistData, variant: PlaylistVariant) -> (playlist: Self)
        ensures
            playlist.wf(),
            playlist@ == (PlaylistView {
                variant,
                songs: Seq::<SongRef>::empty(),
                has_loaded_songs: false,
                songs_filtered: None,
                selected_songs: SelectedSongsVariant::Nothing,
                playlist_data: playlist_data@,
                has_session: false,
            }),
    {
        Playlist {
            variant,
            songs: SongList::new(),
            has_loaded_songs: false,
            songs_filtered: None,
            selected_songs: SelectedSongsVariant::Nothing,
            playlist_data,
            has_session: false,
        }
    }

    /// A playlist with a file. `file` holds the bytes of the file, or `None`
    /// where it could not be read; a file that makes no sense counts as that
    /// of a playlist without songs.
    pub fn new_file(file: Option<&[u8]>) -> (playlist: Self)
        ensures
            playlist.wf(),
            playlist@ == (PlaylistView {
                variant: PlaylistVariant::PlaylistFile,
                songs: Seq::<SongRef>::empty(),
                has_loaded_songs: false,
                songs_filtered: None,
                selected_songs: SelectedSongsVariant::Nothing,
                playlist_data: spec_playlist_data_of(crate::song::spec_sidecar(file)),
                has_session: false,
            }),
    {
        let stored = match file {
            Some(bytes) => PlaylistData::from_bytes(bytes),
            None => None,
        };
        let playlist_data = match stored {
            Some(data) => data,
            None => PlaylistData::new_empty(),
        };
        Playlist::new(playlist_data, PlaylistVariant::PlaylistFile)
    }

    /// The playlist of all songs of the folder of songs. Nothing of it is
    /// kept in a file.
    pub fn all_songs() -> (playlist: Self)
        ensures
            playlist.wf(),
            playlist@ == (PlaylistView {
                variant: PlaylistVariant::SongFolder,
                songs: Seq::<SongRef>::empty(),
                has_loaded_songs: false,
                songs_filtered: None,
                selected_songs: SelectedSongsVariant::Nothing,
                playlist_data: spec_empty_playlist(),
                has_session: false,
            }),
    {
        Playlist::new(PlaylistData::new_empty(), PlaylistVariant::SongFolder)
    }

    /// The identifiers of the songs to load: those that the file names for
    /// a playlist with a file, and those that the names of the files in the
    /// folder of songs spell for the playlist of all songs. `file_stems`
    /// holds those names without their endings.
    pub fn song_ids_to_load(&self, file_stems: &Vec<String>) -> (ids: Vec<Id>)
        ensures
            ids@ == (match self@.variant {
                PlaylistVariant::PlaylistFile => self@.playlist_data.song_ids,
                PlaylistVariant::SongFolder => spec_ids_of_stems(spec_texts(file_stems@)),
            }),
    {
        match self.variant {
            PlaylistVariant::PlaylistFile => self.playlist_data.song_ids.clone(),
            PlaylistVariant::SongFolder => Id::from_file_stems(file_stems),
        }
    }

    /// Whether the songs were loaded.
    pub fn has_loaded_songs(&self) -> (loaded: bool)
        ensures
            loaded == self@.has_loaded_songs,
    {
        self.has_loaded_songs
    }

    /// The songs of the playlist without regard to the search. Where they
    /// were not loaded yet, the songs of `sources` are taken in first, one
    /// after the other; what is to be written then is handed back.
    pub fn get_or_load_songs_unfiltered(
        &mut self,
        pool: &mut SongPool,
        sources: &Vec<SongSource>,
    ) -> (loaded: (&Vec<SongRef>, Vec<SidecarWrite>))
        requires
            old(self).wf(),
            old(pool)@.wf(),
        ensures
            final(self).wf(),
            final(pool)@.wf(),
            loaded.0@ == final(self)@.songs,
            final(self)@.has_loaded_songs,
            old(self)@.has_loaded_songs ==> final(self)@ == old(self)@ && final(pool)@ == old(
                pool,
            )@ && loaded.1@.len() == 0,
            !old(self)@.has_loaded_songs ==> {
                let pushed = spec_push_sources(
                    old(self)@.songs,
                    old(pool)@,
                    spec_source_views(sources@),
                );
                &&& final(self)@ == (PlaylistView {
                    songs: pushed.songs,
                    has_loaded_songs: true,
                    ..old(self)@
                })
                &&& final(pool)@ == pushed.pool
                &&& spec_write_views(loaded.1@) == pushed.writes
            },
    {
        let writes = if self.has_loaded_songs {
            Vec::new()
        } else {
            proof {
                lemma_push_sources_keeps(old(self)@.songs, old(pool)@, spec_source_views(sources@));
            }
            let writes = self.songs.push_songs(pool, sources);
            self.has_loaded_songs = true;
            writes
        };
        (self.songs.songs(), writes)
    }

    /// The songs of the playlist without regard to the search.
    pub fn songs_unfiltered(&self) -> (songs: &Vec<SongRef>)
        ensures
            songs@ == self@.songs,
    {
        self.songs.songs()
    }

    /// The songs on display: those that the search found while a search is
    /// on, and all songs otherwise.
    pub fn get_or_load_songs(&self) -> (songs: &Vec<SongRef>)
        ensures
            songs@ == self@.displayed(),
    {
        match &self.songs_filtered {
            Some(found) => found,
            None => self.songs.songs(),
        }
    }

    /// Whether a search is on.
    pub fn is_filtered(&self) -> (filtered: bool)
        ensures
            filtered == self@.songs_filtered is Some,
    {
        self.songs_filtered.is_some()
    }

    /// Searches the songs for `search_str`: what the search finds is on
    /// display from then on, and nothing where it finds nothing. The empty
    /// query, and one that cannot be taken apart, end the search: all songs
    /// are on display again. The selection is dropped.
    pub fn set_search_query_filter(&mut self, search_str: &str, pool: &SongPool)
        requires
            old(self).wf(),
            pool@.wf(),
        ensures
            final(self).wf(),
            final(self)@ == (PlaylistView {
                songs_filtered: spec_filtered(search_str@, pool@, old(self)@.songs),
                selected_songs: SelectedSongsVariant::Nothing,
                ..old(self)@
            }),
    {
        self.set_selected_songs(SelectedSongsVariant::Nothing);
        self.songs_filtered = None;
        if search_str.unicode_len() == 0 {
            return ;
        }
        let parsed_search = match ParsedSearch::parse_search_str(search_str) {
            Some(parsed_search) => parsed_search,
            None => {
                return ;
            },
        };
        let found = parsed_search.filter_songs(pool, self.songs.songs());
        proof {
            lemma_found_songs(parsed_search@, pool@, self.songs@);
            lemma_found_distinct(parsed_search@, pool@, self.songs@);
            assert forall|i: int| 0 <= i < found@.len() implies self.songs@.contains(
                #[trigger] found@[i],
            ) by {
                assert(found@.contains(found@[i]));
            }
        }
        self.songs_filtered = Some(found);
    }

    /// Selects the songs on display from `start` to `end`, both counted in.
    /// Fails, and leaves the selection, where `end` lies before `start` or
    /// one of them behind the last song on display.
    pub fn select_range(&mut self, start: usize, end: usize) -> (selected: Result<(), ()>)
        ensures
            final(self).wf() == old(self).wf(),
            selected is Ok <==> start <= end < old(self)@.displayed().len(),
            selected is Ok ==> final(self)@ == (PlaylistView {
                selected_songs: SelectedSongsVariant::Range { start, end },
                ..old(self)@
            }),
            selected is Err ==> final(self)@ == old(self)@,
    {
        let song_len = self.get_or_load_songs().len();
        if end < start || start >= song_len || end >= song_len {
            Err(())
        } else {
            self.set_selected_songs(SelectedSongsVariant::Range { start, end });
            Ok(())
        }
    }

    /// Selects the song on display at `index`, where there is one.
    pub fn select_single(&mut self, index: usize)
        ensures
            final(self).wf() == old(self).wf(),
            final(self)@ == (if index < old(self)@.displayed().len() {
                PlaylistView { selected_songs: SelectedSongsVariant::Single(index), ..old(self)@ }
            } else {
                old(self)@
            }),
    {
        if index < self.get_or_load_songs().len() {
            self.set_selected_songs(SelectedSongsVariant::Single(index));
        }
    }

    /// Selects all songs.
    pub fn select_all(&mut self)
        ensures
            final(self).wf() == old(self).wf(),
            final(self)@ == (PlaylistView {
                selected_songs: SelectedSongsVariant::All,
                ..old(self)@
            }),
    {
        self.set_selected_songs(SelectedSongsVariant::All);
    }

    pub fn get_selected_songs_variant(&self) -> (selected: SelectedSongsVariant)
        ensures
            selected == self@.selected_songs,
    {
        self.selected_songs
    }

    fn set_selected_songs(&mut self, selected_songs: SelectedSongsVariant)
        ensures
            final(self).wf() == old(self).wf(),
            final(self)@ == (PlaylistView { selected_songs, ..old(self)@ }),
    {
        self.selected_songs = selected_songs;
    }

    /// Brings what the playlist keeps in its file up to date and hands back
    /// the bytes to write there; `None` for the playlist of all songs.
    pub fn save_contents(&mut self) -> (to_write: Option<Vec<u8>>)
        ensures
            final(self).wf() == old(self).wf(),
            final(self)@ == spec_saved(old(self)@),
            crate::song_source::spec_bytes_view(to_write) == spec_saved_bytes(old(self)@),
    {
        match self.variant {
            PlaylistVariant::SongFolder => None,
            PlaylistVariant::PlaylistFile => {
                if self.has_loaded_songs {
                    let songs = self.songs.songs();
                    let mut song_ids: Vec<Id> = Vec::with_capacity(songs.len());
                    let mut i: usize = 0;
                    while i < songs.len()
                        invariant
                            i <= songs@.len(),
                            song_ids@.len() == i,
                            forall|k: int| 0 <= k < i ==> #[trigger] song_ids@[k] == songs@[k].id,
                        decreases songs@.len() - i,
                    {
                        song_ids.push(songs[i].id);
                        i += 1;
                    }
                    assert(song_ids@ =~= spec_ids_of(songs@));
                    self.playlist_data.song_ids = song_ids;
                }
                Some(self.playlist_data.to_bytes())
            },
        }
    }

    pub fn playback_mode(&self) -> (mode: PlaybackMode)
        ensures
            mode == self@.playlist_data.playback_mode,
    {
        self.playlist_data.playback_mode
    }

    /// Sets the order of play, and hands back the bytes to write to the file
    /// of the playlist.
    pub fn set_playback_mode(&mut self, playback_mode: PlaybackMode) -> (to_write: Option<Vec<u8>>)
        ensures
            final(self).wf() == old(self).wf(),
            ({
                let set = PlaylistView {
                    playlist_data: PlaylistDataView {
                        playback_mode,
                        ..old(self)@.playlist_data
                    },
                    ..old(self)@
                };
                &&& final(self)@ == spec_saved(set)
                &&& crate::song_source::spec_bytes_view(to_write) == spec_saved_bytes(set)
            }),
    {
        self.playlist_data.playback_mode = playback_mode;
        self.save_contents()
    }

    /// Goes on to the next order of play: from sequence to shuffle and back.
    pub fn next_playback_mode(&mut self) -> (to_write: Option<Vec<u8>>)
        ensures
            final(self).wf() == old(self).wf(),
            ({
                let set = PlaylistView {
                    playlist_data: PlaylistDataView {
                        playback_mode: spec_next_mode(old(self)@.playlist_data.playback_mode),
                        ..old(self)@.playlist_data
                    },
                    ..old(self)@
                };
                &&& final(self)@ == spec_saved(set)
                &&& crate::song_source::spec_bytes_view(to_write) == spec_saved_bytes(set)
            }),
    {
        let next_playback_mode = match self.playback_mode() {
            PlaybackMode::Sequential => PlaybackMode::Shuffle,
            PlaybackMode::Shuffle => PlaybackMode::Sequential,
        };
        self.set_playback_mode(next_playback_mode)
    }

    /// The volume, in the bits of its `f32`.
    pub fn get_volume(&self) -> (volume: u32)
        ensures
            volume == self@.playlist_data.volume,
    {
        self.playlist_data.volume
    }

    /// Sets the volume, given in the bits of its `f32`. Hands back the
    /// command to send to the session, where one runs, and the bytes to
    /// write to the file of the playlist.
    pub fn set_volume(&mut self, volume: u32) -> (set: (Option<MusicCommand>, Option<Vec<u8>>))
        ensures
            final(self).wf() == old(self).wf(),
            set.0 == (if old(self)@.has_session {
                Some(MusicCommand::SetVolume(volume))
            } else {
                None
            }),
            ({
                let with_volume = PlaylistView {
                    playlist_data: PlaylistDataView { volume, ..old(self)@.playlist_data },
                    ..old(self)@
                };
                &&& final(self)@ == spec_saved(with_volume)
                &&& crate::song_source::spec_bytes_view(set.1) == spec_saved_bytes(with_volume)
            }),
    {
        let command = if self.has_session {
            Some(MusicCommand::SetVolume(volume))
        } else {
            None
        };
        self.playlist_data.volume = volume;
        (command, self.save_contents())
    }

    pub fn get_sorting_by(&self) -> (sort_by: SortBy)
        ensures
            sort_by == self@.playlist_data.sort_by,
    {
        self.playlist_data.sort_by
    }

    /// Sorts the songs as `sort_by` says, notes that they are sorted so, and
    /// hands back the bytes to write to the file of the playlist.
    pub fn sort_by_and_save(&mut self, sort_by: SortBy, pool: &SongPool) -> (to_write: Option<
        Vec<u8>,
    >)
        requires
            old(self).wf(),
            pool@.wf(),
        ensures
            final(self).wf(),
            spec_sorted_songs(old(self)@.songs, pool@, sort_by, final(self)@.songs),
            ({
                let sorted = PlaylistView {
                    songs: final(self)@.songs,
                    playlist_data: PlaylistDataView { sort_by, ..old(self)@.playlist_data },
                    ..old(self)@
                };
                &&& final(self)@ == spec_saved(sorted)
                &&& crate::song_source::spec_bytes_view(to_write) == spec_saved_bytes(sorted)
            }),
    {
        self.playlist_data.sort_by = sort_by;
        let ghost before = self.songs@;
        self.songs.sort_songs(sort_by, pool);
        proof {
            lemma_sorted_keeps(before, pool@, sort_by, self.songs@);
        }
        self.save_contents()
    }

    /// Takes the song of `source` into the songs of the playlist; see
    /// `spec_push_source`. Hands back the bytes to write to the file beside
    /// the song, where there are any.
    pub(crate) fn push_source(&mut self, pool: &mut SongPool, source: &SongSource) -> (to_write:
        Option<Vec<u8>>)
        requires
            old(self).wf(),
            old(pool)@.wf(),
        ensures
            final(self).wf(),
            final(pool)@.wf(),
            ({
                let pushed = crate::song_source::spec_push_source(
                    old(self)@.songs,
                    old(pool)@,
                    source@,
                );
                &&& final(self)@ == (PlaylistView { songs: pushed.songs, ..old(self)@ })
                &&& final(pool)@ == pushed.pool
                &&& crate::song_source::spec_bytes_view(to_write) == pushed.to_write
            }),
    {
        let ghost before = self.songs@;
        let outcome = self.songs.push_song0(pool, source);
        proof {
            let after = self.songs@;
            assert forall|song: SongRef| before.contains(song) implies #[trigger] after.contains(
                song,
            ) by {
                let k = choose|k: int| 0 <= k < before.len() && before[k] == song;
                assert(after[k] == song);
            }
        }
        outcome.to_write
    }

    /// Sorts the songs as the playlist was last told to sort, and hands back
    /// the bytes to write to the file of the playlist.
    pub(crate) fn sort_songs_and_save(&mut self, pool: &SongPool) -> (to_write: Option<Vec<u8>>)
        requires
            old(self).wf(),
            pool@.wf(),
        ensures
            final(self).wf(),
            spec_sorted_songs(
                old(self)@.songs,
                pool@,
                old(self)@.playlist_data.sort_by,
                final(self)@.songs,
            ),
            ({
                let sorted = PlaylistView { songs: final(self)@.songs, ..old(self)@ };
                &&& final(self)@ == spec_saved(sorted)
                &&& crate::song_source::spec_bytes_view(to_write) == spec_saved_bytes(sorted)
            }),
    {
        let sort_by = self.playlist_data.sort_by;
        let ghost before = self.songs@;
        self.songs.sort_songs(sort_by, pool);
        proof {
            lemma_sorted_keeps(before, pool@, sort_by, self.songs@);
        }
        self.save_contents()
    }

    /// Goes on to the next field to sort by: from title to artist, to
    /// album, and back to title; sorts the songs so, and hands back the
    /// bytes to write to the file of the playlist.
    pub fn next_sorting_by(&mut self, pool: &SongPool) -> (to_write: Option<Vec<u8>>)
        requires
            old(self).wf(),
            pool@.wf(),
        ensures
            final(self).wf(),
            ({
                let sort_by = SortBy {
                    sort_by_variant: spec_next_variant(
                        old(self)@.playlist_data.sort_by.sort_by_variant,
                    ),
                    inverted: old(self)@.playlist_data.sort_by.inverted,
                };
                let sorted = PlaylistView {
                    songs: final(self)@.songs,
                    playlist_data: PlaylistDataView { sort_by, ..old(self)@.playlist_data },
                    ..old(self)@
                };
                &&& spec_sorted_songs(old(self)@.songs, pool@, sort_by, final(self)@.songs)
                &&& final(self)@ == spec_saved(sorted)
                &&& crate::song_source::spec_bytes_view(to_write) == spec_saved_bytes(sorted)
            }),
    {
        let mut sort_by = self.playlist_data.sort_by;
        let next_sort_by = match sort_by.sort_by_variant {
            SortByVariant::Title => SortByVariant::Artist,
            SortByVariant::Artist => SortByVariant::Album,
            SortByVariant::Album => SortByVariant::Title,
        };
        sort_by.sort_by_variant = next_sort_by;
        self.sort_by_and_save(sort_by, pool)
    }

    /// Takes the song on display at `song_index` out of the playlist, gives
    /// the handle on it back to the pool, and hands back the bytes to write
    /// to the file of the playlist. Where a search is on, the song is looked
    /// for among the songs of the playlist by its identifier, and the search
    /// stays on.
    pub fn delete_song(&mut self, song_index: usize, pool: &mut SongPool) -> (to_write: Option<
        Vec<u8>,
    >)
        requires
            old(self).wf(),
            old(pool)@.wf(),
        ensures
            final(self).wf(),
            final(pool)@.wf(),
            final(self)@ == spec_saved(spec_after_delete(old(self)@, song_index)),
            final(pool)@ == spec_pool_after_delete(old(self)@, old(pool)@, song_index),
            crate::song_source::spec_bytes_view(to_write) == spec_saved_bytes(
                spec_after_delete(old(self)@, song_index),
            ),
    {
        if song_index < self.get_or_load_songs().len() {
            let victim = self.get_or_load_songs()[song_index];
            proof {
                lemma_after_delete_shown_within(old(self)@, song_index);
            }
            match self.songs_filtered.take() {
                Some(mut found) => {
                    found.remove(song_index);
                    self.songs_filtered = Some(found);
                },
                None => {},
            }
            match self.songs.position_of(&victim.id) {
                Some(index) => {
                    match self.songs.remove_song_at(index) {
                        Some(held) => {
                            pool.release(held);
                        },
                        None => {},
                    }
                },
                None => {},
            }
        }
        self.save_contents()
    }

    /// Asks handles of its own for the playlist on the songs of
    /// `new_songs`, sorts the songs as the playlist was last told to sort,
    /// and hands back the bytes to write to the file of the playlist.
    pub fn import_existing_songs(&mut self, pool: &mut SongPool, new_songs: &Vec<SongRef>) -> (to_write:
        Option<Vec<u8>>)
        requires
            old(self).wf(),
            old(pool)@.wf(),
        ensures
            final(self).wf(),
            final(pool)@.wf(),
            final(pool)@ == spec_push_all_shared(old(self)@.songs, old(pool)@, new_songs@).1,
            ({
                let pushed = spec_push_all_shared(old(self)@.songs, old(pool)@, new_songs@);
                let sorted = PlaylistView { songs: final(self)@.songs, ..old(self)@ };
                &&& spec_sorted_songs(
                    pushed.0,
                    pushed.1,
                    old(self)@.playlist_data.sort_by,
                    final(self)@.songs,
                )
                &&& final(self)@ == spec_saved(sorted)
                &&& crate::song_source::spec_bytes_view(to_write) == spec_saved_bytes(sorted)
            }),
    {
        proof {
            lemma_push_all_shared_keeps(old(self)@.songs, old(pool)@, new_songs@);
        }
        self.songs.push_songs_arc_list(pool, new_songs);
        self.sort_songs_and_save(pool)
    }

    /// The different texts that the songs of the playlist have in the field
    /// `variant`, each once, in the order in which they first come.
    fn get_string_list(&self, pool: &SongPool, variant: SortByVariant) -> (list: Vec<String>)
        requires
            pool@.wf(),
        ensures
            spec_texts(list@) == spec_field_list(self@.songs, pool@, variant),
    {
        let songs = self.songs.songs();
        let mut list: Vec<String> = Vec::new();
        let mut i: usize = 0;
        while i < songs.len()
            invariant
                i <= songs@.len(),
                pool@.wf(),
                spec_texts(list@) == spec_field_list(songs@.take(i as int), pool@, variant),
            decreases songs@.len() - i,
        {
            proof {
                assert(songs@.take(i + 1).drop_last() =~= songs@.take(i as int));
            }
            match pool.song_data(&songs[i]) {
                Some(data) => {
                    let text: &String = match variant {
                        SortByVariant::Title => &data.title,
                        SortByVariant::Artist => &data.artist.artist_string,
                        SortByVariant::Album => &data.album,
                    };
                    let ghost texts = spec_texts(list@);
                    let mut found = false;
                    let mut k: usize = 0;
                    while k < list.len()
                        invariant
                            k <= list@.len(),
                            texts == spec_texts(list@),
                            found == exists|m: int| 0 <= m < k && #[trigger] texts[m] == text@,
                        decreases list@.len() - k,
                    {
                        if list[k] == *text {
                            assert(texts[k as int] == text@);
                            found = true;
                        }
                        k += 1;
                    }
                    proof {
                        if found {
                            let m = choose|m: int| 0 <= m < texts.len() && #[trigger] texts[m] == text@;
                            assert(texts.contains(text@));
                        }
                    }
                    if !found {
                        list.push(text.clone());
                        assert(spec_texts(list@) =~= texts.push(text@));
                    }
                },
                None => {},
            }
            i += 1;
        }
        assert(songs@.take(songs@.len() as int) =~= songs@);
        list
    }

    /// The different artist texts of the songs of the playlist, each once.
    pub fn get_artist_list(&self, pool: &SongPool) -> (artists: Vec<String>)
        requires
            pool@.wf(),
        ensures
            spec_texts(artists@) == spec_field_list(self@.songs, pool@, SortByVariant::Artist),
    {
        self.get_string_list(pool, SortByVariant::Artist)
    }

    /// The different albums of the songs of the playlist, each once.
    pub fn get_album_list(&self, pool: &SongPool) -> (albums: Vec<String>)
        requires
            pool@.wf(),
        ensures
            spec_texts(albums@) == spec_field_list(self@.songs, pool@, SortByVariant::Album),
    {
        self.get_string_list(pool, SortByVariant::Album)
    }

    /// Whether a session plays the songs of the playlist.
    pub fn has_session(&self) -> (running: bool)
        ensures
            running == self@.has_session,
    {
        self.has_session
    }

    /// Starts to play with the song on display at `song_index`, in the order
    /// of play and at the volume of the playlist. The session runs over all
    /// songs of the playlist, also while a search is on.
    ///
    /// A session that runs must be stopped and waited for before the new
    /// one is used: the answer says whether one runs. There is a new session
    /// where a song is on display at `song_index`.
    pub fn start_play_song(&mut self, song_index: usize) -> (start: StartPlay)
        requires
            old(self).wf(),
        ensures
            final(self).wf(),
            start.stop_previous == old(self)@.has_session,
            start.session is Some <==> song_index < old(self)@.displayed().len(),
            final(self)@ == (PlaylistView { has_session: start.session is Some, ..old(self)@ }),
            start.session matches Some(session) ==> {
                &&& spec_is_new_session(
                    old(self)@,
                    old(self)@.place_of_displayed(song_index),
                    session@,
                )
                &&& old(self)@.songs[session@.queue.next_song() as int] == old(
                    self,
                )@.displayed()[song_index as int]
            },
    {
        let stop_previous = self.has_session;
        let session = if song_index < self.get_or_load_songs().len() {
            let wanted = self.get_or_load_songs()[song_index];
            proof {
                lemma_place_of_displayed(self@, song_index);
            }
            match self.songs.position_of(&wanted.id) {
                Some(place) => MusicManager::try_create(
                    self.songs.songs(),
                    place,
                    self.playlist_data.volume,
                    self.playlist_data.playback_mode,
                ),
                None => None,
            }
        } else {
            None
        };
        self.has_session = session.is_some();
        StartPlay { stop_previous, session }
    }

    /// Ends the session of the playlist, where one runs: hands back the
    /// command to send to it.
    pub fn stop_music(&mut self) -> (command: Option<MusicCommand>)
        ensures
            final(self).wf() == old(self).wf(),
            final(self)@ == (PlaylistView { has_session: false, ..old(self)@ }),
            command == (if old(self)@.has_session {
                Some(MusicCommand::Stop { send_stop_action: true })
            } else {
                None
            }),
    {
        let command = if self.has_session {
            Some(MusicCommand::Stop { send_stop_action: true })
        } else {
            None
        };
        self.has_session = false;
        command
    }
}

} // verus!