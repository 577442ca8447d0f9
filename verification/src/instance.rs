//! What stands above the playlists: the songs that were copied, and which
//! playlist plays.

use crate::outside::random_index;
use crate::playlist::{spec_is_new_session, Playlist, PlaylistView, StartPlay};
use crate::playlist_data::PlaybackMode;
use crate::song_pool::{SongPool, SongPoolView};
use crate::song_ref::SongRef;
use crate::song_source::spec_push_all_shared;
use vstd::prelude::*;

verus! {

/// The pool after each handle of `songs` was given back, one after the
/// other.
pub open spec fn spec_release_all(pool: SongPoolView, songs: Seq<SongRef>) -> SongPoolView
    decreases songs.len(),
{
    if songs.len() == 0 {
        pool
    } else {
        spec_release_all(pool, songs.drop_last()).release(songs.last())
    }
}

/// The copies and the pool after handles of their own were asked for the
/// copies on the songs of `songs`, one after the other. A song of which the
/// pool can hand out no handle is left out.
pub open spec fn spec_copy_all(pool: SongPoolView, songs: Seq<SongRef>) -> (
    Seq<SongRef>,
    SongPoolView,
)
    decreases songs.len(),
{
    if songs.len() == 0 {
        (Seq::<SongRef>::empty(), pool)
    } else {
        let before = spec_copy_all(pool, songs.drop_last());
        if before.1.is_exhausted(songs.last().id) {
            before
        } else {
            (
                before.0.push(before.1.handle_for(songs.last().id)),
                before.1.acquire(songs.last().id),
            )
        }
    }
}

/// What starting to play from above the playlists answers: the playlist
/// whose session must be stopped first, where another playlist plays, and
/// the answer of the playlist that is to play.
pub struct InstanceStart {
    pub stop_playlist: Option<u64>,
    pub start: StartPlay,
}

/// What stands above the playlists.
pub struct NapoleonInstance {
    copied_songs: Option<Vec<SongRef>>,
    currently_playing_playlist: Option<u64>,
}

/// What stands above the playlists, as plain values.
pub struct NapoleonInstanceView {
    pub copied_songs: Option<Seq<SongRef>>,
    pub currently_playing_playlist: Option<u64>,
}

impl View for NapoleonInstance {
    type V = NapoleonInstanceView;

    closed spec fn view(&self) -> NapoleonInstanceView {
        NapoleonInstanceView {
            copied_songs: match self.copied_songs {
                Some(songs) => Some(songs@),
                None => None,
            },
            currently_playing_playlist: self.currently_playing_playlist,
        }
    }
}

/// The songs that were copied, or none.
pub open spec fn spec_copied(instance: NapoleonInstanceView) -> Seq<SongRef> {
    match instance.copied_songs {
        Some(songs) => songs,
        None => Seq::<SongRef>::empty(),
    }
}

impl NapoleonInstance {
    /// Nothing is copied and no playlist plays.
    pub fn new() -> (instance: Self)
        ensures
            instance@ == (NapoleonInstanceView {
                copied_songs: None,
                currently_playing_playlist: None,
            }),
    {
        NapoleonInstance { copied_songs: None, currently_playing_playlist: None }
    }

    /// The songs that were copied.
    pub fn copied_songs(&self) -> (songs: Option<&Vec<SongRef>>)
        ensures
            match songs {
                Some(songs) => self@.copied_songs == Some(songs@),
                None => self@.copied_songs is None,
            },
    {
        self.copied_songs.as_ref()
    }

    /// The playlist that plays.
    pub fn currently_playing_playlist(&self) -> (playlist: Option<u64>)
        ensures
            playlist == self@.currently_playing_playlist,
    {
        self.currently_playing_playlist
    }

    /// Copies the selected songs of the songs on display of `playlist`: the
    /// handles of the copies made before go back to the pool, and the copies
    /// get handles of their own.
    pub fn copy_selected_songs(&mut self, playlist: &Playlist, pool: &mut SongPool)
        requires
            old(pool)@.wf(),
        ensures
            final(pool)@.wf(),
            ({
                let selected = playlist@.selected_songs.spec_selected_songs(playlist@.displayed());
                let released = spec_release_all(old(pool)@, spec_copied(old(self)@));
                &&& final(self)@ == (NapoleonInstanceView {
                    copied_songs: Some(spec_copy_all(released, selected).0),
                    ..old(self)@
                })
                &&& final(pool)@ == spec_copy_all(released, selected).1
            }),
    {
        let ghost start = pool@;
        match self.copied_songs.take() {
            Some(previous) => {
                let mut k: usize = 0;
                while k < previous.len()
                    invariant
                        k <= previous@.len(),
                        pool@.wf(),
                        pool@ == spec_release_all(start, previous@.take(k as int)),
                    decreases previous@.len() - k,
                {
                    proof {
                        assert(previous@.take(k + 1).drop_last() =~= previous@.take(k as int));
                    }
                    pool.release(previous[k]);
                    k += 1;
                }
                assert(previous@.take(previous@.len() as int) =~= previous@);
            },
            None => {},
        }
        let ghost released = pool@;
        let selected_songs_variant = playlist.get_selected_songs_variant();
        let selected = selected_songs_variant.get_selected_songs(
            playlist.get_or_load_songs().as_slice(),
        );
        let mut copies: Vec<SongRef> = Vec::new();
        let mut i: usize = 0;
        while i < selected.len()
            invariant
                i <= selected@.len(),
                pool@.wf(),
                copies@ == spec_copy_all(released, selected@.take(i as int)).0,
                pool@ == spec_copy_all(released, selected@.take(i as int)).1,
            decreases selected@.len() - i,
        {
            proof {
                assert(selected@.take(i + 1).drop_last() =~= selected@.take(i as int));
            }
            match pool.get_song_by_id(selected[i].id) {
                Some(copy) => {
                    copies.push(copy);
                },
                None => {},
            }
            i += 1;
        }
        assert(selected@.take(selected@.len() as int) =~= selected@);
        self.copied_songs = Some(copies);
    }

    /// Puts the songs that were copied into `playlist`; see
    /// `Playlist::import_existing_songs`. Hands back the bytes to write to
    /// the file of the playlist, where anything was copied.
    pub fn paste_copied_songs(&self, playlist: &mut Playlist, pool: &mut SongPool) -> (to_write:
        Option<Vec<u8>>)
        requires
            old(playlist).wf(),
            old(pool)@.wf(),
        ensures
            final(playlist).wf(),
            final(pool)@.wf(),
            self@.copied_songs is None ==> final(playlist)@ == old(playlist)@ && final(pool)@
                == old(pool)@ && to_write is None,
            self@.copied_songs matches Some(copied) ==> {
                let pushed = spec_push_all_shared(old(playlist)@.songs, old(pool)@, copied);
                let sorted = PlaylistView {
                    songs: final(playlist)@.songs,
                    ..old(playlist)@
                };
                &&& final(pool)@ == pushed.1
                &&& crate::song_list::spec_sorted_songs(
                    pushed.0,
                    pushed.1,
                    old(playlist)@.playlist_data.sort_by,
                    final(playlist)@.songs,
                )
                &&& final(playlist)@ == crate::playlist::spec_saved(sorted)
                &&& crate::song_source::spec_bytes_view(to_write)
                    == crate::playlist::spec_saved_bytes(sorted)
            },
    {
        match &self.copied_songs {
            Some(copied_songs) => playlist.import_existing_songs(pool, copied_songs),
            None => None,
        }
    }

    /// Starts to play the playlist `key` with the song on display at
    /// `song_index`; see `Playlist::start_play_song`. Where another playlist
    /// plays, its session must be stopped first: the answer names it.
    pub fn start_play_song(&mut self, key: u64, playlist: &mut Playlist, song_index: usize) -> (start:
        InstanceStart)
        requires
            old(playlist).wf(),
        ensures
            final(playlist).wf(),
            start.stop_playlist == (match old(self)@.currently_playing_playlist {
                Some(playing) => if playing != key {
                    Some(playing)
                } else {
                    None
                },
                None => None,
            }),
            start.start.stop_previous == old(playlist)@.has_session,
            start.start.session is Some <==> song_index < old(playlist)@.displayed().len(),
            final(playlist)@ == (PlaylistView {
                has_session: start.start.session is Some,
                ..old(playlist)@
            }),
            final(self)@ == (NapoleonInstanceView {
                currently_playing_playlist: if start.start.session is Some {
                    Some(key)
                } else {
                    None
                },
                ..old(self)@
            }),
            start.start.session matches Some(session) ==> {
                &&& spec_is_new_session(
                    old(playlist)@,
                    old(playlist)@.place_of_displayed(song_index),
                    session@,
                )
                &&& old(playlist)@.songs[session@.queue.next_song() as int] == old(
                    playlist,
                )@.displayed()[song_index as int]
            },
    {
        let stop_playlist = match self.currently_playing_playlist {
            Some(playing) => if playing != key {
                Some(playing)
            } else {
                None
            },
            None => None,
        };
        let start = playlist.start_play_song(song_index);
        self.currently_playing_playlist = if start.session.is_some() {
            Some(key)
        } else {
            None
        };
        InstanceStart { stop_playlist, start }
    }

    /// Starts to play the playlist `key`: with the first song on display
    /// where it plays in sequence, and with a song on display drawn by lot
    /// where it shuffles. There is a new session where a song is on display.
    pub fn start_play_playlist(&mut self, key: u64, playlist: &mut Playlist) -> (start:
        InstanceStart)
        requires
            old(playlist).wf(),
        ensures
            final(playlist).wf(),
            start.stop_playlist == (match old(self)@.currently_playing_playlist {
                Some(playing) => if playing != key {
                    Some(playing)
                } else {
                    None
                },
                None => None,
            }),
            start.start.stop_previous == old(playlist)@.has_session,
            start.start.session is Some <==> old(playlist)@.displayed().len() > 0,
            final(playlist)@ == (PlaylistView {
                has_session: start.start.session is Some,
                ..old(playlist)@
            }),
            final(self)@ == (NapoleonInstanceView {
                currently_playing_playlist: if start.start.session is Some {
                    Some(key)
                } else {
                    None
                },
                ..old(self)@
            }),
            start.start.session matches Some(session) ==> exists|song_index: usize|
                {
                    &&& song_index < old(playlist)@.displayed().len()
                    &&& old(playlist)@.playlist_data.playback_mode == PlaybackMode::Sequential
                        ==> song_index == 0
                    &&& #[trigger] spec_is_new_session(
                        old(playlist)@,
                        old(playlist)@.place_of_displayed(song_index),
                        session@,
                    )
                    &&& old(playlist)@.songs[session@.queue.next_song() as int] == old(
                        playlist,
                    )@.displayed()[song_index as int]
                },
    {
        let songs_len = playlist.get_or_load_songs().len();
        let song_index = match playlist.playback_mode() {
            PlaybackMode::Sequential => 0,
            PlaybackMode::Shuffle => {
                if songs_len == 0 {
                    0
                } else {
                    let mut rng = rand::rng();
                    random_index(&mut rng, 0, songs_len)
                }
            },
        };
        let start = self.start_play_song(key, playlist, song_index);
        proof {
            if start.start.session is Some {
                assert(spec_is_new_session(
                    old(playlist)@,
                    old(playlist)@.place_of_displayed(song_index),
                    start.start.session->0@,
                ));
            }
        }
        start
    }

    /// No playlist plays any more: the playlist whose session must be
    /// stopped, where one played.
    pub fn stop_music(&mut self) -> (stop_playlist: Option<u64>)
        ensures
            stop_playlist == old(self)@.currently_playing_playlist,
            final(self)@ == (NapoleonInstanceView {
                currently_playing_playlist: None,
                ..old(self)@
            }),
    {
        self.currently_playing_playlist.take()
    }
}

} // verus!
