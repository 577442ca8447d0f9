//! The pool of songs: one object for each song, however many playlists
//! name it.
//!
//! The pool counts the handles on each object and does not keep an object
//! alive by itself: when the last handle is given back the object is gone,
//! and the next request for the song makes a new one. What stays behind of
//! a dead object is its number, until the next request takes its place.

use crate::id_generator::{lemma_key_bound, lemma_key_identifies, Id};
use crate::registry::{
    spec_decode_registry, spec_encode_registry, spec_register, RegisteredSongs,
};
use crate::sidecar::spec_encode;
use crate::song::{spec_loaded, spec_probed, spec_sidecar, spec_stored, Song, SongView};
use crate::song_data::{
    spec_default_song_data, spec_probed_views, ProbedTag, SongData, SongDataView,
};
use crate::song_ref::SongRef;
use std::collections::HashMap;
use vstd::prelude::*;

verus! {

/// What the pool holds for one song.
pub struct PoolEntry {
    /// The number of the object made last for the song.
    pub object: u64,
    /// The handles on that object that are out.
    pub strong: usize,
    /// The object, while handles on it are out.
    pub song: Option<Song>,
}

/// What the pool holds for one song, as plain values.
pub struct PoolEntryView {
    pub object: u64,
    pub strong: nat,
    pub song: Option<SongView>,
}

impl View for PoolEntry {
    type V = PoolEntryView;

    open spec fn view(&self) -> PoolEntryView {
        PoolEntryView {
            object: self.object,
            strong: self.strong as nat,
            song: match self.song {
                Some(song) => Some(song@),
                None => None,
            },
        }
    }
}

/// The pool, as plain values: what it holds under the key of each song,
/// how many objects it has made, and the names under which songs came in.
pub struct SongPoolView {
    pub entries: Map<u128, PoolEntryView>,
    pub created: u64,
    pub registered: Seq<(Seq<char>, Id)>,
}

/// The key of `id` as the pool stores it.
pub open spec fn spec_pool_key(id: Id) -> u128 {
    id.spec_key() as u128
}

impl SongPoolView {
    /// Every object has a number below the count of objects made; an object
    /// is there exactly while handles on it are out, and stands under the
    /// key of its song.
    pub open spec fn wf(self) -> bool {
        forall|key: u128| #[trigger]
            self.entries.contains_key(key) ==> {
                let entry = self.entries[key];
                &&& entry.object < self.created
                &&& entry.strong > 0 <==> entry.song is Some
                &&& entry.song matches Some(song) ==> spec_pool_key(song.id) == key
            }
    }

    /// An object for the song `id` is alive.
    pub open spec fn is_live(self, id: Id) -> bool {
        self.entries.contains_key(spec_pool_key(id)) && self.entries[spec_pool_key(id)].strong > 0
    }

    /// An object for the song `id` is alive, and what is known of the song
    /// was read.
    pub open spec fn is_loaded(self, id: Id) -> bool {
        self.is_live(id) && (self.entries[spec_pool_key(id)].song matches Some(song)
            && song.has_loaded_song_data)
    }

    /// The handles that are out on the song `id`.
    pub open spec fn strong_count(self, id: Id) -> nat {
        if self.is_live(id) {
            self.entries[spec_pool_key(id)].strong
        } else {
            0
        }
    }

    /// `song` is a handle on the object that is alive for its song.
    pub open spec fn holds(self, song: SongRef) -> bool {
        self.is_live(song.id) && self.entries[spec_pool_key(song.id)].object == song.object
    }

    /// The song behind a handle, where the handle is on a live object.
    pub open spec fn song(self, song: SongRef) -> Option<SongView> {
        if self.holds(song) {
            self.entries[spec_pool_key(song.id)].song
        } else {
            None
        }
    }

    /// What is known of the song behind a handle.
    pub open spec fn song_data(self, song: SongRef) -> Option<SongDataView> {
        match self.song(song) {
            Some(song) => Some(song.song_data),
            None => None,
        }
    }

    /// No further handle on the song `id` can be handed out: the count of
    /// handles or the count of objects is at the end of its range.
    pub open spec fn is_exhausted(self, id: Id) -> bool {
        if self.is_live(id) {
            self.entries[spec_pool_key(id)].strong >= usize::MAX
        } else {
            self.created >= u64::MAX
        }
    }

    /// The handle that a request for the song `id` gives: on the live
    /// object where there is one, on a new object otherwise.
    pub open spec fn handle_for(self, id: Id) -> SongRef {
        if self.is_live(id) {
            SongRef { id, object: self.entries[spec_pool_key(id)].object }
        } else {
            SongRef { id, object: self.created }
        }
    }

    /// The pool after a request for the song `id`: one more handle is out
    /// on the live object, or a new object is there with one handle out.
    pub open spec fn acquire(self, id: Id) -> SongPoolView {
        let key = spec_pool_key(id);
        if self.is_live(id) {
            let entry = self.entries[key];
            SongPoolView {
                entries: self.entries.insert(
                    key,
                    PoolEntryView { strong: entry.strong + 1, ..entry },
                ),
                ..self
            }
        } else {
            SongPoolView {
                entries: self.entries.insert(
                    key,
                    PoolEntryView {
                        object: self.created,
                        strong: 1,
                        song: Some(
                            SongView {
                                id,
                                song_data: spec_default_song_data(),
                                has_loaded_song_data: false,
                            },
                        ),
                    },
                ),
                created: (self.created + 1) as u64,
                ..self
            }
        }
    }

    /// The pool after a handle was given back: one handle fewer is out on
    /// its object, and the object is gone with the last. A handle on no
    /// live object changes nothing.
    pub open spec fn release(self, song: SongRef) -> SongPoolView {
        let key = spec_pool_key(song.id);
        if self.holds(song) {
            let entry = self.entries[key];
            let strong = (entry.strong - 1) as nat;
            SongPoolView {
                entries: self.entries.insert(
                    key,
                    PoolEntryView {
                        strong,
                        song: if strong == 0 {
                            None
                        } else {
                            entry.song
                        },
                        ..entry
                    },
                ),
                ..self
            }
        } else {
            self
        }
    }

    /// The pool with `data` for what is known of the song behind `song`.
    pub open spec fn with_song_data(self, song: SongRef, data: SongDataView) -> SongPoolView {
        let key = spec_pool_key(song.id);
        match self.song(song) {
            Some(held) => SongPoolView {
                entries: self.entries.insert(
                    key,
                    PoolEntryView {
                        song: Some(
                            SongView { song_data: data, has_loaded_song_data: true, ..held },
                        ),
                        ..self.entries[key]
                    },
                ),
                ..self
            },
            None => self,
        }
    }
}

/// The pool of songs.
pub struct SongPool {
    songs: HashMap<u128, PoolEntry>,
    created: u64,
    registered_songs: RegisteredSongs,
}

/// The entries of a map as plain values.
pub open spec fn spec_entry_views(songs: Map<u128, PoolEntry>) -> Map<u128, PoolEntryView> {
    Map::new(|key: u128| songs.contains_key(key), |key: u128| songs[key]@)
}

impl View for SongPool {
    type V = SongPoolView;

    closed spec fn view(&self) -> SongPoolView {
        SongPoolView {
            entries: spec_entry_views(self.songs@),
            created: self.created,
            registered: self.registered_songs@,
        }
    }
}

impl SongPool {
    /// An empty pool.
    pub fn new() -> (pool: Self)
        ensures
            pool@.wf(),
            pool@.entries == Map::<u128, PoolEntryView>::empty(),
            pool@.created == 0,
            pool@.registered == Seq::<(Seq<char>, Id)>::empty(),
    {
        let pool = SongPool {
            songs: HashMap::new(),
            created: 0,
            registered_songs: RegisteredSongs::new(),
        };
        assert(pool@.entries =~= Map::<u128, PoolEntryView>::empty());
        pool
    }

    /// A handle on the song `id`: on the object that is alive for the song,
    /// or on a new object where none is alive. `None` where no further
    /// handle can be counted or no further object numbered.
    pub fn get_song_by_id(&mut self, song_id: Id) -> (song: Option<SongRef>)
        requires
            old(self)@.wf(),
        ensures
            final(self)@.wf(),
            match song {
                Some(song) => {
                    &&& !old(self)@.is_exhausted(song_id)
                    &&& song == old(self)@.handle_for(song_id)
                    &&& final(self)@ == old(self)@.acquire(song_id)
                    &&& final(self)@.holds(song)
                },
                None => old(self)@.is_exhausted(song_id) && final(self)@ == old(self)@,
            },
    {
        let key = song_id.key();
        proof {
            lemma_key_bound(song_id);
            crate::id_generator::lemma_pow256_fifteen();
        }
        let ghost before = self.songs@;
        let live = match self.songs.get(&key) {
            Some(entry) => entry.strong > 0,
            None => false,
        };
        if live {
            let strong = match self.songs.get(&key) {
                Some(entry) => entry.strong,
                None => 0,
            };
            if strong == usize::MAX {
                return None;
            }
            match self.songs.remove(&key) {
                Some(entry) => {
                    let object = entry.object;
                    let grown = PoolEntry { object, strong: entry.strong + 1, song: entry.song };
                    self.songs.insert(key, grown);
                    assert(self@.entries =~= old(self)@.acquire(song_id).entries);
                    Some(SongRef { id: song_id, object })
                },
                None => None,
            }
        } else {
            if self.created == u64::MAX {
                return None;
            }
            let object = self.created;
            let made = PoolEntry { object, strong: 1, song: Some(Song::new(song_id)) };
            self.songs.insert(key, made);
            self.created = object + 1;
            assert(self@.entries =~= old(self)@.acquire(song_id).entries);
            Some(SongRef { id: song_id, object })
        }
    }

    /// Gives a handle back. With the last handle on an object the object is
    /// gone. A handle on no live object changes nothing.
    pub fn release(&mut self, song: SongRef)
        requires
            old(self)@.wf(),
        ensures
            final(self)@.wf(),
            final(self)@ == old(self)@.release(song),
    {
        let key = song.id.key();
        proof {
            lemma_key_bound(song.id);
            crate::id_generator::lemma_pow256_fifteen();
        }
        let held = match self.songs.get(&key) {
            Some(entry) => entry.strong > 0 && entry.object == song.object,
            None => false,
        };
        if !held {
            return ;
        }
        match self.songs.remove(&key) {
            Some(entry) => {
                let strong = entry.strong - 1;
                let left = PoolEntry {
                    object: entry.object,
                    strong,
                    song: if strong == 0 {
                        None
                    } else {
                        entry.song
                    },
                };
                self.songs.insert(key, left);
                assert(self@.entries =~= old(self)@.release(song).entries);
            },
            None => {},
        }
    }

    /// The song behind a handle, where the handle is on a live object.
    pub fn song(&self, song: &SongRef) -> (held: Option<&Song>)
        requires
            self@.wf(),
        ensures
            match held {
                Some(held) => self@.song(*song) == Some(held@),
                None => self@.song(*song) is None,
            },
    {
        let key = song.id.key();
        proof {
            lemma_key_bound(song.id);
            crate::id_generator::lemma_pow256_fifteen();
        }
        match self.songs.get(&key) {
            Some(entry) => {
                if entry.strong > 0 && entry.object == song.object {
                    entry.song.as_ref()
                } else {
                    None
                }
            },
            None => None,
        }
    }

    /// What is known of the song behind a handle.
    pub fn song_data(&self, song: &SongRef) -> (data: Option<&SongData>)
        requires
            self@.wf(),
        ensures
            match data {
                Some(data) => self@.song_data(*song) == Some(data@),
                None => self@.song_data(*song) is None,
            },
    {
        match self.song(song) {
            Some(held) => Some(held.get_song_data()),
            None => None,
        }
    }

    /// Whether an object is alive for the song `id` and what is known of
    /// the song was read: the files of the song need no reading then.
    pub fn is_loaded(&self, song_id: &Id) -> (loaded: bool)
        requires
            self@.wf(),
        ensures
            loaded == self@.is_loaded(*song_id),
    {
        let key = song_id.key();
        proof {
            lemma_key_bound(*song_id);
            crate::id_generator::lemma_pow256_fifteen();
        }
        match self.songs.get(&key) {
            Some(entry) => match &entry.song {
                Some(held) => entry.strong > 0 && held.has_loaded_song_data,
                None => false,
            },
            None => false,
        }
    }

    /// The handles that are out on the song `id`.
    pub fn strong_count(&self, song_id: &Id) -> (count: usize)
        requires
            self@.wf(),
        ensures
            count == self@.strong_count(*song_id),
    {
        let key = song_id.key();
        proof {
            lemma_key_bound(*song_id);
            crate::id_generator::lemma_pow256_fifteen();
        }
        match self.songs.get(&key) {
            Some(entry) => entry.strong,
            None => 0,
        }
    }

    /// Takes the names under which songs came in from the file of the
    /// registry: `file` holds its bytes, or `None` where it could not be
    /// read. A file that makes no sense counts as that of a registry without
    /// entries.
    pub fn load_registered_songs(&mut self, file: Option<&[u8]>)
        ensures
            final(self)@ == (SongPoolView {
                registered: match crate::song::spec_sidecar(file) {
                    Some(bytes) => match spec_decode_registry(bytes) {
                        Some(entries) => entries,
                        None => Seq::<(Seq<char>, Id)>::empty(),
                    },
                    None => Seq::<(Seq<char>, Id)>::empty(),
                },
                ..old(self)@
            }),
    {
        let stored = match file {
            Some(bytes) => RegisteredSongs::from_bytes(bytes),
            None => None,
        };
        self.registered_songs = match stored {
            Some(registry) => registry,
            None => RegisteredSongs::new(),
        };
    }

    /// Notes that the song `song_id` came in under `name`. The note is kept
    /// in memory until `save_registered_songs` is asked for the bytes to
    /// write.
    pub fn register_song(&mut self, song_id: Id, name: String)
        ensures
            final(self)@ == (SongPoolView {
                registered: spec_register(old(self)@.registered, name@, song_id),
                ..old(self)@
            }),
    {
        self.registered_songs.register_song(song_id, name);
    }

    /// The bytes to write to the file of the registry.
    pub fn save_registered_songs(&self) -> (bytes: Vec<u8>)
        ensures
            bytes@ == spec_encode_registry(self@.registered),
    {
        self.registered_songs.to_bytes()
    }

    /// The names under which songs came in.
    pub fn registered_songs(&self) -> (registry: &RegisteredSongs)
        ensures
            registry@ == self@.registered,
    {
        &self.registered_songs
    }

    /// How many objects the pool has made.
    pub fn created(&self) -> (created: u64)
        ensures
            created == self@.created,
    {
        self.created
    }

    /// Puts `data` in place of what is known of the song behind `song`, and
    /// hands back the bytes to write to the file beside the song; `None`
    /// where the handle is on no live object.
    pub fn set_song_data(&mut self, song: &SongRef, data: SongData) -> (to_write: Option<Vec<u8>>)
        requires
            old(self)@.wf(),
        ensures
            final(self)@.wf(),
            final(self)@ == old(self)@.with_song_data(*song, data@),
            match to_write {
                Some(bytes) => old(self)@.holds(*song) && bytes@ == spec_encode(data@),
                None => !old(self)@.holds(*song),
            },
    {
        let key = song.id.key();
        proof {
            lemma_key_bound(song.id);
            crate::id_generator::lemma_pow256_fifteen();
        }
        let held = match self.songs.get(&key) {
            Some(entry) => entry.strong > 0 && entry.object == song.object,
            None => false,
        };
        if !held {
            return None;
        }
        match self.songs.remove(&key) {
            Some(entry) => {
                let PoolEntry { object, strong, song: held_song } = entry;
                match held_song {
                    Some(mut held_song) => {
                        let to_write = held_song.set_song_data(data);
                        self.songs.insert(key, PoolEntry { object, strong, song: Some(held_song) });
                        assert(self@.entries =~= old(self)@.with_song_data(*song, data@).entries);
                        Some(to_write)
                    },
                    None => None,
                }
            },
            None => None,
        }
    }

    /// Reads what is known of the song behind `song` from what its files
    /// say, where it was not read before: see `Song::load_song_data`. Hands
    /// back the bytes to write to the file beside the song, where there are
    /// any.
    pub fn load_song_data(
        &mut self,
        song: &SongRef,
        sidecar: Option<&[u8]>,
        tags: &Vec<ProbedTag>,
    ) -> (to_write: Option<Vec<u8>>)
        requires
            old(self)@.wf(),
        ensures
            final(self)@.wf(),
            match old(self)@.song(*song) {
                Some(held) => if held.has_loaded_song_data {
                    final(self)@ == old(self)@ && to_write is None
                } else {
                    &&& final(self)@ == old(self)@.with_song_data(
                        *song,
                        spec_loaded(spec_sidecar(sidecar), spec_probed_views(tags@)),
                    )
                    &&& match to_write {
                        Some(bytes) => spec_stored(spec_sidecar(sidecar)) is None && bytes@
                            == spec_encode(spec_probed(spec_probed_views(tags@))),
                        None => spec_stored(spec_sidecar(sidecar)) is Some,
                    }
                },
                None => final(self)@ == old(self)@ && to_write is None,
            },
    {
        let key = song.id.key();
        proof {
            lemma_key_bound(song.id);
            crate::id_generator::lemma_pow256_fifteen();
        }
        let needed = match self.songs.get(&key) {
            Some(entry) => entry.strong > 0 && entry.object == song.object && (match &entry.song {
                Some(held) => !held.has_loaded_song_data,
                None => false,
            }),
            None => false,
        };
        if !needed {
            return None;
        }
        match self.songs.remove(&key) {
            Some(entry) => {
                let PoolEntry { object, strong, song: held_song } = entry;
                match held_song {
                    Some(mut held_song) => {
                        let to_write = held_song.load_song_data(sidecar, tags);
                        self.songs.insert(key, PoolEntry { object, strong, song: Some(held_song) });
                        assert(self@.entries =~= old(self)@.with_song_data(
                            *song,
                            spec_loaded(spec_sidecar(sidecar), spec_probed_views(tags@)),
                        ).entries);
                        to_write
                    },
                    None => None,
                }
            },
            None => None,
        }
    }
}

/// Two requests for a song, the handle of the first still out, give
/// handles on one and the same object.
pub proof fn lemma_same_object_while_held(pool: SongPoolView, id: Id)
    requires
        pool.wf(),
        !pool.is_exhausted(id),
    ensures
        pool.acquire(id).wf(),
        pool.acquire(id).holds(pool.handle_for(id)),
        pool.acquire(id).handle_for(id).same_object(pool.handle_for(id)),
        pool.acquire(id).handle_for(id) == pool.handle_for(id),
{
    lemma_acquire_wf(pool, id);
}

/// Once every handle on a song is given back the object is gone, and the
/// next request makes a new object: its number is none that the pool ever
/// handed out before.
pub proof fn lemma_new_object_after_release(pool: SongPoolView, song: SongRef)
    requires
        pool.wf(),
        pool.holds(song),
        pool.strong_count(song.id) == 1,
    ensures
        pool.release(song).wf(),
        !pool.release(song).is_live(song.id),
        pool.release(song).song(song) is None,
        pool.release(song).handle_for(song.id).object == pool.created,
        pool.release(song).handle_for(song.id).object != song.object,
        forall|key: u128| #[trigger]
            pool.entries.contains_key(key) ==> pool.entries[key].object != pool.release(
                song,
            ).handle_for(song.id).object,
{
    lemma_release_wf(pool, song);
}

/// A song has one live object at most: two handles on live objects of one
/// song are handles on one and the same object, and show the same song.
pub proof fn lemma_one_object_per_song(pool: SongPoolView, first: SongRef, second: SongRef)
    requires
        pool.holds(first),
        pool.holds(second),
        first.same_song(second),
    ensures
        first.same_object(second),
        pool.song(first) == pool.song(second),
{
    lemma_pool_key_identifies(first.id, second.id);
}

/// While no handle on a song is out, a request for the song makes a new
/// object, whose number is none that the pool holds for any song.
pub proof fn lemma_new_object_while_dead(pool: SongPoolView, id: Id)
    requires
        pool.wf(),
        pool.strong_count(id) == 0,
    ensures
        !pool.is_live(id),
        pool.handle_for(id).object == pool.created,
        forall|key: u128| #[trigger]
            pool.entries.contains_key(key) ==> pool.entries[key].object != pool.handle_for(
                id,
            ).object,
        forall|song: SongRef| song.same_song(SongRef { id, object: 0 }) ==> pool.song(song) is None,
{
    assert forall|song: SongRef| song.same_song(SongRef { id, object: 0 }) implies pool.song(
        song,
    ) is None by {
        lemma_pool_key_identifies(song.id, id);
    }
}

/// A request leaves the pool well formed.
pub proof fn lemma_acquire_wf(pool: SongPoolView, id: Id)
    requires
        pool.wf(),
        !pool.is_exhausted(id),
    ensures
        pool.acquire(id).wf(),
        pool.acquire(id).holds(pool.handle_for(id)),
        pool.acquire(id).strong_count(id) == pool.strong_count(id) + 1,
{
}

/// Giving a handle back leaves the pool well formed.
pub proof fn lemma_release_wf(pool: SongPoolView, song: SongRef)
    requires
        pool.wf(),
    ensures
        pool.release(song).wf(),
        pool.holds(song) ==> pool.release(song).strong_count(song.id) == pool.strong_count(song.id)
            - 1,
{
}

/// Handles on different songs stand for different entries of the pool.
pub proof fn lemma_pool_key_identifies(a: Id, b: Id)
    ensures
        spec_pool_key(a) == spec_pool_key(b) <==> a.same_id(b),
{
    lemma_key_identifies(a, b);
    lemma_key_bound(a);
    lemma_key_bound(b);
    crate::id_generator::lemma_pow256_fifteen();
}

} // verus!
