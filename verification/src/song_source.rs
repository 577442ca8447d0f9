//! Taking songs into a list: what was read of a song outside, and what
//! putting the song into a list does to the list and to the pool.

use crate::id_generator::Id;
use crate::registry::spec_register;
use crate::sidecar::spec_encode;
use crate::song::{spec_loaded, spec_probed, spec_stored, UNNAMED_SONG_STR};
use crate::song_data::{spec_probed_views, ProbedTag, ProbedTagView, SongData, SongDataView};
use crate::song_list::{spec_has_song, SongList};
use crate::song_pool::{lemma_acquire_wf, SongPool, SongPoolView};
use crate::song_ref::SongRef;
use vstd::prelude::*;

verus! {

/// A song to take into a list, with what was read of it outside: the name
/// of the file it came from, where it comes in new; the bytes of the file
/// beside the song, where that file could be read; and the tags found in
/// the audio file. The files need reading only where the pool has not read
/// them.
pub struct SongSource {
    pub id: Id,
    pub original_name: Option<String>,
    pub sidecar: Option<Vec<u8>>,
    pub tags: Vec<ProbedTag>,
}

/// A song to take into a list, as plain values.
pub struct SongSourceView {
    pub id: Id,
    pub original_name: Option<Seq<char>>,
    pub sidecar: Option<Seq<u8>>,
    pub tags: Seq<ProbedTagView>,
}

impl View for SongSource {
    type V = SongSourceView;

    open spec fn view(&self) -> SongSourceView {
        SongSourceView {
            id: self.id,
            original_name: match self.original_name {
                Some(name) => Some(name@),
                None => None,
            },
            sidecar: match self.sidecar {
                Some(bytes) => Some(bytes@),
                None => None,
            },
            tags: spec_probed_views(self.tags@),
        }
    }
}

/// What came of taking one song: whether it was put into the list, and the
/// bytes to write to the file beside the song, where there are any.
pub struct PushOutcome {
    pub added: bool,
    pub to_write: Option<Vec<u8>>,
}

/// A list and the pool after a song was taken, as plain values.
pub struct PushView {
    pub songs: Seq<SongRef>,
    pub pool: SongPoolView,
    pub added: bool,
    pub to_write: Option<Seq<u8>>,
}

/// The title that a song without title gets: the name of the file it came
/// from, or the title of the unnamed.
pub open spec fn spec_title_for(original_name: Option<Seq<char>>) -> Seq<char> {
    match original_name {
        Some(name) => name,
        None => UNNAMED_SONG_STR@,
    }
}

/// `data` with a title where it had none.
pub open spec fn spec_titled(data: SongDataView, original_name: Option<Seq<char>>) -> SongDataView {
    if data.title.len() == 0 {
        SongDataView { title: spec_title_for(original_name), ..data }
    } else {
        data
    }
}

/// The pool once the name of the file that a song came from is noted.
pub open spec fn spec_noted(pool: SongPoolView, source: SongSourceView) -> SongPoolView {
    match source.original_name {
        Some(name) => SongPoolView {
            registered: spec_register(pool.registered, name, source.id),
            ..pool
        },
        None => pool,
    }
}

/// What is known of the song of `source` once the pool has read it: what
/// the pool knew, where it had read the song before.
pub open spec fn spec_read(pool: SongPoolView, source: SongSourceView) -> SongDataView {
    let song = pool.handle_for(source.id);
    let held = pool.acquire(source.id).song(song)->0;
    if held.has_loaded_song_data {
        held.song_data
    } else {
        spec_loaded(source.sidecar, source.tags)
    }
}

/// The bytes to write to the file beside the song of `source`: what is
/// known of the song with its new title, where it had none; else what the
/// tags of the audio file gave, where these were used; else nothing.
pub open spec fn spec_to_write(pool: SongPoolView, source: SongSourceView) -> Option<Seq<u8>> {
    let song = pool.handle_for(source.id);
    let held = pool.acquire(source.id).song(song)->0;
    let read = spec_read(pool, source);
    if read.title.len() == 0 {
        Some(spec_encode(spec_titled(read, source.original_name)))
    } else if !held.has_loaded_song_data && spec_stored(source.sidecar) is None {
        Some(spec_encode(spec_probed(source.tags)))
    } else {
        None
    }
}

/// A list and the pool after the song of `source` was taken.
///
/// The name of the file is noted. The pool hands out a handle on the song;
/// what is known of the song is read where it was not, and the song gets a
/// title where it has none. The handle goes behind the others in the list,
/// or back to the pool where the song stands in the list already. Where the
/// pool can hand out no handle, nothing else happens.
pub open spec fn spec_push_source(
    songs: Seq<SongRef>,
    pool: SongPoolView,
    source: SongSourceView,
) -> PushView {
    let noted = spec_noted(pool, source);
    if noted.is_exhausted(source.id) {
        PushView { songs, pool: noted, added: false, to_write: None }
    } else {
        let song = noted.handle_for(source.id);
        let titled = noted.acquire(source.id).with_song_data(
            song,
            spec_titled(spec_read(noted, source), source.original_name),
        );
        if spec_has_song(songs, source.id) {
            PushView {
                songs,
                pool: titled.release(song),
                added: false,
                to_write: spec_to_write(noted, source),
            }
        } else {
            PushView {
                songs: songs.push(song),
                pool: titled,
                added: true,
                to_write: spec_to_write(noted, source),
            }
        }
    }
}

/// Bytes to write to the file beside the song `id`.
pub struct SidecarWrite {
    pub id: Id,
    pub bytes: Vec<u8>,
}

/// The writes as plain values.
pub open spec fn spec_write_views(writes: Seq<SidecarWrite>) -> Seq<(Id, Seq<u8>)> {
    Seq::new(writes.len(), |i: int| (writes[i].id, writes[i].bytes@))
}

/// The sources as plain values.
pub open spec fn spec_source_views(sources: Seq<SongSource>) -> Seq<SongSourceView> {
    Seq::new(sources.len(), |i: int| sources[i]@)
}

/// A list and the pool after songs were taken, and what is to be written,
/// as plain values.
pub struct BatchView {
    pub songs: Seq<SongRef>,
    pub pool: SongPoolView,
    pub writes: Seq<(Id, Seq<u8>)>,
}

/// A list and the pool after the songs of `sources` were taken one after
/// the other, and the bytes to write for each song that has any.
pub open spec fn spec_push_sources(
    songs: Seq<SongRef>,
    pool: SongPoolView,
    sources: Seq<SongSourceView>,
) -> BatchView
    decreases sources.len(),
{
    if sources.len() == 0 {
        BatchView { songs, pool, writes: Seq::<(Id, Seq<u8>)>::empty() }
    } else {
        let before = spec_push_sources(songs, pool, sources.drop_last());
        let step = spec_push_source(before.songs, before.pool, sources.last());
        BatchView {
            songs: step.songs,
            pool: step.pool,
            writes: match step.to_write {
                Some(bytes) => before.writes.push((sources.last().id, bytes)),
                None => before.writes,
            },
        }
    }
}

/// A list and the pool after a handle on the song of `song` was asked for
/// the list: a handle of its own goes behind the others, unless the song is
/// in the list already or the pool can hand out no handle.
pub open spec fn spec_push_shared(songs: Seq<SongRef>, pool: SongPoolView, song: SongRef) -> (
    Seq<SongRef>,
    SongPoolView,
) {
    if spec_has_song(songs, song.id) || pool.is_exhausted(song.id) {
        (songs, pool)
    } else {
        (songs.push(pool.handle_for(song.id)), pool.acquire(song.id))
    }
}

/// A list and the pool after handles on the songs of `shared` were asked
/// for the list, one after the other.
pub open spec fn spec_push_all_shared(
    songs: Seq<SongRef>,
    pool: SongPoolView,
    shared: Seq<SongRef>,
) -> (Seq<SongRef>, SongPoolView)
    decreases shared.len(),
{
    if shared.len() == 0 {
        (songs, pool)
    } else {
        let before = spec_push_all_shared(songs, pool, shared.drop_last());
        spec_push_shared(before.0, before.1, shared.last())
    }
}

/// Taking songs into a list leaves every song of the list in it.
pub proof fn lemma_push_sources_keeps(
    songs: Seq<SongRef>,
    pool: SongPoolView,
    sources: Seq<SongSourceView>,
)
    ensures
        forall|song: SongRef|
            songs.contains(song) ==> #[trigger] spec_push_sources(
                songs,
                pool,
                sources,
            ).songs.contains(song),
    decreases sources.len(),
{
    if sources.len() > 0 {
        lemma_push_sources_keeps(songs, pool, sources.drop_last());
        let before = spec_push_sources(songs, pool, sources.drop_last());
        let after = spec_push_sources(songs, pool, sources);
        assert forall|song: SongRef| songs.contains(song) implies #[trigger] after.songs.contains(
            song,
        ) by {
            assert(before.songs.contains(song));
            let k = choose|k: int| 0 <= k < before.songs.len() && before.songs[k] == song;
            assert(after.songs[k] == song);
        }
    }
}

/// Asking handles for a list leaves every song of the list in it.
pub proof fn lemma_push_all_shared_keeps(
    songs: Seq<SongRef>,
    pool: SongPoolView,
    shared: Seq<SongRef>,
)
    ensures
        forall|song: SongRef|
            songs.contains(song) ==> #[trigger] spec_push_all_shared(songs, pool, shared).0.contains(
                song,
            ),
    decreases shared.len(),
{
    if shared.len() > 0 {
        lemma_push_all_shared_keeps(songs, pool, shared.drop_last());
        let before = spec_push_all_shared(songs, pool, shared.drop_last());
        let after = spec_push_all_shared(songs, pool, shared);
        assert forall|song: SongRef| songs.contains(song) implies #[trigger] after.0.contains(
            song,
        ) by {
            assert(before.0.contains(song));
            let k = choose|k: int| 0 <= k < before.0.len() && before.0[k] == song;
            assert(after.0[k] == song);
        }
    }
}

/// `bytes` as plain values.
pub open spec fn spec_bytes_view(bytes: Option<Vec<u8>>) -> Option<Seq<u8>> {
    match bytes {
        Some(bytes) => Some(bytes@),
        None => None,
    }
}

impl SongList {
    /// Takes the song of `source` into the list; see `spec_push_source`.
    pub fn push_song0(&mut self, pool: &mut SongPool, source: &SongSource) -> (outcome: PushOutcome)
        requires
            old(self).wf(),
            old(pool)@.wf(),
        ensures
            final(self).wf(),
            final(pool)@.wf(),
            final(self)@ == spec_push_source(old(self)@, old(pool)@, source@).songs,
            final(pool)@ == spec_push_source(old(self)@, old(pool)@, source@).pool,
            outcome.added == spec_push_source(old(self)@, old(pool)@, source@).added,
            spec_bytes_view(outcome.to_write) == spec_push_source(
                old(self)@,
                old(pool)@,
                source@,
            ).to_write,
    {
        match &source.original_name {
            Some(name) => {
                pool.register_song(source.id, name.clone());
            },
            None => {},
        }
        let ghost noted = pool@;
        let song = match pool.get_song_by_id(source.id) {
            Some(song) => song,
            None => {
                return PushOutcome { added: false, to_write: None };
            },
        };
        proof {
            lemma_acquire_wf(noted, source.id);
        }
        let ghost acquired = pool@;
        let sidecar: Option<&[u8]> = match &source.sidecar {
            Some(bytes) => Some(bytes.as_slice()),
            None => None,
        };
        let mut to_write = pool.load_song_data(&song, sidecar, &source.tags);
        let ghost loaded = pool@;
        let untitled: Option<SongData> = match pool.song_data(&song) {
            Some(data) => if data.title.as_str().unicode_len() == 0 {
                Some(data.clone())
            } else {
                None
            },
            None => None,
        };
        match untitled {
            Some(mut data) => {
                data.title = match &source.original_name {
                    Some(name) => name.clone(),
                    None => UNNAMED_SONG_STR.to_owned(),
                };
                to_write = pool.set_song_data(&song, data);
            },
            None => {},
        }
        proof {
            let read = spec_read(noted, source@);
            let titled = spec_titled(read, source@.original_name);
            assert(loaded.song_data(song) == Some(read));
            assert(pool@.entries =~= acquired.with_song_data(song, titled).entries);
            assert(pool@ == acquired.with_song_data(song, titled));
        }
        if self.contains(&source.id) {
            pool.release(song);
            PushOutcome { added: false, to_write }
        } else {
            self.push(song);
            PushOutcome { added: true, to_write }
        }
    }

    /// Takes the songs of `sources` into the list, one after the other, and
    /// hands back what is to be written then.
    pub fn push_songs(&mut self, pool: &mut SongPool, sources: &Vec<SongSource>) -> (writes: Vec<
        SidecarWrite,
    >)
        requires
            old(self).wf(),
            old(pool)@.wf(),
        ensures
            final(self).wf(),
            final(pool)@.wf(),
            final(self)@ == spec_push_sources(
                old(self)@,
                old(pool)@,
                spec_source_views(sources@),
            ).songs,
            final(pool)@ == spec_push_sources(
                old(self)@,
                old(pool)@,
                spec_source_views(sources@),
            ).pool,
            spec_write_views(writes@) == spec_push_sources(
                old(self)@,
                old(pool)@,
                spec_source_views(sources@),
            ).writes,
    {
        self.reserve(sources.len());
        let ghost all = spec_source_views(sources@);
        let mut writes: Vec<SidecarWrite> = Vec::new();
        let mut i: usize = 0;
        while i < sources.len()
            invariant
                i <= sources@.len(),
                all == spec_source_views(sources@),
                self.wf(),
                pool@.wf(),
                self@ == spec_push_sources(old(self)@, old(pool)@, all.take(i as int)).songs,
                pool@ == spec_push_sources(old(self)@, old(pool)@, all.take(i as int)).pool,
                spec_write_views(writes@) == spec_push_sources(
                    old(self)@,
                    old(pool)@,
                    all.take(i as int),
                ).writes,
            decreases sources@.len() - i,
        {
            proof {
                assert(all.take(i + 1).drop_last() =~= all.take(i as int));
                assert(all.take(i + 1).last() == sources@[i as int]@);
            }
            let outcome = self.push_song0(pool, &sources[i]);
            let ghost before = spec_write_views(writes@);
            match outcome.to_write {
                Some(bytes) => {
                    writes.push(SidecarWrite { id: sources[i].id, bytes });
                    assert(spec_write_views(writes@) =~= before.push((sources@[i as int].id, bytes@)));
                },
                None => {},
            }
            i += 1;
        }
        assert(all.take(all.len() as int) =~= all);
        writes
    }

    /// Takes a song that comes in new into the list, under the name of the
    /// file it came from; see `spec_push_source`.
    pub fn push_new_song(
        &mut self,
        pool: &mut SongPool,
        song_id: Id,
        original_name: &str,
        sidecar: Option<Vec<u8>>,
        tags: Vec<ProbedTag>,
    ) -> (outcome: PushOutcome)
        requires
            old(self).wf(),
            old(pool)@.wf(),
        ensures
            final(self).wf(),
            final(pool)@.wf(),
            ({
                let source = SongSourceView {
                    id: song_id,
                    original_name: Some(original_name@),
                    sidecar: spec_bytes_view(sidecar),
                    tags: spec_probed_views(tags@),
                };
                let pushed = spec_push_source(old(self)@, old(pool)@, source);
                &&& final(self)@ == pushed.songs
                &&& final(pool)@ == pushed.pool
                &&& outcome.added == pushed.added
                &&& spec_bytes_view(outcome.to_write) == pushed.to_write
            }),
    {
        let source = SongSource {
            id: song_id,
            original_name: Some(original_name.to_owned()),
            sidecar,
            tags,
        };
        self.push_song0(pool, &source)
    }

    /// Asks handles of its own for the list on the songs of `shared`, one
    /// after the other: each goes behind the others, unless its song is in
    /// the list already.
    pub fn push_songs_arc_list(&mut self, pool: &mut SongPool, shared: &Vec<SongRef>)
        requires
            old(self).wf(),
            old(pool)@.wf(),
        ensures
            final(self).wf(),
            final(pool)@.wf(),
            final(self)@ == spec_push_all_shared(old(self)@, old(pool)@, shared@).0,
            final(pool)@ == spec_push_all_shared(old(self)@, old(pool)@, shared@).1,
    {
        self.reserve(shared.len());
        let mut i: usize = 0;
        while i < shared.len()
            invariant
                i <= shared@.len(),
                self.wf(),
                pool@.wf(),
                self@ == spec_push_all_shared(old(self)@, old(pool)@, shared@.take(i as int)).0,
                pool@ == spec_push_all_shared(old(self)@, old(pool)@, shared@.take(i as int)).1,
            decreases shared@.len() - i,
        {
            proof {
                assert(shared@.take(i + 1).drop_last() =~= shared@.take(i as int));
            }
            let id = shared[i].id;
            if !self.contains(&id) {
                match pool.get_song_by_id(id) {
                    Some(song) => {
                        self.push(song);
                    },
                    None => {},
                }
            }
            i += 1;
        }
        assert(shared@.take(shared@.len() as int) =~= shared@);
    }
}

} // verus!
