//! Taking audio files into a playlist as new songs.
//!
//! The files are copied outside this crate. First `plan_import` gives each
//! file that is to come in its identifier; then the files are copied and
//! looked into; then `Playlist::import_songs` takes the songs in.

use crate::id_generator::{spec_next_increment, Id, IdGenerator};
use crate::playlist::{spec_saved, spec_saved_bytes, Playlist, PlaylistView};
use crate::registry::spec_encode_registry;
use crate::song::SONG_DATA_EXT_NO_PER;
use crate::song_list::spec_sorted_songs;
use crate::song_pool::SongPool;
use crate::song_source::{
    spec_bytes_view, spec_push_sources, spec_write_views, SidecarWrite, SongSource,
    SongSourceView,
};
use vstd::prelude::*;

verus! {

/// A file that is offered to a playlist: its name without the ending, and
/// the ending without its dot.
pub struct ImportFile {
    pub file_name: String,
    pub extension: String,
}

/// A file that comes in: its place among the files offered, the identifier
/// of the song that it becomes, and its name without the ending.
pub struct ImportStep {
    pub index: usize,
    pub song_id: Id,
    pub original_name: String,
}

/// The file is taken: it is no file that stands beside a song.
pub open spec fn spec_is_taken(file: ImportFile) -> bool {
    file.extension@ != SONG_DATA_EXT_NO_PER@
}

/// The places of the files that are taken, in order.
pub open spec fn spec_taken(files: Seq<ImportFile>) -> Seq<int>
    decreases files.len(),
{
    if files.len() == 0 {
        Seq::<int>::empty()
    } else if spec_is_taken(files.last()) {
        spec_taken(files.drop_last()).push(files.len() - 1)
    } else {
        spec_taken(files.drop_last())
    }
}

/// The counter `steps` identifiers after `increment`.
pub open spec fn spec_increment_after(increment: u8, steps: nat) -> u8
    decreases steps,
{
    if steps == 0 {
        increment
    } else {
        spec_next_increment(spec_increment_after(increment, (steps - 1) as nat))
    }
}

/// `steps` is the plan for `files` of a generator at counter `increment`:
/// one step for each file that is taken, in order, with the place and the
/// name of the file and an identifier without header that carries the
/// counter of its turn.
pub open spec fn spec_is_plan(files: Seq<ImportFile>, increment: u8, steps: Seq<ImportStep>) -> bool {
    &&& steps.len() == spec_taken(files).len()
    &&& forall|k: int|
        0 <= k < steps.len() ==> {
            &&& (#[trigger] steps[k]).index == spec_taken(files)[k]
            &&& steps[k].original_name@ == files[spec_taken(files)[k]].file_name@
            &&& steps[k].song_id.header == 0
            &&& steps[k].song_id.is_valid()
            &&& steps[k].song_id.increment == spec_increment_after(increment, k as nat)
        }
}

/// Gives each file that is to come in its identifier. A file whose ending
/// is that of the files beside the songs does not come in.
pub fn plan_import(files: &Vec<ImportFile>, generator: &mut IdGenerator) -> (steps: Vec<ImportStep>)
    ensures
        spec_is_plan(files@, old(generator).spec_increment(), steps@),
        final(generator).spec_increment() == spec_increment_after(
            old(generator).spec_increment(),
            steps@.len(),
        ),
{
    let mut steps: Vec<ImportStep> = Vec::new();
    let ending = SONG_DATA_EXT_NO_PER.to_owned();
    let mut i: usize = 0;
    while i < files.len()
        invariant
            i <= files@.len(),
            ending@ == SONG_DATA_EXT_NO_PER@,
            spec_is_plan(files@.take(i as int), old(generator).spec_increment(), steps@),
            generator.spec_increment() == spec_increment_after(
                old(generator).spec_increment(),
                steps@.len(),
            ),
        decreases files@.len() - i,
    {
        let ghost before = steps@;
        let ghost upto = files@.take(i as int);
        let ghost next = files@.take(i + 1);
        proof {
            assert(next.drop_last() =~= upto);
            assert(next.last() == files@[i as int]);
        }
        if files[i].extension == ending {
        } else {
            let song_id = generator.generate_new_id();
            steps.push(ImportStep { index: i, song_id, original_name: files[i].file_name.clone() });
        }
        proof {
            assert forall|k: int| 0 <= k < steps@.len() implies {
                &&& (#[trigger] steps@[k]).index == spec_taken(next)[k]
                &&& steps@[k].original_name@ == next[spec_taken(next)[k]].file_name@
                &&& steps@[k].song_id.header == 0
                &&& steps@[k].song_id.is_valid()
                &&& steps@[k].song_id.increment == spec_increment_after(
                    old(generator).spec_increment(),
                    k as nat,
                )
            } by {
                if k < before.len() {
                    assert(steps@[k] == before[k]);
                    assert(spec_taken(next)[k] == spec_taken(upto)[k]);
                    lemma_taken_in_range(upto, k);
                    assert(next[spec_taken(upto)[k]] == upto[spec_taken(upto)[k]]);
                }
            }
        }
        i += 1;
    }
    assert(files@.take(files@.len() as int) =~= files@);
    steps
}

/// The places of the files that are taken are places of files, in rising
/// order.
pub proof fn lemma_taken_in_range(files: Seq<ImportFile>, k: int)
    requires
        0 <= k < spec_taken(files).len(),
    ensures
        0 <= spec_taken(files)[k] < files.len(),
        spec_is_taken(files[spec_taken(files)[k]]),
    decreases files.len(),
{
    if files.len() > 0 {
        let front = files.drop_last();
        if k < spec_taken(front).len() {
            lemma_taken_in_range(front, k);
        }
    }
}

/// A file that came in: its place among the files offered, whether the
/// audio file of its song was there already, and what was read of the song.
pub struct ImportedSong {
    pub index: usize,
    pub already_exists: bool,
    pub source: SongSource,
}

/// The songs of the files that came in and whose audio file was not there
/// already, in order, as plain values: the songs that are taken in.
pub open spec fn spec_imported_sources(imported: Seq<ImportedSong>) -> Seq<SongSourceView>
    decreases imported.len(),
{
    if imported.len() == 0 {
        Seq::<SongSourceView>::empty()
    } else if imported.last().already_exists {
        spec_imported_sources(imported.drop_last())
    } else {
        spec_imported_sources(imported.drop_last()).push(imported.last().source@)
    }
}

/// The places of the files whose audio file was there already, in order.
pub open spec fn spec_collided(imported: Seq<ImportedSong>) -> Seq<usize>
    decreases imported.len(),
{
    if imported.len() == 0 {
        Seq::<usize>::empty()
    } else if imported.last().already_exists {
        spec_collided(imported.drop_last()).push(imported.last().index)
    } else {
        spec_collided(imported.drop_last())
    }
}

/// What came of taking files in: the places of the files whose audio file
/// was there already, where there are any; and what is to be written, to
/// the files beside the songs, to the file of the registry, and to the file
/// of the playlist.
pub struct ImportOutcome {
    pub result: Result<(), Vec<usize>>,
    pub sidecar_writes: Vec<SidecarWrite>,
    pub registry_bytes: Vec<u8>,
    pub playlist_bytes: Option<Vec<u8>>,
}

impl Playlist {
    /// Takes the songs of the files that came in into the playlist, one
    /// after the other, and sorts the songs as the playlist was last told to
    /// sort. A file whose audio file was there already is not taken in:
    /// neither the playlist nor the registry hears of it, and the answer
    /// names it. The others are taken in all the same.
    pub fn import_songs(&mut self, pool: &mut SongPool, imported: &Vec<ImportedSong>) -> (outcome:
        ImportOutcome)
        requires
            old(self).wf(),
            old(pool)@.wf(),
        ensures
            final(self).wf(),
            final(pool)@.wf(),
            match outcome.result {
                Ok(_) => spec_collided(imported@).len() == 0,
                Err(collided) => collided@ == spec_collided(imported@) && collided@.len() > 0,
            },
            ({
                let pushed = spec_push_sources(
                    old(self)@.songs,
                    old(pool)@,
                    spec_imported_sources(imported@),
                );
                let sorted = PlaylistView { songs: final(self)@.songs, ..old(self)@ };
                &&& final(pool)@ == pushed.pool
                &&& spec_write_views(outcome.sidecar_writes@) == pushed.writes
                &&& outcome.registry_bytes@ == spec_encode_registry(pushed.pool.registered)
                &&& spec_sorted_songs(
                    pushed.songs,
                    pushed.pool,
                    old(self)@.playlist_data.sort_by,
                    final(self)@.songs,
                )
                &&& final(self)@ == spec_saved(sorted)
                &&& spec_bytes_view(outcome.playlist_bytes) == spec_saved_bytes(sorted)
            }),
    {
        let mut already_exists: Vec<usize> = Vec::new();
        let mut sidecar_writes: Vec<SidecarWrite> = Vec::new();
        let ghost start = self@;
        let mut i: usize = 0;
        while i < imported.len()
            invariant
                i <= imported@.len(),
                self.wf(),
                pool@.wf(),
                start == old(self)@,
                already_exists@ == spec_collided(imported@.take(i as int)),
                self@ == (PlaylistView {
                    songs: spec_push_sources(start.songs, old(pool)@, spec_imported_sources(imported@.take(i as int))).songs,
                    ..start
                }),
                pool@ == spec_push_sources(start.songs, old(pool)@, spec_imported_sources(imported@.take(i as int))).pool,
                spec_write_views(sidecar_writes@) == spec_push_sources(
                    start.songs,
                    old(pool)@,
                    spec_imported_sources(imported@.take(i as int)),
                ).writes,
            decreases imported@.len() - i,
        {
            proof {
                assert(imported@.take(i + 1).drop_last() =~= imported@.take(i as int));
                assert(imported@.take(i + 1).last() == imported@[i as int]);
                if !imported@[i as int].already_exists {
                    let taken = spec_imported_sources(imported@.take(i + 1));
                    let before = spec_imported_sources(imported@.take(i as int));
                    assert(taken == before.push(imported@[i as int].source@));
                    assert(taken.drop_last() =~= before);
                    assert(taken.last() == imported@[i as int].source@);
                }
            }
            if imported[i].already_exists {
                already_exists.push(imported[i].index);
            } else {
                let outcome = self.push_source(pool, &imported[i].source);
                let ghost before = spec_write_views(sidecar_writes@);
                match outcome {
                    Some(bytes) => {
                        sidecar_writes.push(SidecarWrite { id: imported[i].source.id, bytes });
                        assert(spec_write_views(sidecar_writes@) =~= before.push(
                            (imported@[i as int].source.id, bytes@),
                        ));
                    },
                    None => {},
                }
            }
            i += 1;
        }
        assert(imported@.take(imported@.len() as int) =~= imported@);
        let registry_bytes = pool.save_registered_songs();
        let playlist_bytes = self.sort_songs_and_save(pool);
        let result = if already_exists.len() > 0 {
            Err(already_exists)
        } else {
            Ok(())
        };
        ImportOutcome { result, sidecar_writes, registry_bytes, playlist_bytes }
    }
}

} // verus!
