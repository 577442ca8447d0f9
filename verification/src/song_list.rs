//! The songs of a playlist: in order, each song once.

use crate::id_generator::{lemma_key_bound, lemma_pow256_fifteen, Id};
use crate::queue::{spec_is_permutation, spec_occurs};
use crate::song_data::SongDataView;
use crate::song_pool::{lemma_pool_key_identifies, spec_pool_key, SongPool, SongPoolView};
use crate::song_ref::SongRef;
use crate::sort::{sorted_order, spec_is_sorted_order};
use crate::text::{chars_of, spec_views};
use std::collections::HashSet;
use vstd::prelude::*;

verus! {

/// The fields by which the songs of a playlist can be sorted.
#[derive(Copy, Clone, Debug, PartialEq, Eq, Structural)]
pub enum SortByVariant {
    Title,
    Artist,
    Album,
}

impl Default for SortByVariant {
    fn default() -> (variant: Self)
        ensures
            variant == SortByVariant::Title,
    {
        SortByVariant::Title
    }
}

impl SortByVariant {
    /// The name of the field.
    pub fn to_string(&self) -> (name: String)
        ensures
            name@ == (match *self {
                SortByVariant::Title => "Title"@,
                SortByVariant::Artist => "Artist"@,
                SortByVariant::Album => "Album"@,
            }),
    {
        match self {
            SortByVariant::Title => "Title".to_owned(),
            SortByVariant::Artist => "Artist".to_owned(),
            SortByVariant::Album => "Album".to_owned(),
        }
    }
}

/// How the songs of a playlist are sorted: by which field, and whether
/// downwards.
#[derive(Copy, Clone, Debug, PartialEq, Eq, Structural)]
pub struct SortBy {
    pub sort_by_variant: SortByVariant,
    pub inverted: bool,
}

impl Default for SortBy {
    fn default() -> (sort_by: Self)
        ensures
            sort_by == (SortBy { sort_by_variant: SortByVariant::Title, inverted: false }),
    {
        SortBy { sort_by_variant: SortByVariant::Title, inverted: false }
    }
}

/// The text of `data` in the field `variant`.
pub open spec fn spec_field(data: SongDataView, variant: SortByVariant) -> Seq<char> {
    match variant {
        SortByVariant::Title => data.title,
        SortByVariant::Artist => data.artist,
        SortByVariant::Album => data.album,
    }
}

/// The text by which `song` is sorted: its field `variant`, or the empty
/// text where the pool holds no live object for the handle.
pub open spec fn spec_sort_key(pool: SongPoolView, song: SongRef, variant: SortByVariant) -> Seq<
    char,
> {
    match pool.song_data(song) {
        Some(data) => spec_field(data, variant),
        None => Seq::<char>::empty(),
    }
}

/// The texts by which the songs of `songs` are sorted, in their order.
pub open spec fn spec_sort_keys(
    songs: Seq<SongRef>,
    pool: SongPoolView,
    variant: SortByVariant,
) -> Seq<Seq<char>> {
    Seq::new(songs.len(), |i: int| spec_sort_key(pool, songs[i], variant))
}

/// The songs of `songs` in the order that `order` names.
pub open spec fn spec_arranged(songs: Seq<SongRef>, order: Seq<usize>) -> Seq<SongRef> {
    Seq::new(order.len(), |k: int| songs[order[k] as int])
}

/// `sorted` holds the songs of `songs` sorted by the field that `sort_by`
/// names, in the order of the code points, downwards where `sort_by` is
/// inverted; songs with equal texts stand in the order of `songs`.
pub open spec fn spec_sorted_songs(
    songs: Seq<SongRef>,
    pool: SongPoolView,
    sort_by: SortBy,
    sorted: Seq<SongRef>,
) -> bool {
    exists|order: Seq<usize>|
        #[trigger] spec_is_sorted_order(
            spec_sort_keys(songs, pool, sort_by.sort_by_variant),
            sort_by.inverted,
            order,
        ) && sorted == spec_arranged(songs, order)
}

/// A handle on the song `id` stands in `songs`.
pub open spec fn spec_has_song(songs: Seq<SongRef>, id: Id) -> bool {
    exists|i: int| 0 <= i < songs.len() && (#[trigger] songs[i]).id.same_id(id)
}

/// No song has two handles in `songs`.
pub open spec fn spec_distinct(songs: Seq<SongRef>) -> bool {
    forall|i: int, j: int|
        0 <= i < songs.len() && 0 <= j < songs.len() && i != j ==> !(#[trigger] songs[i]).id.same_id(
            (#[trigger] songs[j]).id,
        )
}

/// `songs` with `song` behind the others, unless its song is there already.
pub open spec fn spec_push_song(songs: Seq<SongRef>, song: SongRef) -> Seq<SongRef> {
    if spec_has_song(songs, song.id) {
        songs
    } else {
        songs.push(song)
    }
}

/// The position of the handle on the song `id` in `songs`, or the length
/// of `songs` where there is none.
pub open spec fn spec_position_of(songs: Seq<SongRef>, id: Id) -> int
    decreases songs.len(),
{
    if songs.len() == 0 {
        0
    } else if songs[0].id.same_id(id) {
        0
    } else {
        1 + spec_position_of(songs.drop_first(), id)
    }
}

/// The keys of the songs of `songs`.
pub open spec fn spec_key_set(songs: Seq<SongRef>) -> Set<u128> {
    Set::new(
        |key: u128| exists|i: int| 0 <= i < songs.len() && spec_pool_key(#[trigger] songs[i].id) == key,
    )
}

/// The songs of a playlist. A song stands in the list at most once.
pub struct SongList {
    songs_vec: Vec<SongRef>,
    songs_set: HashSet<u128>,
}

impl View for SongList {
    type V = Seq<SongRef>;

    closed spec fn view(&self) -> Seq<SongRef> {
        self.songs_vec@
    }
}

impl SongList {
    /// The set of keys is that of the songs in the list.
    pub closed spec fn keys_agree(&self) -> bool {
        self.songs_set@ == spec_key_set(self.songs_vec@)
    }

    /// No song stands twice in the list.
    pub open spec fn wf(&self) -> bool {
        self.keys_agree() && spec_distinct(self@)
    }

    /// An empty list.
    pub fn new() -> (list: Self)
        ensures
            list.wf(),
            list@ == Seq::<SongRef>::empty(),
    {
        let list = SongList { songs_vec: Vec::new(), songs_set: HashSet::new() };
        assert(list.songs_set@ =~= spec_key_set(list.songs_vec@));
        list
    }

    /// Makes room for `additional` further songs.
    pub fn reserve(&mut self, additional: usize)
        requires
            old(self).wf(),
        ensures
            final(self).wf(),
            final(self)@ == old(self)@,
    {
        self.songs_set.reserve(additional);
    }

    /// The songs in their order.
    pub fn songs(&self) -> (songs: &Vec<SongRef>)
        ensures
            songs@ == self@,
    {
        &self.songs_vec
    }

    /// The songs in their order, as a list of their own.
    pub fn songs_arc(&self) -> (songs: Vec<SongRef>)
        ensures
            songs@ == self@,
    {
        self.songs_vec.clone()
    }

    /// The number of songs.
    pub fn len(&self) -> (len: usize)
        ensures
            len == self@.len(),
    {
        self.songs_vec.len()
    }

    /// Whether a handle on the song `id` stands in the list.
    pub fn contains(&self, id: &Id) -> (found: bool)
        requires
            self.wf(),
        ensures
            found == spec_has_song(self@, *id),
    {
        let key = id.key();
        proof {
            lemma_key_bound(*id);
            lemma_pow256_fifteen();
            lemma_has_song_by_key(self@, *id);
        }
        self.songs_set.contains(&key)
    }

    /// Puts `song` behind the others, unless its song is there already.
    /// Says whether it was put there.
    pub fn push(&mut self, song: SongRef) -> (added: bool)
        requires
            old(self).wf(),
        ensures
            final(self).wf(),
            final(self)@ == spec_push_song(old(self)@, song),
            added == !spec_has_song(old(self)@, song.id),
    {
        if self.contains(&song.id) {
            return false;
        }
        let key = song.id.key();
        proof {
            lemma_key_bound(song.id);
            lemma_pow256_fifteen();
        }
        self.songs_set.insert(key);
        self.songs_vec.push(song);
        proof {
            let before = old(self)@;
            let after = self.songs_vec@;
            assert forall|k: u128| #[trigger]
                self.songs_set@.contains(k) <==> spec_key_set(after).contains(k) by {
                if spec_key_set(before).contains(k) {
                    let i = choose|i: int|
                        0 <= i < before.len() && spec_pool_key(#[trigger] before[i].id) == k;
                    assert(spec_pool_key(after[i].id) == k);
                }
                if k == key {
                    assert(spec_pool_key(after[before.len() as int].id) == k);
                }
                if spec_key_set(after).contains(k) {
                    let i = choose|i: int|
                        0 <= i < after.len() && spec_pool_key(#[trigger] after[i].id) == k;
                    if i < before.len() {
                        assert(spec_pool_key(before[i].id) == k);
                    }
                }
            }
            assert(self.songs_set@ =~= spec_key_set(after));
            assert forall|i: int, j: int|
                0 <= i < after.len() && 0 <= j < after.len() && i != j implies !(
            #[trigger] after[i]).id.same_id((#[trigger] after[j]).id) by {
                if i < before.len() && j < before.len() {
                    assert(before[i] == after[i] && before[j] == after[j]);
                } else if i < before.len() {
                    assert(before[i] == after[i]);
                } else {
                    assert(before[j] == after[j]);
                }
            }
        }
        true
    }

    /// Takes the song at `index` out of the list and hands its handle back;
    /// `None`, and nothing taken out, where the list has no song there.
    pub fn remove_song_at(&mut self, index: usize) -> (removed: Option<SongRef>)
        requires
            old(self).wf(),
        ensures
            final(self).wf(),
            match removed {
                Some(song) => index < old(self)@.len() && song == old(self)@[index as int]
                    && final(self)@ == old(self)@.remove(index as int),
                None => index >= old(self)@.len() && final(self)@ == old(self)@,
            },
    {
        if index >= self.songs_vec.len() {
            return None;
        }
        let song = self.songs_vec.remove(index);
        let key = song.id.key();
        proof {
            lemma_key_bound(song.id);
            lemma_pow256_fifteen();
        }
        self.songs_set.remove(&key);
        proof {
            let before = old(self)@;
            let after = self.songs_vec@;
            assert forall|k: u128| #[trigger]
                self.songs_set@.contains(k) <==> spec_key_set(after).contains(k) by {
                if spec_key_set(before).contains(k) && k != key {
                    let i = choose|i: int|
                        0 <= i < before.len() && spec_pool_key(#[trigger] before[i].id) == k;
                    if i < index {
                        assert(spec_pool_key(after[i].id) == k);
                    } else {
                        assert(spec_pool_key(after[i - 1].id) == k);
                    }
                }
                if spec_key_set(after).contains(k) {
                    let i = choose|i: int|
                        0 <= i < after.len() && spec_pool_key(#[trigger] after[i].id) == k;
                    let j = if i < index {
                        i
                    } else {
                        i + 1
                    };
                    assert(spec_pool_key(before[j].id) == k);
                    if k == key {
                        lemma_pool_key_identifies(before[j].id, before[index as int].id);
                    }
                }
            }
            assert(self.songs_set@ =~= spec_key_set(after));
            assert forall|i: int, j: int|
                0 <= i < after.len() && 0 <= j < after.len() && i != j implies !(
            #[trigger] after[i]).id.same_id((#[trigger] after[j]).id) by {
                let bi = if i < index {
                    i
                } else {
                    i + 1
                };
                let bj = if j < index {
                    j
                } else {
                    j + 1
                };
                assert(before[bi] == after[i] && before[bj] == after[j]);
            }
        }
        Some(song)
    }

    /// Sorts the songs by the field that `sort_by` names, in the order of
    /// the code points, downwards where `sort_by` is inverted. Songs with
    /// equal texts stay in the order in which they stood.
    pub fn sort_songs(&mut self, sort_by: SortBy, pool: &SongPool)
        requires
            old(self).wf(),
            pool@.wf(),
        ensures
            final(self).wf(),
            spec_sorted_songs(old(self)@, pool@, sort_by, final(self)@),
    {
        let ghost before = self@;
        let ghost wanted = spec_sort_keys(before, pool@, sort_by.sort_by_variant);
        let mut keys: Vec<Vec<char>> = Vec::new();
        let mut i: usize = 0;
        while i < self.songs_vec.len()
            invariant
                i <= self@.len(),
                self@ == before,
                pool@.wf(),
                wanted == spec_sort_keys(before, pool@, sort_by.sort_by_variant),
                keys@.len() == i,
                forall|k: int| 0 <= k < i ==> (#[trigger] keys@[k])@ == wanted[k],
            decreases self@.len() - i,
        {
            let key = match pool.song_data(&self.songs_vec[i]) {
                Some(data) => match sort_by.sort_by_variant {
                    SortByVariant::Title => chars_of(data.title.as_str()),
                    SortByVariant::Artist => chars_of(data.artist.artist_string.as_str()),
                    SortByVariant::Album => chars_of(data.album.as_str()),
                },
                None => Vec::new(),
            };
            keys.push(key);
            i += 1;
        }
        assert(spec_views(keys@) =~= wanted);
        let order = sorted_order(&keys, sort_by.inverted);
        let mut sorted: Vec<SongRef> = Vec::new();
        let mut k: usize = 0;
        while k < order.len()
            invariant
                k <= order@.len(),
                order@.len() == before.len(),
                self@ == before,
                spec_is_permutation(order@),
                sorted@.len() == k,
                forall|m: int| 0 <= m < k ==> #[trigger] sorted@[m] == before[order@[m] as int],
            decreases order@.len() - k,
        {
            sorted.push(self.songs_vec[order[k]]);
            k += 1;
        }
        self.songs_vec = sorted;
        proof {
            let after = self.songs_vec@;
            assert(after =~= spec_arranged(before, order@));
            assert forall|key: u128| #[trigger]
                spec_key_set(before).contains(key) <==> spec_key_set(after).contains(key) by {
                if spec_key_set(before).contains(key) {
                    let p = choose|p: int|
                        0 <= p < before.len() && spec_pool_key(#[trigger] before[p].id) == key;
                    assert(spec_occurs(order@, p));
                    let m = choose|m: int| 0 <= m < order@.len() && #[trigger] order@[m] == p;
                    assert(spec_pool_key(after[m].id) == key);
                }
                if spec_key_set(after).contains(key) {
                    let m = choose|m: int|
                        0 <= m < after.len() && spec_pool_key(#[trigger] after[m].id) == key;
                    assert(spec_pool_key(before[order@[m] as int].id) == key);
                }
            }
            assert(spec_key_set(before) =~= spec_key_set(after));
            assert forall|a: int, b: int|
                0 <= a < after.len() && 0 <= b < after.len() && a != b implies !(
            #[trigger] after[a]).id.same_id((#[trigger] after[b]).id) by {
                assert(order@[a] != order@[b]);
                assert(after[a] == before[order@[a] as int]);
                assert(after[b] == before[order@[b] as int]);
            }
        }
    }

    /// The position of the handle on the song `id`, where there is one.
    pub fn position_of(&self, id: &Id) -> (position: Option<usize>)
        ensures
            match position {
                Some(at) => at == spec_position_of(self@, *id) && at < self@.len()
                    && self@[at as int].id.same_id(*id),
                None => spec_position_of(self@, *id) == self@.len() && !spec_has_song(self@, *id),
            },
    {
        let mut at: usize = 0;
        assert(self@.skip(0) =~= self@);
        while at < self.songs_vec.len()
            invariant
                at <= self@.len(),
                spec_position_of(self@, *id) == at + spec_position_of(self@.skip(at as int), *id),
                forall|k: int| 0 <= k < at ==> !(#[trigger] self@[k]).id.same_id(*id),
            decreases self@.len() - at,
        {
            proof {
                assert(self@.skip(at as int).drop_first() =~= self@.skip(at + 1));
                assert(self@.skip(at as int)[0] == self@[at as int]);
            }
            if self.songs_vec[at].id == *id {
                return Some(at);
            }
            at += 1;
        }
        None
    }
}

/// The handle on a song stands where `spec_position_of` says, and no
/// handle before it is one on that song.
pub proof fn lemma_position_of(songs: Seq<SongRef>, id: Id)
    ensures
        0 <= spec_position_of(songs, id) <= songs.len(),
        spec_position_of(songs, id) < songs.len() ==> songs[spec_position_of(
            songs,
            id,
        )].id.same_id(id),
        forall|i: int| 0 <= i < spec_position_of(songs, id) ==> !(#[trigger] songs[i]).id.same_id(id),
        spec_has_song(songs, id) <==> spec_position_of(songs, id) < songs.len(),
    decreases songs.len(),
{
    if songs.len() > 0 && !songs[0].id.same_id(id) {
        let rest = songs.drop_first();
        lemma_position_of(rest, id);
        let at = spec_position_of(rest, id);
        assert forall|i: int| 0 <= i < 1 + at implies !(#[trigger] songs[i]).id.same_id(id) by {
            if i > 0 {
                assert(rest[i - 1] == songs[i]);
            }
        }
        if at < rest.len() {
            assert(rest[at] == songs[1 + at]);
        }
        if spec_has_song(songs, id) {
            let k = choose|k: int| 0 <= k < songs.len() && (#[trigger] songs[k]).id.same_id(id);
            assert(rest[k - 1] == songs[k]);
            assert(spec_has_song(rest, id));
        }
    }
}

/// In a list that holds no song twice, a song stands at the place where it
/// is found by its identifier.
pub proof fn lemma_position_of_own(songs: Seq<SongRef>, index: int)
    requires
        spec_distinct(songs),
        0 <= index < songs.len(),
    ensures
        spec_position_of(songs, songs[index].id) == index,
{
    lemma_position_of(songs, songs[index].id);
    let at = spec_position_of(songs, songs[index].id);
    if at != index {
        assert(songs[index].id.same_id(songs[index].id));
        assert(at < index);
        assert(songs[at].id.same_id(songs[index].id));
    }
}

/// Sorting loses no song and brings in none.
pub proof fn lemma_sorted_keeps(
    songs: Seq<SongRef>,
    pool: SongPoolView,
    sort_by: SortBy,
    sorted: Seq<SongRef>,
)
    requires
        spec_sorted_songs(songs, pool, sort_by, sorted),
    ensures
        sorted.len() == songs.len(),
        forall|song: SongRef| songs.contains(song) <==> #[trigger] sorted.contains(song),
{
    let order = choose|order: Seq<usize>|
        #[trigger] spec_is_sorted_order(
            spec_sort_keys(songs, pool, sort_by.sort_by_variant),
            sort_by.inverted,
            order,
        ) && sorted == spec_arranged(songs, order);
    assert forall|song: SongRef| songs.contains(song) <==> #[trigger] sorted.contains(song) by {
        if songs.contains(song) {
            let p = choose|p: int| 0 <= p < songs.len() && songs[p] == song;
            assert(spec_occurs(order, p));
            let m = choose|m: int| 0 <= m < order.len() && #[trigger] order[m] == p;
            assert(sorted[m] == song);
        }
        if sorted.contains(song) {
            let m = choose|m: int| 0 <= m < sorted.len() && sorted[m] == song;
            assert(songs[order[m] as int] == song);
        }
    }
}

/// A song stands in a list exactly when its key is among the keys of the
/// list.
pub proof fn lemma_has_song_by_key(songs: Seq<SongRef>, id: Id)
    ensures
        spec_has_song(songs, id) <==> spec_key_set(songs).contains(spec_pool_key(id)),
{
    if spec_has_song(songs, id) {
        let i = choose|i: int| 0 <= i < songs.len() && (#[trigger] songs[i]).id.same_id(id);
        lemma_pool_key_identifies(songs[i].id, id);
        assert(spec_pool_key(songs[i].id) == spec_pool_key(id));
    }
    if spec_key_set(songs).contains(spec_pool_key(id)) {
        let i = choose|i: int|
            0 <= i < songs.len() && spec_pool_key(#[trigger] songs[i].id) == spec_pool_key(id);
        lemma_pool_key_identifies(songs[i].id, id);
        assert(songs[i].id.same_id(id));
    }
}

} // verus!
