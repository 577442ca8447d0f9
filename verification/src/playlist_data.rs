//! What a playlist keeps beside its songs: the order of play, the sorting and
//! the volume.

use crate::id_generator::{lemma_decode_encoded, spec_decode, spec_normal, Id};
use crate::song_list::{SortBy, SortByVariant};
use crate::wire::{lemma_read_len, push_len, read_len, spec_len_bytes, spec_read_len};
use vstd::prelude::*;
use vstd::slice::slice_subrange;

verus! {

/// The order in which the songs of a playlist are played.
#[derive(Copy, Clone, Debug, PartialEq, Eq, Structural)]
pub enum PlaybackMode {
    Sequential,
    Shuffle,
}

impl Default for PlaybackMode {
    fn default() -> (mode: Self)
        ensures
            mode == PlaybackMode::Sequential,
    {
        PlaybackMode::Sequential
    }
}

impl PlaybackMode {
    /// The name of the mode.
    pub fn to_string(&self) -> (name: String)
        ensures
            name@ == (match *self {
                PlaybackMode::Sequential => "Sequential"@,
                PlaybackMode::Shuffle => "Shuffle"@,
            }),
    {
        match self {
            PlaybackMode::Sequential => "Sequential".to_owned(),
            PlaybackMode::Shuffle => "Shuffle".to_owned(),
        }
    }
}

/// The volume of a playlist that has none set: the bits of `1.0`.
pub const DEFAULT_VOLUME: u32 = 0x3F80_0000;

/// What a playlist keeps in its file: its songs in order, the order of
/// play, the volume in the bits of its `f32`, and the sorting.
#[derive(Debug)]
pub struct PlaylistData {
    pub song_ids: Vec<Id>,
    pub playback_mode: PlaybackMode,
    pub volume: u32,
    pub sort_by: SortBy,
}

/// What a playlist keeps in its file, as plain values.
pub struct PlaylistDataView {
    pub song_ids: Seq<Id>,
    pub playback_mode: PlaybackMode,
    pub volume: u32,
    pub sort_by: SortBy,
}

impl View for PlaylistData {
    type V = PlaylistDataView;

    open spec fn view(&self) -> PlaylistDataView {
        PlaylistDataView {
            song_ids: self.song_ids@,
            playback_mode: self.playback_mode,
            volume: self.volume,
            sort_by: self.sort_by,
        }
    }
}

/// The data of a playlist without songs: played in sequence, at the default
/// volume, sorted by title upwards.
pub open spec fn spec_empty_playlist() -> PlaylistDataView {
    PlaylistDataView {
        song_ids: Seq::<Id>::empty(),
        playback_mode: PlaybackMode::Sequential,
        volume: DEFAULT_VOLUME,
        sort_by: SortBy { sort_by_variant: SortByVariant::Title, inverted: false },
    }
}

/// The byte that stands for a mode.
pub open spec fn spec_mode_byte(mode: PlaybackMode) -> u8 {
    match mode {
        PlaybackMode::Sequential => 0,
        PlaybackMode::Shuffle => 1,
    }
}

/// The byte that stands for a field to sort by.
pub open spec fn spec_variant_byte(variant: SortByVariant) -> u8 {
    match variant {
        SortByVariant::Title => 0,
        SortByVariant::Artist => 1,
        SortByVariant::Album => 2,
    }
}

/// The binary forms of the identifiers, one after the other.
pub open spec fn spec_encode_ids(ids: Seq<Id>) -> Seq<u8>
    decreases ids.len(),
{
    if ids.len() == 0 {
        Seq::<u8>::empty()
    } else {
        spec_encode_ids(ids.drop_last()) + ids.last().spec_bytes()
    }
}

/// The bytes of the file of a playlist: the number of songs and their
/// identifiers; then, each behind a byte 1 that says that it is there, the
/// mode in one byte, the volume in four, and the sorting in two.
pub open spec fn spec_encode_playlist(data: PlaylistDataView) -> Seq<u8> {
    spec_len_bytes(data.song_ids.len()) + spec_encode_ids(data.song_ids) + spec_settings_bytes(
        data.playback_mode,
        data.volume,
        data.sort_by,
    )
}

/// The ten bytes of mode, volume and sorting, each behind its byte 1.
pub open spec fn spec_settings_bytes(mode: PlaybackMode, volume: u32, sort_by: SortBy) -> Seq<u8> {
    seq![
        1u8,
        spec_mode_byte(mode),
        1u8,
        (volume / 0x100_0000) as u8,
        ((volume / 0x1_0000) % 256) as u8,
        ((volume / 0x100) % 256) as u8,
        (volume % 256) as u8,
        1u8,
        spec_variant_byte(sort_by.sort_by_variant),
        if sort_by.inverted {
            1u8
        } else {
            0u8
        },
    ]
}

/// The `count` identifiers that stand in `bytes` from `pos` on, and the
/// position behind them.
pub open spec fn spec_read_ids(bytes: Seq<u8>, pos: int, count: nat) -> Option<(Seq<Id>, int)>
    decreases count,
{
    if count == 0 {
        Some((Seq::<Id>::empty(), pos))
    } else {
        match spec_read_ids(bytes, pos, (count - 1) as nat) {
            None => None,
            Some((front, at)) => if 0 <= at <= bytes.len() {
                match spec_decode(bytes.skip(at)) {
                    None => None,
                    Some((id, taken)) => Some((front.push(id), at + taken)),
                }
            } else {
                None
            },
        }
    }
}

/// Whether a field that may be missing stands at `pos`, and where its
/// bytes start: it is missing where the bytes end at `pos` or a byte 0
/// stands there, and there behind a byte 1. Any other byte is an error.
pub open spec fn spec_read_presence(bytes: Seq<u8>, pos: int) -> Option<(bool, int)> {
    if pos >= bytes.len() {
        Some((false, pos))
    } else if bytes[pos] == 0 {
        Some((false, pos + 1))
    } else if bytes[pos] == 1 {
        Some((true, pos + 1))
    } else {
        None
    }
}

/// The mode at `pos`, where one may stand.
pub open spec fn spec_read_mode(bytes: Seq<u8>, pos: int) -> Option<(PlaybackMode, int)> {
    match spec_read_presence(bytes, pos) {
        None => None,
        Some((false, next)) => Some((PlaybackMode::Sequential, next)),
        Some((true, at)) => if at < bytes.len() && bytes[at] == 0 {
            Some((PlaybackMode::Sequential, at + 1))
        } else if at < bytes.len() && bytes[at] == 1 {
            Some((PlaybackMode::Shuffle, at + 1))
        } else {
            None
        },
    }
}

/// The volume at `pos`, where one may stand.
pub open spec fn spec_read_volume(bytes: Seq<u8>, pos: int) -> Option<(u32, int)> {
    match spec_read_presence(bytes, pos) {
        None => None,
        Some((false, next)) => Some((DEFAULT_VOLUME, next)),
        Some((true, at)) => if at + 4 <= bytes.len() {
            Some(
                (
                    (bytes[at] * 0x100_0000 + bytes[at + 1] * 0x1_0000 + bytes[at + 2] * 0x100
                        + bytes[at + 3]) as u32,
                    at + 4,
                ),
            )
        } else {
            None
        },
    }
}

/// The field to sort by that the byte `byte` stands for.
pub open spec fn spec_variant_of(byte: u8) -> Option<SortByVariant> {
    if byte == 0 {
        Some(SortByVariant::Title)
    } else if byte == 1 {
        Some(SortByVariant::Artist)
    } else if byte == 2 {
        Some(SortByVariant::Album)
    } else {
        None
    }
}

/// The sorting at `pos`, where one may stand.
pub open spec fn spec_read_sort_by(bytes: Seq<u8>, pos: int) -> Option<(SortBy, int)> {
    match spec_read_presence(bytes, pos) {
        None => None,
        Some((false, next)) => Some(
            (SortBy { sort_by_variant: SortByVariant::Title, inverted: false }, next),
        ),
        Some((true, at)) => if at + 2 <= bytes.len() && bytes[at + 1] <= 1 {
            match spec_variant_of(bytes[at]) {
                Some(sort_by_variant) => Some(
                    (SortBy { sort_by_variant, inverted: bytes[at + 1] == 1 }, at + 2),
                ),
                None => None,
            }
        } else {
            None
        },
    }
}

/// What the bytes of the file of a playlist say; `None` where they are not
/// the bytes of such a file, or where bytes are left over. A field that is
/// missing behind the identifiers has its default.
pub open spec fn spec_decode_playlist(bytes: Seq<u8>) -> Option<PlaylistDataView> {
    match spec_read_len(bytes, 0) {
        None => None,
        Some((count, at_ids)) => match spec_read_ids(bytes, at_ids, count) {
            None => None,
            Some((song_ids, at_mode)) => match spec_read_mode(bytes, at_mode) {
                None => None,
                Some((playback_mode, at_volume)) => match spec_read_volume(bytes, at_volume) {
                    None => None,
                    Some((volume, at_sort)) => match spec_read_sort_by(bytes, at_sort) {
                        None => None,
                        Some((sort_by, end)) => if end == bytes.len() {
                            Some(PlaylistDataView { song_ids, playback_mode, volume, sort_by })
                        } else {
                            None
                        },
                    },
                },
            },
        },
    }
}

/// Where the first `fewer` identifiers cannot be read, no greater number of
/// them can.
proof fn lemma_read_ids_fails_on(bytes: Seq<u8>, pos: int, fewer: nat, more: nat)
    requires
        fewer <= more,
        spec_read_ids(bytes, pos, fewer) is None,
    ensures
        spec_read_ids(bytes, pos, more) is None,
    decreases more,
{
    if fewer < more {
        lemma_read_ids_fails_on(bytes, pos, fewer, (more - 1) as nat);
    }
}

/// Reads whether a field that may be missing stands at `pos`.
fn read_presence(buf: &[u8], pos: usize) -> (read: Option<(bool, usize)>)
    requires
        pos <= buf@.len(),
    ensures
        match read {
            Some((present, next)) => spec_read_presence(buf@, pos as int) == Some(
                (present, next as int),
            ) && next <= buf@.len(),
            None => spec_read_presence(buf@, pos as int) is None,
        },
{
    if pos >= buf.len() {
        Some((false, pos))
    } else if buf[pos] == 0 {
        Some((false, pos + 1))
    } else if buf[pos] == 1 {
        Some((true, pos + 1))
    } else {
        None
    }
}

/// Appends the bytes of mode, volume and sorting.
fn push_settings(buf: &mut Vec<u8>, mode: PlaybackMode, volume: u32, sort_by: SortBy)
    ensures
        final(buf)@ == old(buf)@ + spec_settings_bytes(mode, volume, sort_by),
{
    let mode_byte: u8 = match mode {
        PlaybackMode::Sequential => 0,
        PlaybackMode::Shuffle => 1,
    };
    let variant_byte: u8 = match sort_by.sort_by_variant {
        SortByVariant::Title => 0,
        SortByVariant::Artist => 1,
        SortByVariant::Album => 2,
    };
    let inverted_byte: u8 = if sort_by.inverted {
        1
    } else {
        0
    };
    let mut settings: Vec<u8> = Vec::new();
    settings.push(1);
    settings.push(mode_byte);
    settings.push(1);
    settings.push((volume / 0x100_0000) as u8);
    settings.push(((volume / 0x1_0000) % 256) as u8);
    settings.push(((volume / 0x100) % 256) as u8);
    settings.push((volume % 256) as u8);
    settings.push(1);
    settings.push(variant_byte);
    settings.push(inverted_byte);
    assert(settings@ =~= spec_settings_bytes(mode, volume, sort_by));
    crate::wire::push_bytes(buf, settings.as_slice());
}

impl PlaylistData {
    /// The data of a playlist without songs.
    pub fn new_empty() -> (data: Self)
        ensures
            data@ == spec_empty_playlist(),
    {
        PlaylistData::new_capacity(0)
    }

    /// The data of a playlist without songs, with room for `cap` songs.
    pub fn new_capacity(cap: usize) -> (data: Self)
        ensures
            data@ == spec_empty_playlist(),
    {
        PlaylistData {
            song_ids: Vec::with_capacity(cap),
            playback_mode: PlaybackMode::Sequential,
            volume: DEFAULT_VOLUME,
            sort_by: SortBy { sort_by_variant: SortByVariant::Title, inverted: false },
        }
    }

    /// The bytes of the file for this data.
    pub fn to_bytes(&self) -> (bytes: Vec<u8>)
        ensures
            bytes@ == spec_encode_playlist(self@),
    {
        let mut bytes: Vec<u8> = Vec::new();
        push_len(&mut bytes, self.song_ids.len());
        let ghost head = bytes@;
        let mut i: usize = 0;
        while i < self.song_ids.len()
            invariant
                i <= self.song_ids@.len(),
                bytes@ == head + spec_encode_ids(self.song_ids@.take(i as int)),
            decreases self.song_ids@.len() - i,
        {
            proof {
                assert(self.song_ids@.take(i + 1).drop_last() =~= self.song_ids@.take(i as int));
            }
            self.song_ids[i].to_buf(&mut bytes);
            i += 1;
            assert(bytes@ =~= head + spec_encode_ids(self.song_ids@.take(i as int)));
        }
        assert(self.song_ids@.take(self.song_ids@.len() as int) =~= self.song_ids@);
        push_settings(&mut bytes, self.playback_mode, self.volume, self.sort_by);
        bytes
    }

    /// Reads the bytes of the file of a playlist.
    #[verifier::loop_isolation(false)]
    pub fn from_bytes(bytes: &[u8]) -> (data: Option<PlaylistData>)
        ensures
            match data {
                Some(data) => spec_decode_playlist(bytes@) == Some(data@),
                None => spec_decode_playlist(bytes@) is None,
            },
    {
        let (count, at_ids) = match read_len(bytes, 0) {
            Some(read) => read,
            None => {
                return None;
            },
        };
        let mut song_ids: Vec<Id> = Vec::new();
        let mut pos = at_ids;
        let mut i: u64 = 0;
        while i < count
            invariant
                i <= count,
                pos <= bytes@.len(),
                spec_read_ids(bytes@, at_ids as int, i as nat) == Some((song_ids@, pos as int)),
            decreases count - i,
        {
            let rest = slice_subrange(bytes, pos, bytes.len());
            assert(rest@ =~= bytes@.skip(pos as int));
            match Id::from_buf(rest) {
                Some((id, taken)) => {
                    song_ids.push(id);
                    pos = pos + taken;
                },
                None => {
                    proof {
                        lemma_read_ids_fails_on(bytes@, at_ids as int, (i + 1) as nat, count as nat);
                    }
                    return None;
                },
            }
            i += 1;
        }
        let (playback_mode, at_volume) = match read_presence(bytes, pos) {
            None => {
                return None;
            },
            Some((false, next)) => (PlaybackMode::Sequential, next),
            Some((true, at)) => {
                if at < bytes.len() && bytes[at] == 0 {
                    (PlaybackMode::Sequential, at + 1)
                } else if at < bytes.len() && bytes[at] == 1 {
                    (PlaybackMode::Shuffle, at + 1)
                } else {
                    return None;
                }
            },
        };
        let (volume, at_sort) = match read_presence(bytes, at_volume) {
            None => {
                return None;
            },
            Some((false, next)) => (DEFAULT_VOLUME, next),
            Some((true, at)) => {
                if bytes.len() - at < 4 {
                    return None;
                }
                let volume: u32 = (bytes[at] as u32) * 0x100_0000 + (bytes[at + 1] as u32)
                    * 0x1_0000 + (bytes[at + 2] as u32) * 0x100 + (bytes[at + 3] as u32);
                (volume, at + 4)
            },
        };
        let (sort_by, end) = match read_presence(bytes, at_sort) {
            None => {
                return None;
            },
            Some((false, next)) => (
                SortBy { sort_by_variant: SortByVariant::Title, inverted: false },
                next,
            ),
            Some((true, at)) => {
                if bytes.len() - at < 2 || bytes[at + 1] > 1 {
                    return None;
                }
                let sort_by_variant = if bytes[at] == 0 {
                    SortByVariant::Title
                } else if bytes[at] == 1 {
                    SortByVariant::Artist
                } else if bytes[at] == 2 {
                    SortByVariant::Album
                } else {
                    return None;
                };
                (SortBy { sort_by_variant, inverted: bytes[at + 1] == 1 }, at + 2)
            },
        };
        if end != bytes.len() {
            return None;
        }
        Some(PlaylistData { song_ids, playback_mode, volume, sort_by })
    }
}

/// The identifiers as they are read back.
pub open spec fn spec_normal_ids(ids: Seq<Id>) -> Seq<Id> {
    Seq::new(ids.len(), |i: int| spec_normal(ids[i]))
}

/// The identifiers written behind `before` are read back from there.
proof fn lemma_read_encoded_ids(before: Seq<u8>, ids: Seq<Id>, after: Seq<u8>)
    requires
        forall|i: int| 0 <= i < ids.len() ==> (#[trigger] ids[i]).is_valid(),
    ensures
        spec_read_ids(before + spec_encode_ids(ids) + after, before.len() as int, ids.len())
            == Some((spec_normal_ids(ids), before.len() as int + spec_encode_ids(ids).len())),
    decreases ids.len(),
{
    let bytes = before + spec_encode_ids(ids) + after;
    if ids.len() == 0 {
        assert(spec_normal_ids(ids) =~= Seq::<Id>::empty());
    } else {
        let front = ids.drop_last();
        let last = ids.last();
        let tail = last.spec_bytes() + after;
        assert(bytes =~= before + spec_encode_ids(front) + tail);
        lemma_read_encoded_ids(before, front, tail);
        let at = before.len() as int + spec_encode_ids(front).len();
        assert(bytes.skip(at) =~= tail);
        lemma_decode_encoded(last, after);
        assert(spec_normal_ids(front).push(spec_normal(last)) =~= spec_normal_ids(ids));
    }
}

/// Reading the bytes written for the data of a playlist gives that data,
/// each identifier as it is read back.
pub proof fn lemma_playlist_round_trip(data: PlaylistDataView)
    requires
        data.song_ids.len() <= u64::MAX,
        forall|i: int| 0 <= i < data.song_ids.len() ==> (#[trigger] data.song_ids[i]).is_valid(),
    ensures
        spec_decode_playlist(spec_encode_playlist(data)) == Some(
            PlaylistDataView { song_ids: spec_normal_ids(data.song_ids), ..data },
        ),
{
    let bytes = spec_encode_playlist(data);
    let count = spec_len_bytes(data.song_ids.len());
    let ids = spec_encode_ids(data.song_ids);
    let settings = spec_settings_bytes(data.playback_mode, data.volume, data.sort_by);
    let empty = Seq::<u8>::empty();
    assert(bytes =~= empty + count + (ids + settings));
    lemma_read_len(empty, data.song_ids.len(), ids + settings);
    assert(bytes =~= count + ids + settings);
    lemma_read_encoded_ids(count, data.song_ids, settings);
    let at = (count.len() + ids.len()) as int;
    assert(bytes.len() == at + 10);
    assert(forall|k: int| 0 <= k < 10 ==> bytes[at + k] == settings[k]);
    let volume = data.volume;
    assert(spec_read_mode(bytes, at) == Some((data.playback_mode, at + 2)));
    assert(spec_read_volume(bytes, at + 2) == Some((volume, at + 7))) by {
        assert(bytes[at + 2] == 1);
        assert(bytes[at + 3] == (volume / 0x100_0000) as u8);
        assert(bytes[at + 4] == ((volume / 0x1_0000) % 256) as u8);
        assert(bytes[at + 5] == ((volume / 0x100) % 256) as u8);
        assert(bytes[at + 6] == (volume % 256) as u8);
        assert(volume == (volume / 0x100_0000) * 0x100_0000 + ((volume / 0x1_0000) % 256)
            * 0x1_0000 + ((volume / 0x100) % 256) * 0x100 + volume % 256);
    }
    assert(spec_read_sort_by(bytes, at + 7) == Some((data.sort_by, at + 10)));
}

} // verus!
