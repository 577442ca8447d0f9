//! The file that stands beside a song and holds what is known of it.
//!
//! Its bytes are the artist, the album and the title, each as a text, then
//! the number of free tags, then key and value of each tag, each as a text.

use crate::song_data::{Artist, SongData, SongDataView, SongTagValue, TagType, spec_tag_views};
use crate::wire::{
    lemma_read_len, lemma_read_text, push_len, push_text, read_len, read_text, spec_len_bytes,
    spec_read_len, spec_read_text, spec_text_bytes,
};
use vstd::prelude::*;
use vstd::utf8::encode_utf8;

verus! {

/// The bytes of the tags, one after the other.
pub open spec fn spec_encode_tags(tags: Seq<(Seq<char>, Seq<char>)>) -> Seq<u8>
    decreases tags.len(),
{
    if tags.len() == 0 {
        Seq::<u8>::empty()
    } else {
        spec_encode_tags(tags.drop_last()) + spec_text_bytes(tags.last().0) + spec_text_bytes(
            tags.last().1,
        )
    }
}

/// The bytes of the file for `data`.
pub open spec fn spec_encode(data: SongDataView) -> Seq<u8> {
    spec_text_bytes(data.artist) + spec_text_bytes(data.album) + spec_text_bytes(data.title)
        + spec_len_bytes(data.custom_song_tags.len()) + spec_encode_tags(data.custom_song_tags)
}

/// The `count` tags that stand in `bytes` from `pos` on, and the position
/// behind them; `None` where one of them cannot be read.
pub open spec fn spec_decode_tags(bytes: Seq<u8>, pos: int, count: nat) -> Option<
    (Seq<(Seq<char>, Seq<char>)>, int),
>
    decreases count,
{
    if count == 0 {
        Some((Seq::<(Seq<char>, Seq<char>)>::empty(), pos))
    } else {
        match spec_decode_tags(bytes, pos, (count - 1) as nat) {
            None => None,
            Some((front, at)) => match spec_read_text(bytes, at) {
                None => None,
                Some((key, at_value)) => match spec_read_text(bytes, at_value) {
                    None => None,
                    Some((value, next)) => Some((front.push((key, value)), next)),
                },
            },
        }
    }
}

/// What the bytes of a file say of a song; `None` where they are not the
/// bytes of such a file, or where bytes are left over.
pub open spec fn spec_decode(bytes: Seq<u8>) -> Option<SongDataView> {
    match spec_read_text(bytes, 0) {
        None => None,
        Some((artist, at_album)) => match spec_read_text(bytes, at_album) {
            None => None,
            Some((album, at_title)) => match spec_read_text(bytes, at_title) {
                None => None,
                Some((title, at_count)) => match spec_read_len(bytes, at_count) {
                    None => None,
                    Some((count, at_tags)) => match spec_decode_tags(bytes, at_tags, count) {
                        None => None,
                        Some((tags, end)) => if end == bytes.len() {
                            Some(SongDataView { artist, album, title, custom_song_tags: tags })
                        } else {
                            None
                        },
                    },
                },
            },
        }
    }
}

/// Every text of `data` has a UTF-8 form whose length fits in eight bytes,
/// and so has the number of its tags.
pub open spec fn spec_fits(data: SongDataView) -> bool {
    &&& encode_utf8(data.artist).len() <= u64::MAX
    &&& encode_utf8(data.album).len() <= u64::MAX
    &&& encode_utf8(data.title).len() <= u64::MAX
    &&& data.custom_song_tags.len() <= u64::MAX
    &&& forall|i: int|
        0 <= i < data.custom_song_tags.len() ==> encode_utf8(
            (#[trigger] data.custom_song_tags[i]).0,
        ).len() <= u64::MAX && encode_utf8(data.custom_song_tags[i].1).len() <= u64::MAX
}

impl SongData {
    /// The bytes of the file for this data.
    pub fn to_bytes(&self) -> (bytes: Vec<u8>)
        ensures
            bytes@ == spec_encode(self@),
    {
        let mut bytes: Vec<u8> = Vec::new();
        push_text(&mut bytes, self.artist.artist_string.as_str());
        push_text(&mut bytes, self.album.as_str());
        push_text(&mut bytes, self.title.as_str());
        push_len(&mut bytes, self.custom_song_tags.len());
        let ghost head = bytes@;
        let ghost tags = spec_tag_views(self.custom_song_tags@);
        let mut i: usize = 0;
        while i < self.custom_song_tags.len()
            invariant
                i <= self.custom_song_tags@.len(),
                tags == spec_tag_views(self.custom_song_tags@),
                bytes@ == head + spec_encode_tags(tags.take(i as int)),
            decreases self.custom_song_tags@.len() - i,
        {
            proof {
                assert(tags.take(i + 1).drop_last() =~= tags.take(i as int));
                assert(tags.take(i + 1).last() == tags[i as int]);
            }
            match &self.custom_song_tags[i].0 {
                TagType::Dynamic(key) => {
                    push_text(&mut bytes, key.as_str());
                },
            }
            match &self.custom_song_tags[i].1 {
                SongTagValue::String(value) => {
                    push_text(&mut bytes, value.as_str());
                },
            }
            i += 1;
            assert(bytes@ =~= head + spec_encode_tags(tags.take(i as int)));
        }
        assert(tags.take(tags.len() as int) =~= tags);
        assert(bytes@ =~= spec_encode(self@));
        bytes
    }

    /// Reads the bytes of a file.
    #[verifier::loop_isolation(false)]
    pub fn from_bytes(bytes: &[u8]) -> (data: Option<SongData>)
        ensures
            match data {
                Some(data) => spec_decode(bytes@) == Some(data@),
                None => spec_decode(bytes@) is None,
            },
    {
        let (artist, at_album) = match read_text(bytes, 0) {
            Some(read) => read,
            None => {
                return None;
            },
        };
        let (album, at_title) = match read_text(bytes, at_album) {
            Some(read) => read,
            None => {
                return None;
            },
        };
        let (title, at_count) = match read_text(bytes, at_title) {
            Some(read) => read,
            None => {
                return None;
            },
        };
        let (count, at_tags) = match read_len(bytes, at_count) {
            Some(read) => read,
            None => {
                return None;
            },
        };
        let mut tags: Vec<(TagType, SongTagValue)> = Vec::new();
        let mut pos = at_tags;
        let mut i: u64 = 0;
        while i < count
            invariant
                i <= count,
                tags@.len() == i,
                spec_decode_tags(bytes@, at_tags as int, i as nat) == Some(
                    (spec_tag_views(tags@), pos as int),
                ),
            decreases count - i,
        {
            let (key, at_value) = match read_text(bytes, pos) {
                Some(read) => read,
                None => {
                    proof {
                        lemma_decode_tags_fails_on(bytes@, at_tags as int, (i + 1) as nat, count as nat);
                    }
                    return None;
                },
            };
            let (value, next) = match read_text(bytes, at_value) {
                Some(read) => read,
                None => {
                    proof {
                        lemma_decode_tags_fails_on(bytes@, at_tags as int, (i + 1) as nat, count as nat);
                    }
                    return None;
                },
            };
            let ghost before = spec_tag_views(tags@);
            tags.push((TagType::Dynamic(key), SongTagValue::String(value)));
            assert(spec_tag_views(tags@) =~= before.push((key@, value@)));
            pos = next;
            i += 1;
        }
        if pos != bytes.len() {
            return None;
        }
        Some(SongData { artist: Artist::new(artist), album, title, custom_song_tags: tags })
    }
}

/// Where the first `fewer` tags cannot be read, no greater number of them
/// can.
proof fn lemma_decode_tags_fails_on(bytes: Seq<u8>, pos: int, fewer: nat, more: nat)
    requires
        fewer <= more,
        spec_decode_tags(bytes, pos, fewer) is None,
    ensures
        spec_decode_tags(bytes, pos, more) is None,
    decreases more,
{
    if fewer < more {
        lemma_decode_tags_fails_on(bytes, pos, fewer, (more - 1) as nat);
    }
}

/// The tags written behind `before` are read back from there.
proof fn lemma_decode_encoded_tags(
    before: Seq<u8>,
    tags: Seq<(Seq<char>, Seq<char>)>,
    after: Seq<u8>,
)
    requires
        forall|i: int|
            0 <= i < tags.len() ==> encode_utf8((#[trigger] tags[i]).0).len() <= u64::MAX
                && encode_utf8(tags[i].1).len() <= u64::MAX,
    ensures
        spec_decode_tags(before + spec_encode_tags(tags) + after, before.len() as int, tags.len())
            == Some((tags, before.len() as int + spec_encode_tags(tags).len())),
    decreases tags.len(),
{
    let bytes = before + spec_encode_tags(tags) + after;
    if tags.len() == 0 {
    } else {
        let front = tags.drop_last();
        let key = tags.last().0;
        let value = tags.last().1;
        let tail = spec_text_bytes(key) + spec_text_bytes(value) + after;
        assert(bytes =~= before + spec_encode_tags(front) + tail);
        lemma_decode_encoded_tags(before, front, tail);
        let head = before + spec_encode_tags(front);
        assert(bytes =~= head + spec_text_bytes(key) + (spec_text_bytes(value) + after));
        lemma_read_text(head, key, spec_text_bytes(value) + after);
        let head_value = head + spec_text_bytes(key);
        assert(bytes =~= head_value + spec_text_bytes(value) + after);
        lemma_read_text(head_value, value, after);
        assert(front.push((key, value)) =~= tags);
    }
}

/// Reading the bytes written for the data of a song gives that data.
pub proof fn lemma_sidecar_round_trip(data: SongDataView)
    requires
        spec_fits(data),
    ensures
        spec_decode(spec_encode(data)) == Some(data),
{
    let bytes = spec_encode(data);
    let a = spec_text_bytes(data.artist);
    let b = spec_text_bytes(data.album);
    let c = spec_text_bytes(data.title);
    let n = spec_len_bytes(data.custom_song_tags.len());
    let t = spec_encode_tags(data.custom_song_tags);
    let empty = Seq::<u8>::empty();
    assert(bytes =~= empty + a + (b + c + n + t));
    lemma_read_text(empty, data.artist, b + c + n + t);
    assert(bytes =~= a + b + (c + n + t));
    lemma_read_text(a, data.album, c + n + t);
    assert(bytes =~= (a + b) + c + (n + t));
    lemma_read_text(a + b, data.title, n + t);
    assert(bytes =~= (a + b + c) + n + t);
    lemma_read_len(a + b + c, data.custom_song_tags.len(), t);
    assert(bytes =~= (a + b + c + n) + t + empty);
    lemma_decode_encoded_tags(a + b + c + n, data.custom_song_tags, empty);
}

} // verus!
