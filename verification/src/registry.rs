//! The names under which songs came in, each with the identifier that the
//! song got.

use crate::id_generator::{lemma_decode_encoded, spec_decode, spec_normal, Id};
use crate::wire::{
    lemma_read_len, lemma_read_text, push_len, push_text, read_len, read_text, spec_len_bytes,
    spec_read_len, spec_read_text, spec_text_bytes,
};
use vstd::utf8::encode_utf8;
use vstd::prelude::*;
use vstd::slice::slice_subrange;

verus! {

/// The position of the first entry of `entries` under `name`, or the
/// length of `entries` where there is none.
pub open spec fn spec_position(entries: Seq<(Seq<char>, Id)>, name: Seq<char>) -> int
    decreases entries.len(),
{
    if entries.len() == 0 {
        0
    } else if entries[0].0 == name {
        0
    } else {
        1 + spec_position(entries.drop_first(), name)
    }
}

/// The entries after `id` was put under `name`: in place of the entry that
/// stood under that name, or behind the others where none did.
pub open spec fn spec_register(
    entries: Seq<(Seq<char>, Id)>,
    name: Seq<char>,
    id: Id,
) -> Seq<(Seq<char>, Id)> {
    let at = spec_position(entries, name);
    if at < entries.len() {
        entries.update(at, (name, id))
    } else {
        entries.push((name, id))
    }
}

/// The identifier under `name`, where there is one.
pub open spec fn spec_lookup(entries: Seq<(Seq<char>, Id)>, name: Seq<char>) -> Option<Id> {
    let at = spec_position(entries, name);
    if at < entries.len() {
        Some(entries[at].1)
    } else {
        None
    }
}

/// No two entries stand under one name.
pub open spec fn spec_names_differ(entries: Seq<(Seq<char>, Id)>) -> bool {
    forall|i: int, j: int|
        0 <= i < entries.len() && 0 <= j < entries.len() && i != j ==> (#[trigger] entries[i]).0 != (
        #[trigger] entries[j]).0
}

/// The bytes of the entries, one after the other: the name as a text, then
/// the binary form of the identifier.
pub open spec fn spec_encode_entries(entries: Seq<(Seq<char>, Id)>) -> Seq<u8>
    decreases entries.len(),
{
    if entries.len() == 0 {
        Seq::<u8>::empty()
    } else {
        spec_encode_entries(entries.drop_last()) + spec_text_bytes(entries.last().0)
            + entries.last().1.spec_bytes()
    }
}

/// The bytes of the registry: the number of entries, then the entries.
pub open spec fn spec_encode_registry(entries: Seq<(Seq<char>, Id)>) -> Seq<u8> {
    spec_len_bytes(entries.len()) + spec_encode_entries(entries)
}

/// The `count` entries that stand in `bytes` from `pos` on, and the
/// position behind them; `None` where one of them cannot be read.
pub open spec fn spec_decode_entries(bytes: Seq<u8>, pos: int, count: nat) -> Option<
    (Seq<(Seq<char>, Id)>, int),
>
    decreases count,
{
    if count == 0 {
        Some((Seq::<(Seq<char>, Id)>::empty(), pos))
    } else {
        match spec_decode_entries(bytes, pos, (count - 1) as nat) {
            None => None,
            Some((front, at)) => match spec_read_text(bytes, at) {
                None => None,
                Some((name, at_id)) => match spec_decode(bytes.skip(at_id)) {
                    None => None,
                    Some((id, taken)) => Some((front.push((name, id)), at_id + taken)),
                },
            },
        }
    }
}

/// What the bytes of the file of the registry say; `None` where they are
/// not the bytes of such a file, or where bytes are left over.
pub open spec fn spec_decode_registry(bytes: Seq<u8>) -> Option<Seq<(Seq<char>, Id)>> {
    match spec_read_len(bytes, 0) {
        None => None,
        Some((count, at)) => match spec_decode_entries(bytes, at, count) {
            None => None,
            Some((entries, end)) => if end == bytes.len() {
                Some(entries)
            } else {
                None
            },
        },
    }
}

/// The names under which songs came in.
pub struct RegisteredSongs {
    name_map: Vec<(String, Id)>,
}

/// The entries as plain values.
pub open spec fn spec_entry_views(entries: Seq<(String, Id)>) -> Seq<(Seq<char>, Id)> {
    Seq::new(entries.len(), |i: int| (entries[i].0@, entries[i].1))
}

impl View for RegisteredSongs {
    type V = Seq<(Seq<char>, Id)>;

    closed spec fn view(&self) -> Seq<(Seq<char>, Id)> {
        spec_entry_views(self.name_map@)
    }
}

impl RegisteredSongs {
    /// A registry without entries.
    pub fn new() -> (registry: Self)
        ensures
            registry@ == Seq::<(Seq<char>, Id)>::empty(),
    {
        let registry = RegisteredSongs { name_map: Vec::new() };
        assert(registry@ =~= Seq::<(Seq<char>, Id)>::empty());
        registry
    }

    /// The position of the first entry under `name`, or the number of
    /// entries where there is none.
    fn position(&self, name: &str) -> (at: usize)
        ensures
            at == spec_position(self@, name@),
            at <= self@.len(),
    {
        let wanted = name.to_owned();
        let mut at: usize = 0;
        assert(self@.skip(0) =~= self@);
        while at < self.name_map.len()
            invariant
                at <= self.name_map@.len(),
                wanted@ == name@,
                spec_position(self@, name@) == at + spec_position(self@.skip(at as int), name@),
            decreases self.name_map@.len() - at,
        {
            proof {
                assert(self@.skip(at as int).drop_first() =~= self@.skip(at + 1));
                assert(self@.skip(at as int)[0] == self@[at as int]);
            }
            if self.name_map[at].0 == wanted {
                return at;
            }
            at += 1;
        }
        at
    }

    /// Puts `song_id` under `name`: in place of what stood under that name,
    /// or as a new entry.
    pub fn register_song(&mut self, song_id: Id, name: String)
        ensures
            final(self)@ == spec_register(old(self)@, name@, song_id),
    {
        let at = self.position(name.as_str());
        if at < self.name_map.len() {
            self.name_map[at] = (name, song_id);
            assert(self@ =~= spec_register(old(self)@, name@, song_id));
        } else {
            self.name_map.push((name, song_id));
            assert(self@ =~= spec_register(old(self)@, name@, song_id));
        }
    }

    /// The identifier under `name`, where there is one.
    pub fn lookup(&self, name: &str) -> (song_id: Option<Id>)
        ensures
            song_id == spec_lookup(self@, name@),
    {
        let at = self.position(name);
        if at < self.name_map.len() {
            Some(self.name_map[at].1)
        } else {
            None
        }
    }

    /// The number of entries.
    pub fn len(&self) -> (len: usize)
        ensures
            len == self@.len(),
    {
        self.name_map.len()
    }

    /// Reads the bytes of the file of the registry.
    #[verifier::loop_isolation(false)]
    pub fn from_bytes(bytes: &[u8]) -> (registry: Option<RegisteredSongs>)
        ensures
            match registry {
                Some(registry) => spec_decode_registry(bytes@) == Some(registry@),
                None => spec_decode_registry(bytes@) is None,
            },
    {
        let (count, at_entries) = match read_len(bytes, 0) {
            Some(read) => read,
            None => {
                return None;
            },
        };
        let mut name_map: Vec<(String, Id)> = Vec::new();
        let mut pos = at_entries;
        let mut i: u64 = 0;
        while i < count
            invariant
                i <= count,
                spec_decode_entries(bytes@, at_entries as int, i as nat) == Some(
                    (spec_entry_views(name_map@), pos as int),
                ),
            decreases count - i,
        {
            let (name, at_id) = match read_text(bytes, pos) {
                Some(read) => read,
                None => {
                    proof {
                        lemma_decode_entries_fails_on(
                            bytes@,
                            at_entries as int,
                            (i + 1) as nat,
                            count as nat,
                        );
                    }
                    return None;
                },
            };
            let rest = slice_subrange(bytes, at_id, bytes.len());
            assert(rest@ =~= bytes@.skip(at_id as int));
            let (id, taken) = match Id::from_buf(rest) {
                Some(read) => read,
                None => {
                    proof {
                        lemma_decode_entries_fails_on(
                            bytes@,
                            at_entries as int,
                            (i + 1) as nat,
                            count as nat,
                        );
                    }
                    return None;
                },
            };
            let ghost before = spec_entry_views(name_map@);
            name_map.push((name, id));
            assert(spec_entry_views(name_map@) =~= before.push((name@, id)));
            pos = at_id + taken;
            i += 1;
        }
        if pos != bytes.len() {
            return None;
        }
        Some(RegisteredSongs { name_map })
    }

    /// The bytes to write to the file of the registry.
    pub fn to_bytes(&self) -> (bytes: Vec<u8>)
        ensures
            bytes@ == spec_encode_registry(self@),
    {
        let mut bytes: Vec<u8> = Vec::new();
        push_len(&mut bytes, self.name_map.len());
        let ghost head = bytes@;
        let mut i: usize = 0;
        while i < self.name_map.len()
            invariant
                i <= self.name_map@.len(),
                bytes@ == head + spec_encode_entries(self@.take(i as int)),
            decreases self.name_map@.len() - i,
        {
            proof {
                assert(self@.take(i + 1).drop_last() =~= self@.take(i as int));
                assert(self@.take(i + 1).last() == self@[i as int]);
            }
            push_text(&mut bytes, self.name_map[i].0.as_str());
            self.name_map[i].1.to_buf(&mut bytes);
            i += 1;
            assert(bytes@ =~= head + spec_encode_entries(self@.take(i as int)));
        }
        assert(self@.take(self@.len() as int) =~= self@);
        bytes
    }
}

/// The first entry under a name stands where `spec_position` says, and no
/// entry before it stands under that name.
proof fn lemma_position(entries: Seq<(Seq<char>, Id)>, name: Seq<char>)
    ensures
        0 <= spec_position(entries, name) <= entries.len(),
        spec_position(entries, name) < entries.len() ==> entries[spec_position(
            entries,
            name,
        )].0 == name,
        forall|i: int| 0 <= i < spec_position(entries, name) ==> (#[trigger] entries[i]).0 != name,
    decreases entries.len(),
{
    if entries.len() > 0 && entries[0].0 != name {
        let rest = entries.drop_first();
        lemma_position(rest, name);
        let at = spec_position(rest, name);
        assert forall|i: int| 0 <= i < 1 + at implies (#[trigger] entries[i]).0 != name by {
            if i > 0 {
                assert(rest[i - 1] == entries[i]);
            }
        }
        if at < rest.len() {
            assert(rest[at] == entries[1 + at]);
        }
    }
}

/// A name stands at the same place in two lists that agree up to the first
/// entry under that name.
proof fn lemma_position_found(entries: Seq<(Seq<char>, Id)>, name: Seq<char>, at: int)
    requires
        0 <= at < entries.len(),
        entries[at].0 == name,
        forall|i: int| 0 <= i < at ==> (#[trigger] entries[i]).0 != name,
    ensures
        spec_position(entries, name) == at,
    decreases entries.len(),
{
    if at > 0 {
        let rest = entries.drop_first();
        assert(entries[0].0 != name);
        assert forall|i: int| 0 <= i < at - 1 implies (#[trigger] rest[i]).0 != name by {
            assert(rest[i] == entries[i + 1]);
        }
        lemma_position_found(rest, name, at - 1);
    }
}

/// Where no entry stands under a name, `spec_position` is behind the last
/// entry.
proof fn lemma_position_missing(entries: Seq<(Seq<char>, Id)>, name: Seq<char>)
    requires
        forall|i: int| 0 <= i < entries.len() ==> (#[trigger] entries[i]).0 != name,
    ensures
        spec_position(entries, name) == entries.len(),
    decreases entries.len(),
{
    if entries.len() > 0 {
        let rest = entries.drop_first();
        assert(entries[0].0 != name);
        assert forall|i: int| 0 <= i < rest.len() implies (#[trigger] rest[i]).0 != name by {
            assert(rest[i] == entries[i + 1]);
        }
        lemma_position_missing(rest, name);
    }
}

/// After a song was put under a name, that song is found under the name,
/// and under every other name what was found there before.
pub proof fn lemma_register_lookup(
    entries: Seq<(Seq<char>, Id)>,
    name: Seq<char>,
    id: Id,
    other: Seq<char>,
)
    ensures
        spec_lookup(spec_register(entries, name, id), name) == Some(id),
        other != name ==> spec_lookup(spec_register(entries, name, id), other) == spec_lookup(
            entries,
            other,
        ),
{
    let after = spec_register(entries, name, id);
    let at = spec_position(entries, name);
    lemma_position(entries, name);
    lemma_position(entries, other);
    assert forall|i: int| 0 <= i < at implies (#[trigger] after[i]).0 != name by {
        assert(after[i] == entries[i]);
    }
    lemma_position_found(after, name, at);
    if other != name {
        let at_other = spec_position(entries, other);
        if at_other < entries.len() {
            assert(at_other != at);
            assert forall|i: int| 0 <= i < at_other implies (#[trigger] after[i]).0 != other by {
                if i != at {
                    assert(after[i] == entries[i]);
                }
            }
            assert(after[at_other] == entries[at_other]);
            lemma_position_found(after, other, at_other);
        } else {
            assert forall|i: int| 0 <= i < after.len() implies (#[trigger] after[i]).0
                != other by {
                if i != at {
                    assert(after[i] == entries[i]);
                }
            }
            lemma_position_missing(after, other);
        }
    }
}

/// Putting songs under names leaves no two entries under one name.
pub proof fn lemma_register_keeps_names_apart(
    entries: Seq<(Seq<char>, Id)>,
    name: Seq<char>,
    id: Id,
)
    requires
        spec_names_differ(entries),
    ensures
        spec_names_differ(spec_register(entries, name, id)),
{
    let after = spec_register(entries, name, id);
    let at = spec_position(entries, name);
    lemma_position(entries, name);
    assert forall|i: int, j: int|
        0 <= i < after.len() && 0 <= j < after.len() && i != j implies (#[trigger] after[i]).0 != (
    #[trigger] after[j]).0 by {
        if at < entries.len() {
            if i != at && j != at {
                assert(after[i] == entries[i] && after[j] == entries[j]);
            } else if i == at {
                assert(after[j] == entries[j]);
                assert(entries[at].0 == name);
            } else {
                assert(after[i] == entries[i]);
                assert(entries[at].0 == name);
            }
        } else {
            if i < entries.len() && j < entries.len() {
                assert(after[i] == entries[i] && after[j] == entries[j]);
            } else if i < entries.len() {
                assert(after[i] == entries[i]);
            } else {
                assert(after[j] == entries[j]);
            }
        }
    }
}

/// Where the first `fewer` entries cannot be read, no greater number of
/// them can.
proof fn lemma_decode_entries_fails_on(bytes: Seq<u8>, pos: int, fewer: nat, more: nat)
    requires
        fewer <= more,
        spec_decode_entries(bytes, pos, fewer) is None,
    ensures
        spec_decode_entries(bytes, pos, more) is None,
    decreases more,
{
    if fewer < more {
        lemma_decode_entries_fails_on(bytes, pos, fewer, (more - 1) as nat);
    }
}

/// The entries as they are read back: each identifier with the header zero
/// where it has none.
pub open spec fn spec_normal_entries(entries: Seq<(Seq<char>, Id)>) -> Seq<(Seq<char>, Id)> {
    Seq::new(entries.len(), |i: int| (entries[i].0, spec_normal(entries[i].1)))
}

/// The entries written behind `before` are read back from there.
proof fn lemma_decode_encoded_entries(
    before: Seq<u8>,
    entries: Seq<(Seq<char>, Id)>,
    after: Seq<u8>,
)
    requires
        forall|i: int|
            0 <= i < entries.len() ==> encode_utf8((#[trigger] entries[i]).0).len() <= u64::MAX
                && entries[i].1.is_valid(),
    ensures
        spec_decode_entries(
            before + spec_encode_entries(entries) + after,
            before.len() as int,
            entries.len(),
        ) == Some(
            (spec_normal_entries(entries), before.len() as int + spec_encode_entries(entries).len()),
        ),
    decreases entries.len(),
{
    let bytes = before + spec_encode_entries(entries) + after;
    if entries.len() == 0 {
        assert(spec_normal_entries(entries) =~= Seq::<(Seq<char>, Id)>::empty());
    } else {
        let front = entries.drop_last();
        let name = entries.last().0;
        let id = entries.last().1;
        let tail = spec_text_bytes(name) + id.spec_bytes() + after;
        assert(bytes =~= before + spec_encode_entries(front) + tail);
        lemma_decode_encoded_entries(before, front, tail);
        let head = before + spec_encode_entries(front);
        assert(bytes =~= head + spec_text_bytes(name) + (id.spec_bytes() + after));
        lemma_read_text(head, name, id.spec_bytes() + after);
        let at_id = head.len() as int + spec_text_bytes(name).len();
        assert(bytes.skip(at_id) =~= id.spec_bytes() + after);
        lemma_decode_encoded(id, after);
        assert(spec_normal_entries(front).push((name, spec_normal(id))) =~= spec_normal_entries(
            entries,
        ));
    }
}

/// Reading the bytes written for a registry gives its entries, each
/// identifier as it is read back.
pub proof fn lemma_registry_round_trip(entries: Seq<(Seq<char>, Id)>)
    requires
        entries.len() <= u64::MAX,
        forall|i: int|
            0 <= i < entries.len() ==> encode_utf8((#[trigger] entries[i]).0).len() <= u64::MAX
                && entries[i].1.is_valid(),
    ensures
        spec_decode_registry(spec_encode_registry(entries)) == Some(spec_normal_entries(entries)),
{
    let bytes = spec_encode_registry(entries);
    let count = spec_len_bytes(entries.len());
    let body = spec_encode_entries(entries);
    let empty = Seq::<u8>::empty();
    assert(bytes =~= empty + count + body);
    lemma_read_len(empty, entries.len(), body);
    assert(bytes =~= count + body + empty);
    lemma_decode_encoded_entries(count, entries, empty);
}

} // verus!
