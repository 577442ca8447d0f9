//! Song identifiers: a counter byte, two bytes of clock and twelve random bytes,
//! with an optional header byte in front, and their binary and text forms.

use crate::hex::{
    lemma_hex_text_concat, lemma_unhex_hex_text, push_hex, spec_hex_text, spec_unhex, unhex,
};
use crate::outside::{push_char, random_payload, since_unix_epoch};
use crate::text::chars_of;
use rand::rngs::ThreadRng;
use std::time::SystemTime;
use vstd::prelude::*;

verus! {

/// Bytes of an identifier without its header.
pub const BYTE_LEN_WITHOUT_HEADER: usize = 15;

/// Bytes of an identifier with its header.
pub const BYTE_LEN_WITH_HEADER: usize = 16;

/// The counter of a generator runs from zero up to, not including, this value.
pub const INCREMENT_MODULUS: u8 = 127;

/// A byte is a header when its highest bit is set.
pub open spec fn spec_is_header(byte: u8) -> bool {
    byte >= 128
}

/// A byte is a header when its highest bit is set.
pub fn is_header(byte: u8) -> (header: bool)
    ensures
        header == spec_is_header(byte),
{
    byte >= 128
}

/// A song identifier.
///
/// The header byte is carried along but is no part of the identity: two
/// identifiers are the same when counter, clock and payload agree.
#[derive(Copy, Clone, Debug)]
pub struct Id {
    pub header: u8,
    pub increment: u8,
    pub time: u16,
    pub data: [u8; 12],
}

impl Id {
    /// Counter, clock and payload agree.
    pub open spec fn same_id(self, other: Id) -> bool {
        &&& self.increment == other.increment
        &&& self.time == other.time
        &&& self.data@ == other.data@
    }

    /// The stored header byte has its highest bit set.
    pub open spec fn spec_has_header(self) -> bool {
        spec_is_header(self.header)
    }

    /// The high byte of the clock field.
    pub open spec fn time_high(self) -> u8 {
        (self.time / 256) as u8
    }

    /// The low byte of the clock field.
    pub open spec fn time_low(self) -> u8 {
        (self.time % 256) as u8
    }

    /// Counter, clock (high byte first) and payload: fifteen bytes.
    pub open spec fn spec_headerless_bytes(self) -> Seq<u8> {
        seq![self.increment, self.time_high(), self.time_low()] + self.data@
    }

    /// The binary form: the header byte if there is a header, then the fifteen
    /// headerless bytes.
    pub open spec fn spec_bytes(self) -> Seq<u8> {
        if self.spec_has_header() {
            seq![self.header] + self.spec_headerless_bytes()
        } else {
            self.spec_headerless_bytes()
        }
    }

    /// The number of the identifier in base 256, from its fifteen headerless
    /// bytes: equal for two identifiers exactly when they are the same.
    pub open spec fn spec_key(self) -> nat {
        spec_key_of(self.spec_headerless_bytes(), 15)
    }

    pub fn has_header(&self) -> (present: bool)
        ensures
            present == self.spec_has_header(),
    {
        is_header(self.header)
    }

    pub fn header(&self) -> (header: Option<u8>)
        ensures
            header == (if self.spec_has_header() {
                Some(self.header)
            } else {
                None
            }),
    {
        if self.has_header() {
            Some(self.header)
        } else {
            None
        }
    }

    pub fn headerless_bytes(&self) -> (out: [u8; 15])
        ensures
            out@ == self.spec_headerless_bytes(),
    {
        let mut out = [0u8; 15];
        out[0] = self.increment;
        out[1] = (self.time / 256) as u8;
        out[2] = (self.time % 256) as u8;
        let mut i: usize = 0;
        while i < 12
            invariant
                i <= 12,
                out@.len() == 15,
                out@[0] == self.increment,
                out@[1] == self.time_high(),
                out@[2] == self.time_low(),
                forall|j: int| 0 <= j < i ==> out@[3 + j] == self.data@[j],
            decreases 12 - i,
        {
            out[3 + i] = self.data[i];
            i += 1;
        }
        assert(out@ =~= self.spec_headerless_bytes());
        out
    }

    /// The identifier as one number: the fifteen headerless bytes in base 256.
    pub fn key(&self) -> (key: u128)
        ensures
            key as nat == self.spec_key(),
    {
        let bytes = self.headerless_bytes();
        let mut key: u128 = 0;
        let mut i: usize = 0;
        while i < 15
            invariant
                i <= 15,
                bytes@.len() == 15,
                key as nat == spec_key_of(bytes@, i as nat),
                key < pow256(i as nat),
            decreases 15 - i,
        {
            proof {
                lemma_pow256_bounds(i as nat);
            }
            key = key * 256 + bytes[i] as u128;
            i += 1;
        }
        key
    }

    /// Appends the binary form to `buf`.
    pub fn to_buf(&self, buf: &mut Vec<u8>)
        ensures
            final(buf)@ == old(buf)@ + self.spec_bytes(),
    {
        let ghost before = buf@;
        if self.has_header() {
            buf.push(self.header);
        }
        buf.push(self.increment);
        buf.push((self.time / 256) as u8);
        buf.push((self.time % 256) as u8);
        let ghost prefix = buf@;
        let mut i: usize = 0;
        while i < 12
            invariant
                i <= 12,
                buf@ == prefix + self.data@.take(i as int),
            decreases 12 - i,
        {
            buf.push(self.data[i]);
            i += 1;
            assert(self.data@.take(i as int) == self.data@.take(i - 1).push(self.data@[i - 1]));
        }
        assert(self.data@.take(12) == self.data@);
        assert(buf@ =~= before + self.spec_bytes());
    }

    /// The first bit of the counter is clear, which tells it from a header.
    /// Every identifier that a generator makes is of this kind.
    pub open spec fn is_valid(self) -> bool {
        !spec_is_header(self.increment)
    }

    /// The text form: the digits of the header and a hyphen if there is a
    /// header, then the digits of the counter, a hyphen, those of the clock
    /// with its high byte first, a hyphen, and those of the payload.
    pub open spec fn spec_text(self) -> Seq<char> {
        let head = if self.spec_has_header() {
            spec_hex_text(seq![self.header]) + seq!['-']
        } else {
            Seq::<char>::empty()
        };
        head + spec_hex_text(seq![self.increment]) + seq!['-'] + spec_hex_text(
            seq![self.time_high(), self.time_low()],
        ) + seq!['-'] + spec_hex_text(self.data@)
    }

    /// The text form of the identifier, in upper-case hexadecimal digits.
    pub fn to_string(&self) -> (text: String)
        ensures
            text@ == self.spec_text(),
    {
        let mut text = String::new();
        if self.has_header() {
            push_hex(&mut text, self.header);
            push_char(&mut text, '-');
        }
        push_hex(&mut text, self.increment);
        push_char(&mut text, '-');
        push_hex(&mut text, (self.time / 256) as u8);
        push_hex(&mut text, (self.time % 256) as u8);
        push_char(&mut text, '-');
        proof {
            lemma_hex_text_concat(seq![self.time_high()], seq![self.time_low()]);
            assert(seq![self.time_high()] + seq![self.time_low()] =~= seq![
                self.time_high(),
                self.time_low(),
            ]);
        }
        let ghost prefix = text@;
        let mut i: usize = 0;
        while i < 12
            invariant
                i <= 12,
                text@ == prefix + spec_hex_text(self.data@.take(i as int)),
            decreases 12 - i,
        {
            push_hex(&mut text, self.data[i]);
            proof {
                lemma_hex_text_concat(self.data@.take(i as int), seq![self.data@[i as int]]);
                assert(self.data@.take(i + 1) =~= self.data@.take(i as int) + seq![
                    self.data@[i as int],
                ]);
            }
            i += 1;
        }
        assert(self.data@.take(12) =~= self.data@);
        assert(text@ =~= self.spec_text());
        text
    }

    /// Reads the text form. Hyphens are skipped wherever they stand; digits
    /// of either case are read.
    pub fn try_from_str(s: &str) -> (parsed: Option<Id>)
        ensures
            parsed == spec_parse(s@),
    {
        let chars = chars_of(s);
        let mut digits: Vec<char> = Vec::new();
        let mut i: usize = 0;
        while i < chars.len()
            invariant
                i <= chars@.len(),
                digits@ == spec_digits(chars@.take(i as int)),
            decreases chars@.len() - i,
        {
            let c = chars[i];
            proof {
                lemma_digits_push(chars@.take(i as int), c);
                assert(chars@.take(i + 1) =~= chars@.take(i as int).push(c));
            }
            if c != '-' {
                digits.push(c);
            }
            i += 1;
        }
        assert(chars@.take(chars@.len() as int) =~= chars@);
        if digits.len() != BYTE_LEN_WITHOUT_HEADER * 2 && digits.len() != BYTE_LEN_WITH_HEADER * 2 {
            return None;
        }
        match unhex(&digits) {
            None => None,
            Some(bytes) => match Id::from_buf(bytes.as_slice()) {
                Some((id, taken)) => if taken == bytes.len() {
                    Some(id)
                } else {
                    None
                },
                None => None,
            },
        }
    }

    /// The identifiers that the names spell, in the order of the names; a
    /// name that spells none is passed over.
    pub fn from_file_stems(stems: &Vec<String>) -> (ids: Vec<Id>)
        ensures
            ids@ == spec_ids_of_stems(spec_texts(stems@)),
    {
        let mut ids: Vec<Id> = Vec::new();
        let ghost texts = spec_texts(stems@);
        let mut i: usize = 0;
        while i < stems.len()
            invariant
                i <= stems@.len(),
                texts == spec_texts(stems@),
                ids@ == spec_ids_of_stems(texts.take(i as int)),
            decreases stems@.len() - i,
        {
            proof {
                assert(texts.take(i + 1).drop_last() =~= texts.take(i as int));
                assert(texts.take(i + 1).last() == stems@[i as int]@);
            }
            match Id::try_from_str(stems[i].as_str()) {
                Some(id) => {
                    ids.push(id);
                },
                None => {},
            }
            i += 1;
        }
        assert(texts.take(texts.len() as int) =~= texts);
        ids
    }

    /// Reads an identifier from the front of `buf`: the identifier and the
    /// number of bytes it took, or `None` where `buf` is too short for the
    /// layout that its first byte announces.
    pub fn from_buf(buf: &[u8]) -> (read: Option<(Id, usize)>)
        ensures
            read == spec_decode(buf@),
    {
        if buf.len() == 0 {
            return None;
        }
        let first = buf[0];
        let with_header = is_header(first);
        let start: usize = if with_header {
            1
        } else {
            0
        };
        if buf.len() < start + BYTE_LEN_WITHOUT_HEADER {
            return None;
        }
        let header: u8 = if with_header {
            first
        } else {
            0
        };
        let increment = buf[start];
        let time: u16 = (buf[start + 1] as u16) * 256 + buf[start + 2] as u16;
        let mut data = [0u8; 12];
        let mut i: usize = 0;
        while i < 12
            invariant
                i <= 12,
                start <= 1,
                start + 15 <= buf@.len(),
                data@.len() == 12,
                forall|j: int| 0 <= j < i ==> data@[j] == buf@[start + 3 + j],
            decreases 12 - i,
        {
            data[i] = buf[start + 3 + i];
            i += 1;
        }
        let id = Id { header, increment, time, data };
        proof {
            let rest = buf@.skip(start + 3);
            assert(id.data@ =~= rest.subrange(0, 12));
            lemma_payload_of(rest);
        }
        Some((id, start + BYTE_LEN_WITHOUT_HEADER))
    }
}

/// 256 to the power `n`.
pub open spec fn pow256(n: nat) -> nat
    decreases n,
{
    if n == 0 {
        1
    } else {
        256 * pow256((n - 1) as nat)
    }
}

/// The first `n` bytes of `bytes` read as one number in base 256.
pub open spec fn spec_key_of(bytes: Seq<u8>, n: nat) -> nat
    recommends
        n <= bytes.len(),
    decreases n,
{
    if n == 0 {
        0
    } else {
        spec_key_of(bytes, (n - 1) as nat) * 256 + bytes[n - 1] as nat
    }
}

proof fn lemma_pow256_bounds(n: nat)
    requires
        n < 15,
    ensures
        pow256(n) * 256 == pow256(n + 1),
        pow256(n + 1) <= 0x1_0000_0000_0000_0000_0000_0000_0000_00,
    decreases n,
{
    reveal_with_fuel(pow256, 16);
}

/// The payload whose twelve bytes are the first twelve of `bytes`.
pub closed spec fn spec_payload_of(bytes: Seq<u8>) -> [u8; 12] {
    let a0 = vstd::array::spec_array_fill_for_copy_type::<u8, 12>(0u8);
    let a1 = vstd::array::spec_array_update(a0, 0, bytes[0]);
    let a2 = vstd::array::spec_array_update(a1, 1, bytes[1]);
    let a3 = vstd::array::spec_array_update(a2, 2, bytes[2]);
    let a4 = vstd::array::spec_array_update(a3, 3, bytes[3]);
    let a5 = vstd::array::spec_array_update(a4, 4, bytes[4]);
    let a6 = vstd::array::spec_array_update(a5, 5, bytes[5]);
    let a7 = vstd::array::spec_array_update(a6, 6, bytes[6]);
    let a8 = vstd::array::spec_array_update(a7, 7, bytes[7]);
    let a9 = vstd::array::spec_array_update(a8, 8, bytes[8]);
    let a10 = vstd::array::spec_array_update(a9, 9, bytes[9]);
    let a11 = vstd::array::spec_array_update(a10, 10, bytes[10]);
    vstd::array::spec_array_update(a11, 11, bytes[11])
}

/// The payload of twelve bytes holds those bytes, and two payloads with
/// the same bytes are the same.
pub proof fn lemma_payload_of(bytes: Seq<u8>)
    requires
        bytes.len() >= 12,
    ensures
        spec_payload_of(bytes)@ == bytes.subrange(0, 12),
        forall|data: [u8; 12]| data@ == bytes.subrange(0, 12) ==> data == spec_payload_of(bytes),
{
    assert(spec_payload_of(bytes)@ =~= bytes.subrange(0, 12));
    assert forall|data: [u8; 12]| data@ == bytes.subrange(0, 12) implies data == spec_payload_of(
        bytes,
    ) by {
        assert(data =~= spec_payload_of(bytes));
    }
}

/// The identifier whose headerless bytes stand in `bytes` from `start` on,
/// under the header `header`.
pub open spec fn spec_id_of(bytes: Seq<u8>, start: int, header: u8) -> Id {
    Id {
        header,
        increment: bytes[start],
        time: (bytes[start + 1] * 256 + bytes[start + 2]) as u16,
        data: spec_payload_of(bytes.skip(start + 3)),
    }
}

/// What `Id::from_buf` gives for `bytes`: the identifier at their front and
/// the number of bytes that it takes.
pub open spec fn spec_decode(bytes: Seq<u8>) -> Option<(Id, usize)> {
    if bytes.len() == 0 {
        None
    } else if spec_is_header(bytes[0]) {
        if bytes.len() < 16 {
            None
        } else {
            Some((spec_id_of(bytes, 1, bytes[0]), 16usize))
        }
    } else {
        if bytes.len() < 15 {
            None
        } else {
            Some((spec_id_of(bytes, 0, 0), 15usize))
        }
    }
}

/// What the parts of a decoded identifier are: a header as the first byte
/// says, then counter, clock with its high byte first, and payload.
pub proof fn lemma_decoded_parts(bytes: Seq<u8>)
    ensures
        spec_decode(bytes) matches Some((id, taken)) ==> {
            let start = taken - 15;
            &&& start == (if spec_is_header(bytes[0]) {
                1int
            } else {
                0int
            })
            &&& taken <= bytes.len()
            &&& id.header == (if start == 1 {
                bytes[0]
            } else {
                0
            })
            &&& id.increment == bytes[start]
            &&& id.time == bytes[start + 1] * 256 + bytes[start + 2]
            &&& id.data@ == bytes.subrange(start + 3, start + 15)
        },
{
    if bytes.len() > 0 {
        let start: int = if spec_is_header(bytes[0]) {
            1
        } else {
            0
        };
        if bytes.len() >= start + 15 {
            let rest = bytes.skip(start + 3);
            lemma_payload_of(rest);
            assert(rest.subrange(0, 12) =~= bytes.subrange(start + 3, start + 15));
        }
    }
}

/// `id` as it is read back from its binary or text form: with its header
/// where it has one, and with the header zero where it has none.
pub open spec fn spec_normal(id: Id) -> Id {
    Id {
        header: if id.spec_has_header() {
            id.header
        } else {
            0
        },
        ..id
    }
}

/// Reading the binary form of an identifier, whatever follows it, gives the
/// identifier as it is read back, and takes exactly the bytes of that form.
pub proof fn lemma_decode_encoded(id: Id, rest: Seq<u8>)
    requires
        id.is_valid(),
    ensures
        spec_decode(id.spec_bytes() + rest) == Some(
            (spec_normal(id), id.spec_bytes().len() as usize),
        ),
        id.spec_bytes().len() == 15 || id.spec_bytes().len() == 16,
{
    let bytes = id.spec_bytes() + rest;
    lemma_bytes_layout(id);
    let start: int = if id.spec_has_header() {
        1
    } else {
        0
    };
    let tail = bytes.skip(start + 3);
    assert(tail.subrange(0, 12) =~= id.data@);
    lemma_payload_of(tail);
    assert(spec_payload_of(tail) == id.data);
}

/// The characters of `text` that are no hyphen, in order.
pub open spec fn spec_digits(text: Seq<char>) -> Seq<char> {
    text.filter(|c: char| c != '-')
}

/// The texts of `names`.
pub open spec fn spec_texts(names: Seq<String>) -> Seq<Seq<char>> {
    Seq::new(names.len(), |i: int| names[i]@)
}

/// The identifiers that `stems` spell, in their order; a text that spells
/// none is passed over.
pub open spec fn spec_ids_of_stems(stems: Seq<Seq<char>>) -> Seq<Id>
    decreases stems.len(),
{
    if stems.len() == 0 {
        Seq::<Id>::empty()
    } else {
        match spec_parse(stems.last()) {
            Some(id) => spec_ids_of_stems(stems.drop_last()).push(id),
            None => spec_ids_of_stems(stems.drop_last()),
        }
    }
}

/// What `Id::try_from_str` gives for `text`.
///
/// The hyphens are dropped. What is left must be thirty or thirty-two
/// hexadecimal digits, and the bytes they spell must be the binary form of an
/// identifier, no byte more: sixteen bytes where the first is a header,
/// fifteen where it is not. Anything else gives `None`.
pub open spec fn spec_parse(text: Seq<char>) -> Option<Id> {
    let digits = spec_digits(text);
    if digits.len() != 30 && digits.len() != 32 {
        None
    } else {
        match spec_unhex(digits) {
            None => None,
            Some(bytes) => match spec_decode(bytes) {
                None => None,
                Some((id, taken)) => if taken == bytes.len() {
                    Some(id)
                } else {
                    None
                },
            },
        }
    }
}

proof fn lemma_digits_push(text: Seq<char>, c: char)
    ensures
        spec_digits(text.push(c)) == if c != '-' {
            spec_digits(text).push(c)
        } else {
            spec_digits(text)
        },
{
    reveal(Seq::filter);
    assert(text.push(c).drop_last() =~= text);
}

/// The identifier that a generator at counter `increment` makes from a clock
/// reading in nanoseconds and a payload: no header, that counter, the clock
/// modulo 65536.
pub open spec fn spec_next_id(increment: u8, nanos: u128, data: [u8; 12]) -> Id {
    Id { header: 0, increment, time: (nanos % 65536) as u16, data }
}

/// The counter that follows `increment`: it starts again at zero after 126.
pub open spec fn spec_next_increment(increment: u8) -> u8 {
    ((increment + 1) % 127) as u8
}

/// A counter that runs from zero to 126 and starts again at zero.
struct Counter {
    value: u8,
}

impl Counter {
    #[verifier::type_invariant]
    spec fn in_range(self) -> bool {
        self.value < INCREMENT_MODULUS
    }

    fn new() -> (counter: Self)
        ensures
            counter.value == 0,
    {
        Counter { value: 0 }
    }

    fn value(&self) -> (value: u8)
        ensures
            value == self.value,
            value < INCREMENT_MODULUS,
    {
        proof {
            use_type_invariant(self);
        }
        self.value
    }

    /// Hands out the current value and steps to the next.
    fn take(&mut self) -> (value: u8)
        ensures
            value == old(self).value,
            value < INCREMENT_MODULUS,
            final(self).value == spec_next_increment(value),
    {
        proof {
            use_type_invariant(&*self);
        }
        let value = self.value;
        self.value = (value + 1) % INCREMENT_MODULUS;
        value
    }
}

/// Makes identifiers. Its counter goes up by one with each of them and
/// starts again at zero after 126.
pub struct IdGenerator {
    counter: Counter,
    rng: ThreadRng,
}

impl IdGenerator {
    /// The counter that the next identifier will carry.
    pub closed spec fn spec_increment(self) -> u8 {
        self.counter.value
    }

    /// A generator at counter zero, over the random generator of this thread.
    pub fn new() -> (generator: Self)
        ensures
            generator.spec_increment() == 0,
    {
        IdGenerator { counter: Counter::new(), rng: rand::rng() }
    }

    /// The counter that the next identifier will carry.
    pub fn increment(&self) -> (increment: u8)
        ensures
            increment == self.spec_increment(),
            increment < INCREMENT_MODULUS,
    {
        self.counter.value()
    }

    /// The next identifier, from a clock reading in nanoseconds since the
    /// Unix epoch and a payload.
    pub fn next_id(&mut self, nanos: u128, data: [u8; 12]) -> (id: Id)
        ensures
            id == spec_next_id(old(self).spec_increment(), nanos, data),
            id.is_valid(),
            final(self).spec_increment() == spec_next_increment(old(self).spec_increment()),
    {
        let increment = self.counter.take();
        let time: u16 = (nanos % 65536) as u16;
        Id { header: 0, increment, time, data }
    }

    /// The next identifier, from the system clock and twelve random bytes.
    /// A clock that reads earlier than the Unix epoch counts as zero.
    pub fn generate_new_id(&mut self) -> (id: Id)
        ensures
            id.header == 0,
            id.increment == old(self).spec_increment(),
            id.is_valid(),
            final(self).spec_increment() == spec_next_increment(old(self).spec_increment()),
    {
        let now = SystemTime::now();
        let nanos: u128 = match since_unix_epoch(&now) {
            Some(elapsed) => elapsed.as_nanos(),
            None => 0,
        };
        let data = random_payload(&mut self.rng);
        self.next_id(nanos, data)
    }
}

proof fn lemma_digits_concat(a: Seq<char>, b: Seq<char>)
    ensures
        spec_digits(a + b) == spec_digits(a) + spec_digits(b),
    decreases b.len(),
{
    if b.len() == 0 {
        reveal(Seq::filter);
        assert(a + b =~= a);
        assert(spec_digits(a) + spec_digits(b) =~= spec_digits(a));
    } else {
        let front = b.drop_last();
        lemma_digits_concat(a, front);
        lemma_digits_push(a + front, b.last());
        lemma_digits_push(front, b.last());
        assert((a + front).push(b.last()) =~= a + b);
        assert(front.push(b.last()) =~= b);
        assert(spec_digits(a + b) =~= spec_digits(a) + spec_digits(b));
    }
}

proof fn lemma_digits_of_hex_text(bytes: Seq<u8>)
    ensures
        spec_digits(spec_hex_text(bytes)) == spec_hex_text(bytes),
    decreases bytes.len(),
{
    if bytes.len() == 0 {
        reveal(Seq::filter);
        assert(spec_hex_text(bytes) =~= Seq::<char>::empty());
    } else {
        let front = bytes.drop_last();
        let last = seq![bytes.last()];
        assert(front + last =~= bytes);
        lemma_hex_text_concat(front, last);
        lemma_digits_of_hex_text(front);
        lemma_digits_concat(spec_hex_text(front), spec_hex_text(last));
        let pair = spec_hex_text(last);
        assert(pair =~= Seq::<char>::empty().push(pair[0]).push(pair[1]));
        lemma_digits_push(Seq::<char>::empty(), pair[0]);
        lemma_digits_push(Seq::<char>::empty().push(pair[0]), pair[1]);
        reveal(Seq::filter);
        assert(spec_digits(Seq::<char>::empty()) =~= Seq::<char>::empty());
    }
}

proof fn lemma_digits_of_hyphen()
    ensures
        spec_digits(seq!['-']) == Seq::<char>::empty(),
{
    reveal(Seq::filter);
    lemma_digits_push(Seq::<char>::empty(), '-');
    assert(Seq::<char>::empty().push('-') =~= seq!['-']);
    assert(spec_digits(Seq::<char>::empty()) =~= Seq::<char>::empty());
}

/// Without its hyphens, the text form is the binary form in hexadecimal
/// digits.
pub proof fn lemma_text_spells_bytes(id: Id)
    ensures
        spec_digits(id.spec_text()) == spec_hex_text(id.spec_bytes()),
{
    let hy = seq!['-'];
    let h = spec_hex_text(seq![id.header]);
    let a = spec_hex_text(seq![id.increment]);
    let b = spec_hex_text(seq![id.time_high(), id.time_low()]);
    let c = spec_hex_text(id.data@);
    lemma_digits_of_hyphen();
    lemma_digits_of_hex_text(seq![id.header]);
    lemma_digits_of_hex_text(seq![id.increment]);
    lemma_digits_of_hex_text(seq![id.time_high(), id.time_low()]);
    lemma_digits_of_hex_text(id.data@);
    let head = if id.spec_has_header() {
        h + hy
    } else {
        Seq::<char>::empty()
    };
    if id.spec_has_header() {
        lemma_digits_concat(h, hy);
    } else {
        reveal(Seq::filter);
    }
    lemma_digits_concat(head, a);
    lemma_digits_concat(head + a, hy);
    lemma_digits_concat(head + a + hy, b);
    lemma_digits_concat(head + a + hy + b, hy);
    lemma_digits_concat(head + a + hy + b + hy, c);
    let headless = id.spec_headerless_bytes();
    lemma_hex_text_concat(seq![id.increment], seq![id.time_high(), id.time_low()]);
    lemma_hex_text_concat(seq![id.increment, id.time_high(), id.time_low()], id.data@);
    assert(seq![id.increment] + seq![id.time_high(), id.time_low()] =~= seq![
        id.increment,
        id.time_high(),
        id.time_low(),
    ]);
    if id.spec_has_header() {
        lemma_hex_text_concat(seq![id.header], headless);
    }
    assert(spec_digits(id.spec_text()) =~= spec_hex_text(id.spec_bytes()));
}

/// Where the parts of a valid identifier stand in its binary form.
proof fn lemma_bytes_layout(id: Id)
    requires
        id.is_valid(),
    ensures
        ({
            let bytes = id.spec_bytes();
            let start: int = if id.spec_has_header() {
                1
            } else {
                0
            };
            &&& bytes.len() == start + 15
            &&& spec_is_header(bytes[0]) == id.spec_has_header()
            &&& id.spec_has_header() ==> bytes[0] == id.header
            &&& bytes[start] == id.increment
            &&& id.time == bytes[start + 1] * 256 + bytes[start + 2]
            &&& bytes.subrange(start + 3, start + 15) == id.data@
        }),
{
    let bytes = id.spec_bytes();
    if id.spec_has_header() {
        assert(bytes.subrange(4, 16) =~= id.data@);
    } else {
        assert(bytes.subrange(3, 15) =~= id.data@);
    }
}

/// Reading the text form of an identifier gives the same identifier, with
/// its header where it has one.
pub proof fn lemma_text_round_trip(id: Id)
    requires
        id.is_valid(),
    ensures
        spec_parse(id.spec_text()) == Some(spec_normal(id)),
        spec_normal(id).same_id(id),
        spec_normal(id).spec_has_header() == id.spec_has_header(),
{
    let bytes = id.spec_bytes();
    let digits = spec_digits(id.spec_text());
    assert(digits == spec_hex_text(bytes)) by {
        lemma_text_spells_bytes(id);
    }
    assert(spec_unhex(digits) == Some(bytes)) by {
        lemma_unhex_hex_text(bytes);
    }
    assert(digits.len() == 2 * bytes.len());
    lemma_decode_encoded(id, Seq::<u8>::empty());
    assert(bytes + Seq::<u8>::empty() =~= bytes);
}

/// Reading the binary form of an identifier, whatever follows it, gives the
/// same identifier, with its header where it has one, and takes exactly the
/// bytes of that form.
pub proof fn lemma_binary_round_trip(id: Id, rest: Seq<u8>)
    requires
        id.is_valid(),
    ensures
        spec_decode(id.spec_bytes() + rest) == Some(
            (spec_normal(id), id.spec_bytes().len() as usize),
        ),
        spec_normal(id).same_id(id),
        spec_normal(id).spec_has_header() == id.spec_has_header(),
{
    lemma_decode_encoded(id, rest);
}

proof fn lemma_key_of_bounds(bytes: Seq<u8>, n: nat)
    requires
        n <= bytes.len(),
    ensures
        spec_key_of(bytes, n) < pow256(n),
    decreases n,
{
    if n > 0 {
        lemma_key_of_bounds(bytes, (n - 1) as nat);
    }
}

proof fn lemma_key_of_injective(a: Seq<u8>, b: Seq<u8>, n: nat)
    requires
        n <= a.len(),
        n <= b.len(),
        spec_key_of(a, n) == spec_key_of(b, n),
    ensures
        a.take(n as int) == b.take(n as int),
    decreases n,
{
    if n > 0 {
        let m = (n - 1) as nat;
        let ka = spec_key_of(a, m);
        let kb = spec_key_of(b, m);
        assert(ka * 256 + a[n - 1] == kb * 256 + b[n - 1]);
        assert(ka == kb && a[n - 1] == b[n - 1]) by {
            if ka < kb {
                assert(ka * 256 + 256 <= kb * 256);
            } else if kb < ka {
                assert(kb * 256 + 256 <= ka * 256);
            }
        }
        lemma_key_of_injective(a, b, m);
        assert(a.take(n as int) =~= a.take(m as int).push(a[n - 1]));
        assert(b.take(n as int) =~= b.take(m as int).push(b[n - 1]));
    } else {
        assert(a.take(0) =~= b.take(0));
    }
}

/// Two identifiers have the same key exactly when they are the same.
pub proof fn lemma_key_identifies(a: Id, b: Id)
    ensures
        a.spec_key() == b.spec_key() <==> a.same_id(b),
{
    let ba = a.spec_headerless_bytes();
    let bb = b.spec_headerless_bytes();
    if a.same_id(b) {
        assert(ba =~= bb);
    }
    if a.spec_key() == b.spec_key() {
        lemma_key_of_injective(ba, bb, 15);
        assert(ba.take(15) =~= ba);
        assert(bb.take(15) =~= bb);
        assert(ba[0] == bb[0] && ba[1] == bb[1] && ba[2] == bb[2]);
        assert(a.time == a.time_high() * 256 + a.time_low());
        assert(b.time == b.time_high() * 256 + b.time_low());
        assert(a.data@ =~= ba.subrange(3, 15));
        assert(b.data@ =~= bb.subrange(3, 15));
    }
}

/// 256 to the power fifteen is 2 to the power 120.
pub proof fn lemma_pow256_fifteen()
    ensures
        pow256(15) == 0x1_0000_0000_0000_0000_0000_0000_0000_00,
{
    reveal_with_fuel(pow256, 16);
}

/// The key of an identifier is below 256 to the power fifteen.
pub proof fn lemma_key_bound(id: Id)
    ensures
        id.spec_key() < pow256(15),
{
    lemma_key_of_bounds(id.spec_headerless_bytes(), 15);
}

} // verus!
