//! The order of play: a permutation of the song indexes and a cursor into it.
//!
//! The entry under the cursor is the song that plays next; the entry before
//! it, around the end, is the song that plays now.

use crate::outside::random_index;
use crate::playlist_data::PlaybackMode;
use vstd::arithmetic::div_mod::{
    lemma_add_mod_noop, lemma_fundamental_div_mod, lemma_mod_add_multiples_vanish,
    lemma_mod_bound, lemma_small_mod, lemma_sub_mod_noop,
};
use vstd::prelude::*;
use vstd::slice::slice_subrange;

verus! {

/// `x` brought into `0..len` by adding or taking away multiples of `len`.
pub open spec fn spec_wrap(x: int, len: int) -> int {
    x % len
}

/// `0, 1, ..., len - 1`.
pub open spec fn spec_identity(len: nat) -> Seq<usize> {
    Seq::new(len, |i: int| i as usize)
}

/// Every number below the length of `indexes` stands in it exactly once.
pub open spec fn spec_is_permutation(indexes: Seq<usize>) -> bool {
    &&& forall|i: int| 0 <= i < indexes.len() ==> #[trigger] indexes[i] < indexes.len()
    &&& forall|i: int, j: int|
        0 <= i < indexes.len() && 0 <= j < indexes.len() && i != j ==> #[trigger] indexes[i]
            != #[trigger] indexes[j]
    &&& forall|v: int| 0 <= v < indexes.len() ==> #[trigger] spec_occurs(indexes, v)
}

/// `v` stands somewhere in `indexes`.
pub open spec fn spec_occurs(indexes: Seq<usize>, v: int) -> bool {
    exists|i: int| 0 <= i < indexes.len() && #[trigger] indexes[i] == v
}

/// What a queue is: its permutation and its cursor.
pub struct QueueView {
    pub indexes: Seq<usize>,
    pub cursor: int,
}

impl QueueView {
    /// The queue is not empty, its entries are a permutation, and the cursor
    /// points at one of them.
    pub open spec fn wf(self) -> bool {
        &&& 0 < self.indexes.len() <= usize::MAX
        &&& 0 <= self.cursor < self.indexes.len()
        &&& spec_is_permutation(self.indexes)
    }

    pub open spec fn len(self) -> int {
        self.indexes.len() as int
    }

    /// The same permutation with the cursor at `cursor`, wrapped.
    pub open spec fn at(self, cursor: int) -> QueueView {
        QueueView { indexes: self.indexes, cursor: spec_wrap(cursor, self.len()) }
    }

    /// The song that plays next.
    pub open spec fn next_song(self) -> usize {
        self.indexes[self.cursor]
    }

    /// The song that plays now: the entry before the cursor.
    pub open spec fn current_song(self) -> usize {
        self.indexes[spec_wrap(self.cursor - 1, self.len())]
    }

    /// The entries from the cursor to the end.
    pub open spec fn remaining(self) -> Seq<usize> {
        self.indexes.subrange(self.cursor, self.len())
    }

    /// One step forward.
    pub open spec fn next(self) -> QueueView {
        self.at(self.cursor + 1)
    }

    /// Two steps back: past the song that plays now, to the one before it.
    pub open spec fn previous(self) -> QueueView {
        self.at(self.cursor - 2)
    }

    /// One step back: to the song that plays now.
    pub open spec fn restart_song(self) -> QueueView {
        self.at(self.cursor - 1)
    }

    /// `offset` steps forward.
    pub open spec fn skip(self, offset: int) -> QueueView {
        self.at(self.cursor + offset)
    }

    /// Back to the first entry.
    pub open spec fn reset(self) -> QueueView {
        self.at(0)
    }

    /// `steps` steps forward, one after the other.
    pub open spec fn advance(self, steps: nat) -> QueueView
        decreases steps,
    {
        if steps == 0 {
            self
        } else {
            self.next().advance((steps - 1) as nat)
        }
    }
}

/// A queue over the songs of a list.
pub struct Queue {
    indexes: Vec<usize>,
    index: usize,
}

impl View for Queue {
    type V = QueueView;

    closed spec fn view(&self) -> QueueView {
        QueueView { indexes: self.indexes@, cursor: self.index as int }
    }
}

impl Clone for Queue {
    fn clone(&self) -> (copy: Self)
        ensures
            copy@ == self@,
    {
        proof {
            use_type_invariant(self);
        }
        Queue { indexes: self.indexes.clone(), index: self.index }
    }
}

impl Queue {
    #[verifier::type_invariant]
    spec fn well_formed(self) -> bool {
        self@.wf()
    }

    /// A queue over `song_count` songs that starts with the song
    /// `start_index`.
    ///
    /// In sequential mode the songs stand in their own order and the cursor
    /// is at `start_index`. In shuffle mode the song `start_index` stands
    /// first, the others follow in a random order, and the cursor is at the
    /// front.
    pub fn new(start_index: usize, song_count: usize, playback_mode: PlaybackMode) -> (queue: Self)
        requires
            song_count > 0,
            start_index < song_count,
        ensures
            queue@.wf(),
            queue@.indexes.len() == song_count,
            queue@.next_song() == start_index,
            playback_mode == PlaybackMode::Sequential ==> queue@.indexes == spec_identity(
                song_count as nat,
            ) && queue@.cursor == start_index,
            playback_mode == PlaybackMode::Shuffle ==> queue@.cursor == 0 && queue@.indexes[0]
                == start_index,
    {
        let mut indexes: Vec<usize> = Vec::with_capacity(song_count);
        let mut index: usize = 0;
        while index < song_count
            invariant
                index <= song_count,
                indexes@ == spec_identity(index as nat),
            decreases song_count - index,
        {
            indexes.push(index);
            index += 1;
            assert(indexes@ =~= spec_identity(index as nat));
        }
        proof {
            lemma_identity_is_permutation(song_count as nat);
        }
        let mut cursor = start_index;
        match playback_mode {
            PlaybackMode::Sequential => {},
            PlaybackMode::Shuffle => {
                let mut rng = rand::rng();
                swap_entries(&mut indexes, start_index, 0);
                let mut i: usize = 1;
                while i < song_count
                    invariant
                        1 <= i,
                        indexes@.len() == song_count,
                        spec_is_permutation(indexes@),
                        indexes@[0] == start_index,
                    decreases song_count - i,
                {
                    let swap_to = random_index(&mut rng, 1, song_count);
                    swap_entries(&mut indexes, i, swap_to);
                    i += 1;
                }
                cursor = 0;
            },
        }
        Queue { indexes, index: cursor }
    }

    /// The entries from the cursor to the end: what is up next, in order.
    pub fn current_queue(&self) -> (remaining: &[usize])
        ensures
            self@.wf(),
            remaining@ == self@.remaining(),
    {
        proof {
            use_type_invariant(self);
        }
        slice_subrange(self.indexes.as_slice(), self.index, self.indexes.len())
    }

    /// How many songs the queue runs over.
    pub fn len(&self) -> (len: usize)
        ensures
            self@.wf(),
            len == self@.len(),
    {
        proof {
            use_type_invariant(self);
        }
        self.indexes.len()
    }

    /// The position of the cursor.
    pub fn cursor(&self) -> (cursor: usize)
        ensures
            self@.wf(),
            cursor == self@.cursor,
    {
        proof {
            use_type_invariant(self);
        }
        self.index
    }

    /// The first entry of the queue.
    pub fn first_entry(&self) -> (song: usize)
        ensures
            self@.wf(),
            song == self@.indexes[0],
            song < self@.len(),
    {
        proof {
            use_type_invariant(self);
        }
        self.indexes[0]
    }

    /// The song that plays next.
    pub fn get_next_song_index(&self) -> (song: usize)
        ensures
            self@.wf(),
            song == self@.next_song(),
            song < self@.len(),
    {
        proof {
            use_type_invariant(self);
        }
        self.indexes[self.index]
    }

    /// The song that plays now.
    pub fn get_current_song_index(&self) -> (song: usize)
        ensures
            self@.wf(),
            song == self@.current_song(),
            song < self@.len(),
    {
        proof {
            use_type_invariant(self);
        }
        let position = self.get_wrapped_back(1);
        self.indexes[position]
    }

    pub fn next(&mut self)
        ensures
            final(self)@ == old(self)@.next(),
            final(self)@.wf(),
    {
        proof {
            use_type_invariant(&*self);
        }
        self.index = self.get_wrapped_index(self.index, 1);
    }

    pub fn previous(&mut self)
        ensures
            final(self)@ == old(self)@.previous(),
            final(self)@.wf(),
    {
        self.sub_index(2);
    }

    pub fn restart_song(&mut self)
        ensures
            final(self)@ == old(self)@.restart_song(),
            final(self)@.wf(),
    {
        self.sub_index(1);
    }

    /// Moves the cursor `index` entries forward: to the entry that stands at
    /// `index` in `current_queue`, where there is one.
    pub fn set_index_from_queue(&mut self, index: usize)
        ensures
            final(self)@ == old(self)@.skip(index as int),
            final(self)@.wf(),
    {
        proof {
            use_type_invariant(&*self);
        }
        self.index = self.get_wrapped_index(self.index, index);
    }

    pub fn reset_queue(&mut self)
        ensures
            final(self)@ == old(self)@.reset(),
            final(self)@.wf(),
    {
        proof {
            use_type_invariant(&*self);
            lemma_small_mod(0, self.indexes@.len());
        }
        self.index = 0;
    }

    /// Moves the cursor `amt` entries back, around the front.
    pub fn sub_index(&mut self, amt: usize)
        ensures
            final(self)@ == old(self)@.at(old(self)@.cursor - amt),
            final(self)@.wf(),
    {
        proof {
            use_type_invariant(&*self);
        }
        self.index = self.get_wrapped_back(amt);
    }

    /// The position `back` entries before the cursor, around the front.
    fn get_wrapped_back(&self, back: usize) -> (position: usize)
        ensures
            position == spec_wrap(self@.cursor - back, self@.len()),
            position < self@.len(),
    {
        proof {
            use_type_invariant(self);
        }
        let len = self.indexes.len();
        let step = back % len;
        proof {
            let c = self.index as int;
            let l = len as int;
            lemma_sub_mod_noop(c, back as int, l);
            lemma_small_mod(self.index as nat, len as nat);
            if c - step < 0 {
                lemma_mod_add_multiples_vanish(c - step, l);
                lemma_small_mod((l + c - step) as nat, len as nat);
            } else {
                lemma_small_mod((c - step) as nat, len as nat);
            }
        }
        if self.index >= step {
            self.index - step
        } else {
            len - (step - self.index)
        }
    }

    /// The position `forward` entries after `position`, around the end.
    pub fn get_wrapped_index(&self, position: usize, forward: usize) -> (wrapped: usize)
        ensures
            wrapped == spec_wrap(position + forward, self@.len()),
            wrapped < self@.len(),
    {
        proof {
            use_type_invariant(self);
        }
        let len = self.indexes.len();
        let base = position % len;
        let step = forward % len;
        proof {
            let l = len as int;
            lemma_add_mod_noop(position as int, forward as int, l);
            if base + step >= l {
                lemma_mod_add_multiples_vanish(base + step - l, l);
                lemma_small_mod((base + step - l) as nat, len as nat);
            } else {
                lemma_small_mod((base + step) as nat, len as nat);
            }
        }
        if step < len - base {
            base + step
        } else {
            step - (len - base)
        }
    }
}

/// Exchanges the entries at `a` and `b`.
fn swap_entries(indexes: &mut Vec<usize>, a: usize, b: usize)
    requires
        a < old(indexes)@.len(),
        b < old(indexes)@.len(),
        spec_is_permutation(old(indexes)@),
    ensures
        final(indexes)@ == old(indexes)@.update(a as int, old(indexes)@[b as int]).update(
            b as int,
            old(indexes)@[a as int],
        ),
        spec_is_permutation(final(indexes)@),
{
    let at_a = indexes[a];
    let at_b = indexes[b];
    indexes[a] = at_b;
    indexes[b] = at_a;
    proof {
        lemma_swap_keeps_permutation(old(indexes)@, a as int, b as int);
    }
}

/// Exchanging two entries of a permutation leaves a permutation.
pub proof fn lemma_swap_keeps_permutation(indexes: Seq<usize>, a: int, b: int)
    requires
        0 <= a < indexes.len(),
        0 <= b < indexes.len(),
        spec_is_permutation(indexes),
    ensures
        spec_is_permutation(indexes.update(a, indexes[b]).update(b, indexes[a])),
{
    let swapped = indexes.update(a, indexes[b]).update(b, indexes[a]);
    assert forall|v: int| 0 <= v < swapped.len() implies #[trigger] spec_occurs(swapped, v) by {
        assert(spec_occurs(indexes, v));
        let i = choose|i: int| 0 <= i < indexes.len() && #[trigger] indexes[i] == v;
        let j = if i == a {
            b
        } else if i == b {
            a
        } else {
            i
        };
        assert(swapped[j] == v);
    }
}

/// `0, 1, ..., len - 1` is a permutation.
pub proof fn lemma_identity_is_permutation(len: nat)
    requires
        len <= usize::MAX,
    ensures
        spec_is_permutation(spec_identity(len)),
{
    let identity = spec_identity(len);
    assert forall|v: int| 0 <= v < identity.len() implies #[trigger] spec_occurs(identity, v) by {
        assert(identity[v] == v);
    }
}

/// Moving the cursor keeps a queue well formed.
pub proof fn lemma_at_wf(queue: QueueView, cursor: int)
    requires
        queue.wf(),
    ensures
        queue.at(cursor).wf(),
        queue.at(cursor).indexes == queue.indexes,
{
    lemma_mod_bound(cursor, queue.len());
}

/// Moving the cursor twice is moving it once by the sum.
pub proof fn lemma_at_at(queue: QueueView, first: int, second: int)
    requires
        queue.wf(),
    ensures
        queue.at(first).at(queue.at(first).cursor + second) == queue.at(first + second),
{
    let len = queue.len();
    lemma_add_mod_noop(first, second, len);
    lemma_mod_bound(second, len);
    lemma_mod_bound(first, len);
    lemma_add_mod_noop(first % len, second, len);
    lemma_small_mod((first % len) as nat, len as nat);
}

/// `steps` steps forward bring the cursor `steps` entries on, around the end.
pub proof fn lemma_advance(queue: QueueView, steps: nat)
    requires
        queue.wf(),
    ensures
        queue.advance(steps) == queue.at(queue.cursor + steps),
        queue.advance(steps).wf(),
    decreases steps,
{
    let len = queue.len();
    if steps == 0 {
        lemma_small_mod(queue.cursor as nat, len as nat);
    } else {
        lemma_at_wf(queue, queue.cursor + 1);
        lemma_advance(queue.next(), (steps - 1) as nat);
        lemma_at_at(queue, queue.cursor + 1, steps - 1);
    }
    lemma_at_wf(queue, queue.cursor + steps);
}

/// In a queue whose songs stand in their own order, the song that plays
/// after `steps` steps from the cursor `start` is `start + steps`, wrapped.
pub proof fn lemma_sequential_order(queue: QueueView, steps: nat)
    requires
        queue.wf(),
        queue.indexes == spec_identity(queue.indexes.len()),
    ensures
        queue.remaining() == spec_identity(queue.indexes.len()).subrange(
            queue.cursor,
            queue.len(),
        ),
        queue.advance(steps).next_song() == spec_wrap(queue.cursor + steps, queue.len()),
{
    lemma_advance(queue, steps);
    lemma_mod_bound(queue.cursor + steps, queue.len());
}

/// A queue comes back to where it was after as many steps as it has
/// entries, and not before: within that many steps no song plays twice.
pub proof fn lemma_wraps_exactly_once(queue: QueueView, first: nat, second: nat)
    requires
        queue.wf(),
    ensures
        queue.advance(first + queue.indexes.len()) == queue.advance(first),
        first < second < first + queue.indexes.len() ==> queue.advance(first).next_song()
            != queue.advance(second).next_song(),
{
    let len = queue.len();
    lemma_advance(queue, first);
    lemma_advance(queue, second);
    lemma_advance(queue, first + queue.indexes.len());
    lemma_mod_add_multiples_vanish(queue.cursor + first, len);
    if first < second < first + len {
        let a = queue.cursor + first;
        let b = queue.cursor + second;
        lemma_mod_bound(a, len);
        lemma_mod_bound(b, len);
        if a % len == b % len {
            lemma_fundamental_div_mod(a, len);
            lemma_fundamental_div_mod(b, len);
            let qa = a / len;
            let qb = b / len;
            assert(b - a == len * qb - len * qa);
            assert(len * qb - len * qa == len * (qb - qa)) by (nonlinear_arith);
            assert(false) by (nonlinear_arith)
                requires
                    0 < b - a < len,
                    b - a == len * (qb - qa),
            ;
        }
    }
}

/// One step forward and then `previous` leaves the cursor one entry before
/// where it was: the song that played before the step forward plays again.
pub proof fn lemma_next_then_previous(queue: QueueView)
    requires
        queue.wf(),
    ensures
        queue.next().previous() == queue.restart_song(),
        queue.next().previous().next_song() == queue.current_song(),
        queue.next().previous().wf(),
{
    lemma_at_at(queue, queue.cursor + 1, -2);
    lemma_at_wf(queue, queue.cursor - 1);
}

/// While the song under the cursor plays, `restart_song` makes that song the
/// next to play, and `previous` the one before it.
pub proof fn lemma_replay_and_step_back(queue: QueueView)
    requires
        queue.wf(),
    ensures
        queue.restart_song().next_song() == queue.current_song(),
        queue.previous().next().next_song() == queue.current_song(),
        queue.previous().current_song() == queue.indexes[spec_wrap(
            queue.cursor - 3,
            queue.len(),
        )],
        queue.previous().next_song() == queue.indexes[spec_wrap(queue.cursor - 2, queue.len())],
{
    lemma_at_at(queue, queue.cursor - 2, 1);
    lemma_at_at(queue, queue.cursor - 2, -1);
}

/// Skipping to an entry of what is up next makes that entry the next to
/// play.
pub proof fn lemma_skip_within_remaining(queue: QueueView, offset: int)
    requires
        queue.wf(),
        0 <= offset < queue.remaining().len(),
    ensures
        queue.skip(offset).next_song() == queue.remaining()[offset],
        queue.skip(offset).cursor == queue.cursor + offset,
{
    lemma_small_mod((queue.cursor + offset) as nat, queue.indexes.len());
}

} // verus!
