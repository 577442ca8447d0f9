//! Sorting by text: the order of the dictionary over the code points, with
//! what is equal left in the order in which it came.

use crate::queue::{spec_is_permutation, spec_occurs};
use crate::text::{
    lemma_lex_lt_irreflexive, lemma_lex_lt_total, lemma_lex_lt_transitive, lex_lt, spec_lex_lt,
    spec_views,
};
use vstd::prelude::*;

verus! {

/// The key under `p` comes before the key under `q`: upwards, or downwards
/// where `inverted`.
pub open spec fn spec_key_before(keys: Seq<Seq<char>>, inverted: bool, p: int, q: int) -> bool {
    if inverted {
        spec_lex_lt(keys[q], keys[p])
    } else {
        spec_lex_lt(keys[p], keys[q])
    }
}

/// The entry `p` stands before the entry `q` once sorted: its key comes
/// first, or the keys are equal and `p` came first.
pub open spec fn spec_precedes(keys: Seq<Seq<char>>, inverted: bool, p: int, q: int) -> bool {
    spec_key_before(keys, inverted, p, q) || (keys[p] == keys[q] && p < q)
}

/// `order` names every entry of `keys` once, each before those that it
/// precedes.
pub open spec fn spec_is_sorted_order(keys: Seq<Seq<char>>, inverted: bool, order: Seq<usize>) -> bool {
    &&& order.len() == keys.len()
    &&& spec_is_permutation(order)
    &&& forall|a: int, b: int|
        0 <= a < b < order.len() ==> spec_precedes(
            keys,
            inverted,
            #[trigger] order[a] as int,
            #[trigger] order[b] as int,
        )
}

/// Of two different entries one precedes the other, and not both ways.
pub proof fn lemma_precedes_total(keys: Seq<Seq<char>>, inverted: bool, p: int, q: int)
    requires
        p != q,
    ensures
        spec_precedes(keys, inverted, p, q) != spec_precedes(keys, inverted, q, p),
{
    lemma_lex_lt_total(keys[p], keys[q]);
    lemma_lex_lt_irreflexive(keys[p]);
}

/// What precedes an entry that precedes a third precedes the third.
pub proof fn lemma_precedes_transitive(keys: Seq<Seq<char>>, inverted: bool, p: int, q: int, r: int)
    requires
        spec_precedes(keys, inverted, p, q),
        spec_precedes(keys, inverted, q, r),
    ensures
        spec_precedes(keys, inverted, p, r),
{
    if spec_key_before(keys, inverted, p, q) && spec_key_before(keys, inverted, q, r) {
        if inverted {
            lemma_lex_lt_transitive(keys[r], keys[q], keys[p]);
        } else {
            lemma_lex_lt_transitive(keys[p], keys[q], keys[r]);
        }
    }
}

/// Whether the key under `p` comes before the key under `q`.
fn key_before(keys: &Vec<Vec<char>>, inverted: bool, p: usize, q: usize) -> (before: bool)
    requires
        p < keys@.len(),
        q < keys@.len(),
    ensures
        before == spec_key_before(spec_views(keys@), inverted, p as int, q as int),
{
    if inverted {
        lex_lt(&keys[q], &keys[p])
    } else {
        lex_lt(&keys[p], &keys[q])
    }
}

/// The positions of `keys` in sorted order: upwards, or downwards where
/// `inverted`; entries with equal keys stay in the order in which they
/// stand.
pub fn sorted_order(keys: &Vec<Vec<char>>, inverted: bool) -> (order: Vec<usize>)
    ensures
        spec_is_sorted_order(spec_views(keys@), inverted, order@),
{
    let ghost views = spec_views(keys@);
    let mut order: Vec<usize> = Vec::new();
    let mut i: usize = 0;
    while i < keys.len()
        invariant
            i <= keys@.len(),
            views == spec_views(keys@),
            order@.len() == i,
            spec_is_permutation(order@),
            forall|a: int, b: int|
                0 <= a < b < order@.len() ==> spec_precedes(
                    views,
                    inverted,
                    #[trigger] order@[a] as int,
                    #[trigger] order@[b] as int,
                ),
        decreases keys@.len() - i,
    {
        let mut j: usize = i;
        while j > 0 && key_before(keys, inverted, i, order[j - 1])
            invariant
                j <= i,
                i < keys@.len(),
                order@.len() == i,
                views == spec_views(keys@),
                spec_is_permutation(order@),
                forall|k: int|
                    j <= k < i ==> spec_key_before(views, inverted, i as int, #[trigger] order@[k] as int),
            decreases j,
        {
            j -= 1;
        }
        let ghost before = order@;
        order.insert(j, i);
        proof {
            let after = order@;
            let here = i as int;
            assert forall|k: int| 0 <= k < after.len() implies #[trigger] after[k] < after.len() by {
                if k < j {
                    assert(after[k] == before[k]);
                } else if k > j {
                    assert(after[k] == before[k - 1]);
                }
            }
            assert forall|a: int, b: int|
                0 <= a < after.len() && 0 <= b < after.len() && a != b implies #[trigger] after[a]
                != #[trigger] after[b] by {
                let oa = if a < j {
                    a
                } else {
                    a - 1
                };
                let ob = if b < j {
                    b
                } else {
                    b - 1
                };
                if a != j {
                    assert(after[a] == before[oa]);
                }
                if b != j {
                    assert(after[b] == before[ob]);
                }
            }
            assert forall|v: int| 0 <= v < after.len() implies #[trigger] spec_occurs(after, v) by {
                if v == here {
                    assert(after[j as int] == v);
                } else {
                    assert(spec_occurs(before, v));
                    let k = choose|k: int| 0 <= k < before.len() && #[trigger] before[k] == v;
                    if k < j {
                        assert(after[k] == v);
                    } else {
                        assert(after[k + 1] == v);
                    }
                }
            }
            assert forall|a: int, b: int| 0 <= a < b < after.len() implies spec_precedes(
                views,
                inverted,
                #[trigger] after[a] as int,
                #[trigger] after[b] as int,
            ) by {
                if a == j {
                    assert(after[b] == before[b - 1]);
                } else if b == j {
                    assert(after[a] == before[a]);
                    let last = before[j - 1] as int;
                    assert(!spec_key_before(views, inverted, here, last));
                    assert(last < here);
                    lemma_precedes_total(views, inverted, here, last);
                    assert(spec_precedes(views, inverted, last, here));
                    if a < j - 1 {
                        assert(spec_precedes(views, inverted, before[a] as int, last));
                        lemma_precedes_transitive(views, inverted, before[a] as int, last, here);
                    }
                } else {
                    let oa = if a < j {
                        a
                    } else {
                        a - 1
                    };
                    let ob = if b < j {
                        b
                    } else {
                        b - 1
                    };
                    assert(after[a] == before[oa] && after[b] == before[ob]);
                }
            }
        }
        i += 1;
    }
    order
}

/// There is one sorted order only.
pub proof fn lemma_sorted_order_unique(
    keys: Seq<Seq<char>>,
    inverted: bool,
    first: Seq<usize>,
    second: Seq<usize>,
)
    requires
        spec_is_sorted_order(keys, inverted, first),
        spec_is_sorted_order(keys, inverted, second),
    ensures
        first == second,
{
    assert forall|k: int| 0 <= k < first.len() implies first[k] == second[k] by {
        lemma_same_rank(keys, inverted, first, second, k);
    }
    assert(first =~= second);
}

/// The entry at `k` of one sorted order stands at `k` in every other.
proof fn lemma_same_rank(
    keys: Seq<Seq<char>>,
    inverted: bool,
    first: Seq<usize>,
    second: Seq<usize>,
    k: int,
)
    requires
        spec_is_sorted_order(keys, inverted, first),
        spec_is_sorted_order(keys, inverted, second),
        0 <= k < first.len(),
    ensures
        first[k] == second[k],
    decreases k,
{
    // The entries before `k` agree; so the entry at `k` of either order is
    // none of them, and stands at `k` or later in the other order.
    assert forall|m: int| 0 <= m < k implies first[m] == second[m] by {
        lemma_same_rank(keys, inverted, first, second, m);
    }
    let x = first[k] as int;
    let y = second[k] as int;
    if x != y {
        assert(spec_occurs(second, x));
        let bx = choose|b: int| 0 <= b < second.len() && #[trigger] second[b] == x;
        assert(spec_occurs(first, y));
        let ay = choose|a: int| 0 <= a < first.len() && #[trigger] first[a] == y;
        if bx < k {
            assert(first[bx] == second[bx]);
            assert(first[bx] == first[k]);
        }
        if ay < k {
            assert(first[ay] == second[ay]);
            assert(second[ay] == second[k]);
        }
        assert(bx > k && ay > k);
        assert(spec_precedes(keys, inverted, second[k] as int, second[bx] as int));
        assert(spec_precedes(keys, inverted, first[k] as int, first[ay] as int));
        lemma_precedes_total(keys, inverted, x, y);
    }
}

} // verus!
