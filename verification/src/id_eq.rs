//! Equality of identifiers: the header byte does not count.

use crate::id_generator::Id;
use vstd::prelude::*;
use vstd::std_specs::cmp::PartialEqSpecImpl;

verus! {

/// The two payloads hold the same bytes.
pub fn payload_eq(a: &[u8; 12], b: &[u8; 12]) -> (equal: bool)
    ensures
        equal == (a@ == b@),
{
    let mut i: usize = 0;
    while i < 12
        invariant
            i <= 12,
            forall|j: int| 0 <= j < i ==> a@[j] == b@[j],
        decreases 12 - i,
    {
        if a[i] != b[i] {
            return false;
        }
        i += 1;
    }
    assert(a@ =~= b@);
    true
}

impl PartialEq for Id {
    fn eq(&self, other: &Self) -> (equal: bool) {
        self.increment == other.increment && self.time == other.time && payload_eq(
            &self.data,
            &other.data,
        )
    }
}

impl PartialEqSpecImpl for Id {
    open spec fn obeys_eq_spec() -> bool {
        true
    }

    open spec fn eq_spec(&self, other: &Self) -> bool {
        self.same_id(*other)
    }
}

impl Eq for Id {

}

} // verus!
