use std::sync::Arc;
use vstd::prelude::*;

verus! {

/// Calls `Arc::clone`, which gives another pointer to the same allocation.
/// Claimed: the clone holds the same value.
#[verifier::external_body]
pub(crate) fn arc_clone<T: ?Sized>(a: &Arc<T>) -> (r: Arc<T>)
    ensures
        r == *a,
{
    Arc::clone(a)
}

/// Calls `Arc::ptr_eq`, which returns true when the two pointers point to
/// the same allocation. Claimed: when it returns true, the two values are
/// the same. Not claimed: anything when it returns false (two distinct
/// allocations may hold equal values).
#[verifier::external_body]
fn arc_ptr_eq<T>(a: &Arc<T>, b: &Arc<T>) -> (r: bool)
    ensures
        r ==> *a == *b,
{
    Arc::ptr_eq(a, b)
}

/// Checks if two lists of shared pointers are equal by pointer identity:
/// same length, and each pair points to the same allocation. When the
/// lists are found equal, they hold the same values; lists of different
/// lengths are unequal, and two empty lists are equal. For lists of one
/// length that are not empty, the answer rests on `Arc::ptr_eq`, that is on
/// where the values were allocated, which no clause here can name.
pub fn are_arc_vecs_equal<T>(old: &[Arc<T>], new: &[Arc<T>]) -> (r: bool)
    ensures
        r ==> old@ == new@,
        old@.len() != new@.len() ==> !r,
        old@.len() == 0 && new@.len() == 0 ==> r,
{
    if old.len() != new.len() {
        return false;
    }
    let n = old.len();
    let mut i: usize = 0;
    while i < n
        invariant
            n == old@.len(),
            n == new@.len(),
            0 <= i <= n,
            forall|j: int| 0 <= j < i ==> old@[j] == new@[j],
        decreases n - i,
    {
        if !arc_ptr_eq(&old[i], &new[i]) {
            return false;
        }
        i = i + 1;
    }
    assert(old@ =~= new@);
    true
}

} // verus!
