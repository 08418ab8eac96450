//! Capacities for results whose size the backend does not tell in advance.

use vstd::prelude::*;

verus! {

/// The capacity with which an attribute value is first asked for.
pub const INITIAL_BUF_SIZE: usize = 64;

/// The largest capacity an attribute value is ever asked for with.
pub const MAX_BUF_SIZE: usize = 67108864;

/// The capacity with which the snapshot ids are first asked for.
pub const INITIAL_SNAP_COUNT: usize = 16;

/// The largest capacity the snapshot ids are ever asked for with.
pub const MAX_SNAP_COUNT: usize = 1073741824;

/// By how much a capacity of `capacity` falls short of `needed` items.
pub open spec fn shortfall(capacity: nat, needed: nat) -> nat {
    if capacity < needed {
        (needed - capacity) as nat
    } else {
        0
    }
}

/// How often a capacity of `capacity` has to be doubled before it holds
/// `needed` items.
pub open spec fn doublings(capacity: nat, needed: nat) -> nat
    decreases shortfall(capacity, needed),
{
    if capacity == 0 || capacity >= needed {
        0
    } else {
        1 + doublings(2 * capacity, needed)
    }
}

/// `capacity` doubled `times` times.
pub open spec fn doubled(capacity: nat, times: nat) -> nat
    decreases times,
{
    if times == 0 {
        capacity
    } else {
        doubled(2 * capacity, (times - 1) as nat)
    }
}

/// Doubling does not shrink a capacity, and enlarges one that is not zero.
pub proof fn lemma_doubled_grows(capacity: nat, times: nat)
    ensures
        doubled(capacity, times) >= capacity,
        capacity > 0 && times > 0 ==> doubled(capacity, times) > capacity,
    decreases times,
{
    if times > 0 {
        lemma_doubled_grows(2 * capacity, (times - 1) as nat);
    }
}

/// Growth is geometric: a capacity that holds `needed` items after `times`
/// doublings is doubled at most `times` times.
pub proof fn lemma_doublings_bounded(capacity: nat, needed: nat, times: nat)
    requires
        doubled(capacity, times) >= needed,
    ensures
        doublings(capacity, needed) <= times,
    decreases times,
{
    if capacity > 0 && capacity < needed {
        lemma_doublings_bounded(2 * capacity, needed, (times - 1) as nat);
    }
}

/// Twenty doublings lead from the first capacity for an attribute value to
/// the last.
pub proof fn lemma_buf_size_range()
    ensures
        doubled(INITIAL_BUF_SIZE as nat, 20) == MAX_BUF_SIZE,
{
    reveal_with_fuel(doubled, 21);
}

/// Twenty-six doublings lead from the first capacity for snapshot ids to
/// the last.
pub proof fn lemma_snap_count_range()
    ensures
        doubled(INITIAL_SNAP_COUNT as nat, 26) == MAX_SNAP_COUNT,
{
    reveal_with_fuel(doubled, 27);
}

} // verus!
