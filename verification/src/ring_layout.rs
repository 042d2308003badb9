//! The hexagonal rings a plate lays its children out on: the first child sits at the
//! centre, and ring `k` (from 1) around it holds the next `6k` children, spread evenly
//! around the ring. Which ring a child falls on, and its place there, is whole-number
//! work; the host turns ring and place into a position.
use vstd::prelude::*;

verus! {

/// The child that opens ring `k`: the centre takes child 0 and ring `k` takes `6k`
/// children, so ring 1 opens at child 1, ring 2 at 7, ring 3 at 19.
pub open spec fn ring_start(k: nat) -> nat
    decreases k,
{
    if k <= 1 {
        1
    } else {
        ring_start((k - 1) as nat) + 6 * ((k - 1) as nat)
    }
}

/// Child `i` falls on ring `k`, at place `pos` counted from the ring's first slot.
pub open spec fn on_ring(i: int, k: int, pos: int) -> bool {
    &&& k >= 1
    &&& ring_start(k as nat) <= i < ring_start(k as nat) + 6 * k
    &&& pos == i - ring_start(k as nat)
}

/// Ring `k` opens at child `1 + 3k(k - 1)`.
pub proof fn lemma_ring_start_closed_form(k: nat)
    requires
        k >= 1,
    ensures
        ring_start(k) == 1 + 3 * k * (k - 1),
    decreases k,
{
    if k > 1 {
        lemma_ring_start_closed_form((k - 1) as nat);
        assert(3 * (k - 1) * (k - 2) + 6 * (k - 1) == 3 * k * (k - 1)) by (nonlinear_arith);
    }
}

/// A ring opens no earlier than its number, and later rings open later.
proof fn lemma_ring_start_grows(k: nat)
    ensures
        ring_start(k) >= k,
        ring_start(k + 1) >= ring_start(k) + 6 * k,
    decreases k,
{
    if k > 1 {
        lemma_ring_start_grows((k - 1) as nat);
    }
}

/// Rings follow each other without gaps or overlaps: ring `k + 1` opens right after
/// ring `k`'s last slot, and rings open in order.
proof fn lemma_rings_ordered(a: nat, b: nat)
    requires
        1 <= a < b,
    ensures
        ring_start(a) + 6 * a <= ring_start(b),
    decreases b - a,
{
    if b > a + 1 {
        lemma_rings_ordered(a, (b - 1) as nat);
        lemma_ring_start_grows((b - 1) as nat);
    }
}

/// Every child after the centre falls on exactly one ring, at exactly one place: the
/// slots of two children differ, and each ring `k` holds `6k` children, numbered in
/// order from its first.
pub proof fn lemma_one_slot_per_child(i: int, k: int, pos: int, j: int, l: int, q: int)
    requires
        on_ring(i, k, pos),
        on_ring(j, l, q),
    ensures
        i == j <==> (k == l && pos == q),
        0 <= pos < 6 * k,
{
    if k < l {
        lemma_rings_ordered(k as nat, l as nat);
    } else if l < k {
        lemma_rings_ordered(l as nat, k as nat);
    }
}

/// Child `i`'s ring and place in it (`i` from 1; child 0 sits at the centre).
pub fn ring_slot(i: usize) -> (slot: (usize, usize))
    requires
        i >= 1,
    ensures
        on_ring(i as int, slot.0 as int, slot.1 as int),
{
    let ghost target = i as int;
    let wide: u128 = i as u128;
    let mut ring: u128 = 1;
    let mut start: u128 = 1;
    while !(wide < start + ring * 6)
        invariant
            wide == target,
            1 <= target <= usize::MAX,
            1 <= ring <= start,
            start == ring_start(ring as nat),
            start <= wide,
        decreases wide - start,
    {
        proof {
            lemma_ring_start_grows(ring as nat);
            lemma_ring_start_grows((ring + 1) as nat);
        }
        start = start + ring * 6;
        ring = ring + 1;
    }
    ((ring as usize), ((wide - start) as usize))
}

} // verus!
