//! The pickup lifecycle of the maze's objects.
//!
//! Each object carries one flag, `true` while it is still to be found. The
//! flags of a map are held in the map's object order. Whether the player's
//! footprint overlaps an object is measured by the caller in the Klein model;
//! this module decides what that measurement does to the flags.
use vstd::prelude::*;

verus! {

/// The flags after one pickup pass: an object stays active only when it was
/// active and the player's footprint does not overlap it.
pub open spec fn picked(active: Seq<bool>, touching: Seq<bool>) -> Seq<bool> {
    Seq::new(active.len(), |i: int| active[i] && !touching[i])
}

/// The flags after one pickup pass for each entry of `ticks`, in order.
pub open spec fn after_ticks(active: Seq<bool>, ticks: Seq<Seq<bool>>) -> Seq<bool>
    decreases ticks.len(),
{
    if ticks.len() == 0 {
        active
    } else {
        picked(after_ticks(active, ticks.drop_last()), ticks.last())
    }
}

/// The flags of `n` freshly loaded objects: every one is active.
pub fn all_active(n: usize) -> (r: Vec<bool>)
    ensures
        r@ == Seq::new(n as nat, |i: int| true),
{
    let mut r: Vec<bool> = Vec::new();
    let mut i: usize = 0;
    while i < n
        invariant
            i <= n,
            r@ == Seq::new(i as nat, |j: int| true),
        decreases n - i,
    {
        r.push(true);
        i = i + 1;
        proof {
            assert(r@ =~= Seq::new(i as nat, |j: int| true));
        }
    }
    r
}

/// One pickup pass: every active object that the player's footprint overlaps
/// (`touching[i]`) becomes inactive; no other flag changes.
pub fn resolve_pickups(active: &mut Vec<bool>, touching: &Vec<bool>)
    requires
        old(active).len() == touching.len(),
    ensures
        final(active)@ == picked(old(active)@, touching@),
{
    let ghost start = active@;
    let ghost goal = picked(old(active)@, touching@);
    let n = active.len();
    let mut i: usize = 0;
    while i < n
        invariant
            i <= n,
            n == active.len(),
            n == touching.len(),
            start == old(active)@,
            goal == picked(start, touching@),
            start.len() == n,
            forall|j: int| 0 <= j < i ==> active@[j] == goal[j],
            forall|j: int| i <= j < n ==> active@[j] == start[j],
        decreases n - i,
    {
        if active[i] && touching[i] {
            active.set(i, false);
        }
        i = i + 1;
    }
    proof {
        assert(active@ =~= goal);
    }
}

/// An object once found is never active again, whatever the later passes
/// measure: the pickup lifecycle has no way back.
pub proof fn lemma_pickup_is_permanent(active: Seq<bool>, ticks: Seq<Seq<bool>>, i: int)
    requires
        0 <= i < active.len(),
        !active[i],
    ensures
        after_ticks(active, ticks).len() == active.len(),
        !after_ticks(active, ticks)[i],
    decreases ticks.len(),
{
    if ticks.len() > 0 {
        lemma_pickup_is_permanent(active, ticks.drop_last(), i);
    }
}

} // verus!
