//! The vertices examined by the corner pass of the collision solver.
//!
//! The solver guards concave corners by treating every wall endpoint as a
//! small circle, pushed out along the direction that leads away from the
//! other endpoint of its wall. This module lists those vertices: for each wall
//! `(beginning, end)`, first `(beginning, end)` and then `(end, beginning)`,
//! each pair being a vertex and the endpoint it is pushed away from.
use vstd::prelude::*;

verus! {

/// The vertex list of `walls`: two entries per wall, in wall order.
pub open spec fn corner_list<P>(walls: Seq<(P, P)>) -> Seq<(P, P)> {
    Seq::new(
        2 * walls.len(),
        |k: int|
            if k % 2 == 0 {
                walls[k / 2]
            } else {
                (walls[k / 2].1, walls[k / 2].0)
            },
    )
}

/// Each endpoint of each wall, paired with the other endpoint of that wall.
pub fn wall_corners<P: Copy>(walls: &Vec<(P, P)>) -> (r: Vec<(P, P)>)
    requires
        2 * walls.len() <= usize::MAX,
    ensures
        r@ == corner_list(walls@),
{
    let n = walls.len();
    let mut r: Vec<(P, P)> = Vec::new();
    let mut i: usize = 0;
    while i < n
        invariant
            i <= n,
            n == walls.len(),
            r@ == corner_list(walls@.subrange(0, i as int)),
        decreases n - i,
    {
        let (beginning, end) = walls[i];
        r.push((beginning, end));
        r.push((end, beginning));
        i = i + 1;
        proof {
            assert(r@ =~= corner_list(walls@.subrange(0, i as int)));
        }
    }
    proof {
        assert(walls@.subrange(0, n as int) =~= walls@);
    }
    r
}

} // verus!
