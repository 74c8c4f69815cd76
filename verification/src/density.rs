//! Per-node point distances for kernel density estimation.
//!
//! A kernel density estimate evaluates, at every grid node, the mean kernel
//! contribution of all input points; each contribution depends only on the
//! Euclidean distance from the node to the point and on the bandwidth. This
//! module computes the exact squared distances, one row per grid node in
//! row-major order and one entry per point inside a row, so the kernel —
//! a real-valued function the caller supplies — is evaluated on them
//! outside the crate.

use vstd::prelude::*;
use crate::errors::DensityError;
use crate::grid::Grid;
use crate::grid::Point;
use crate::grid::coord_in_padded_range;
use crate::grid::grid_nodes;
use crate::grid::point_in_range;
use crate::grid::points_in_range;
use crate::grid::COORD_LIMIT;

verus! {

/// The squared Euclidean distance between two points.
pub open spec fn spec_squared_distance(a: Point, b: Point) -> int {
    (a.x - b.x) * (a.x - b.x) + (a.y - b.y) * (a.y - b.y)
}

/// Squared Euclidean distance, exact in `i64` for coordinates in the
/// padded range. The kernel is symmetric in the sign of the distance, so
/// the square is all the estimator needs to hand to it.
pub fn squared_distance(a: &Point, b: &Point) -> (r: i64)
    requires
        coord_in_padded_range(a.x as int),
        coord_in_padded_range(a.y as int),
        coord_in_padded_range(b.x as int),
        coord_in_padded_range(b.y as int),
    ensures
        r == spec_squared_distance(*a, *b),
        r >= 0,
{
    let dx: i64 = a.x - b.x;
    let dy: i64 = a.y - b.y;
    proof {
        assert(0 <= dx * dx && 0 <= dy * dy && dx * dx + dy * dy <= i64::MAX)
            by (nonlinear_arith)
            requires
                -(2 * (COORD_LIMIT + 1)) <= dx as int <= 2 * (COORD_LIMIT + 1),
                -(2 * (COORD_LIMIT + 1)) <= dy as int <= 2 * (COORD_LIMIT + 1),
        ;
    }
    dx * dx + dy * dy
}

/// The squared Euclidean distance from every grid node to every input
/// point: row `k` belongs to the node at position `k` of the row-major
/// enumeration, entry `i` of a row to point `i`.
///
/// Fails with `EmptyInput` when `points` is empty (the estimator divides by
/// the point count) or when the grid has no nodes; otherwise every entry is
/// pinned exactly.
pub fn distance_field(grid: &Grid, points: &Vec<Point>) -> (r: Result<
    Vec<Vec<i64>>,
    DensityError,
>)
    requires
        grid.wf(),
        points_in_range(points@),
    ensures
        points@.len() == 0 || grid.node_count() == 0 ==> r == Err::<Vec<Vec<i64>>, DensityError>(
            DensityError::EmptyInput,
        ),
        points@.len() > 0 && grid.node_count() > 0 ==> {
            &&& r is Ok
            &&& r->Ok_0@.len() == grid.node_count()
            &&& forall|k: int|
                0 <= k < grid.node_count() ==> #[trigger] r->Ok_0@[k]@.len() == points@.len()
            &&& forall|k: int, i: int|
                0 <= k < grid.node_count() && 0 <= i < points@.len()
                    ==> #[trigger] r->Ok_0@[k]@[i] == spec_squared_distance(
                    grid.spec_node(k),
                    points@[i],
                )
        },
{
    if points.len() == 0 {
        return Err(DensityError::EmptyInput);
    }
    let nodes = grid_nodes(grid);
    if nodes.len() == 0 {
        return Err(DensityError::EmptyInput);
    }
    let mut field: Vec<Vec<i64>> = Vec::new();
    let mut k: usize = 0;
    while k < nodes.len()
        invariant
            points_in_range(points@),
            nodes@.len() == grid.node_count(),
            forall|n: int| 0 <= n < nodes@.len() ==> nodes@[n] == grid.spec_node(n),
            forall|n: int|
                0 <= n < nodes@.len() ==> coord_in_padded_range(#[trigger] nodes@[n].x as int)
                    && coord_in_padded_range(nodes@[n].y as int),
            0 <= k <= nodes@.len(),
            field@.len() == k,
            forall|n: int| 0 <= n < k ==> #[trigger] field@[n]@.len() == points@.len(),
            forall|n: int, i: int|
                0 <= n < k && 0 <= i < points@.len() ==> #[trigger] field@[n]@[i]
                    == spec_squared_distance(grid.spec_node(n), points@[i]),
        decreases nodes@.len() - k,
    {
        let node = nodes[k];
        proof {
            assert(coord_in_padded_range(nodes@[k as int].x as int) && coord_in_padded_range(
                nodes@[k as int].y as int,
            ));
        }
        let mut row: Vec<i64> = Vec::new();
        let mut i: usize = 0;
        while i < points.len()
            invariant
                points_in_range(points@),
                coord_in_padded_range(node.x as int),
                coord_in_padded_range(node.y as int),
                0 <= i <= points@.len(),
                row@.len() == i,
                forall|m: int|
                    0 <= m < i ==> #[trigger] row@[m] == spec_squared_distance(node, points@[m]),
            decreases points@.len() - i,
        {
            let p = points[i];
            proof {
                assert(point_in_range(points@[i as int]));
            }
            row.push(squared_distance(&node, &p));
            i = i + 1;
        }
        field.push(row);
        k = k + 1;
    }
    Ok(field)
}

/// When every input point coincides with the grid node at position `k`,
/// every squared distance in that node's row is zero: each kernel term the
/// estimator averages there is the kernel evaluated at distance zero, so
/// the mean of those equal terms is that single kernel value.
pub proof fn lemma_coincident_points_zero_distance(grid: Grid, points: Seq<Point>, k: int)
    requires
        grid.wf(),
        grid.width_in_cells > 0,
        0 <= k < grid.node_count(),
        forall|i: int| 0 <= i < points.len() ==> points[i] == grid.spec_node(k),
    ensures
        forall|i: int|
            0 <= i < points.len() ==> spec_squared_distance(grid.spec_node(k), #[trigger] points[i])
                == 0,
{
}

} // verus!
