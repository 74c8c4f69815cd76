//! Regular sampling lattice over the bounding box of a point set.
//!
//! The bounding box of a non-empty point collection is padded by one unit on
//! each side, and the grid covers it at a fixed step per axis, its nodes
//! enumerated in row-major order: the x index varies fastest, the y index
//! slowest. Every downstream consumer (density estimation, classification,
//! contour extraction) depends positionally on that order.

use vstd::prelude::*;
use vstd::arithmetic::div_mod::lemma_fundamental_div_mod;
use vstd::arithmetic::div_mod::lemma_fundamental_div_mod_converse;
use vstd::arithmetic::div_mod::lemma_mod_bound;
use vstd::arithmetic::mul::lemma_mul_inequality;
use crate::classify::seq_max;
use crate::classify::seq_min;
use crate::errors::DensityError;

verus! {

/// Largest coordinate magnitude a point may have. Keeping coordinates in
/// this range keeps every derived quantity — padded bounds, spans, node
/// coordinates and squared distances — inside `i64`.
pub const COORD_LIMIT: i64 = 0x2000_0000;

/// A 2D point in fixed-point integer coordinates.
#[derive(Clone, Copy, Debug, PartialEq, Eq, Structural)]
pub struct Point {
    pub x: i64,
    pub y: i64,
}

/// The padded bounding box of a point collection: the extreme coordinates
/// widened by one unit per side, so the grid strictly contains every point
/// even when all of them are collinear.
#[derive(Clone, Copy, Debug, PartialEq, Eq, Structural)]
pub struct BoundingBox {
    pub min_x: i64,
    pub max_x: i64,
    pub min_y: i64,
    pub max_y: i64,
}

/// A regular lattice: origin, step per axis, and cell counts. Node `(i, j)`
/// sits at `(x_origin + i * x_step, y_origin + j * y_step)`.
#[derive(Clone, Copy, Debug, PartialEq, Eq, Structural)]
pub struct Grid {
    pub x_origin: i64,
    pub y_origin: i64,
    pub x_step: i64,
    pub y_step: i64,
    pub width_in_cells: usize,
    pub height_in_cells: usize,
}

/// A raw point coordinate within the supported range.
pub open spec fn coord_in_range(c: int) -> bool {
    -COORD_LIMIT <= c <= COORD_LIMIT
}

/// A coordinate within the slightly wider range that padded bounds and grid
/// nodes inhabit.
pub open spec fn coord_in_padded_range(c: int) -> bool {
    -(COORD_LIMIT + 1) <= c <= COORD_LIMIT + 1
}

pub open spec fn point_in_range(p: Point) -> bool {
    coord_in_range(p.x as int) && coord_in_range(p.y as int)
}

pub open spec fn points_in_range(s: Seq<Point>) -> bool {
    forall|i: int| 0 <= i < s.len() ==> point_in_range(#[trigger] s[i])
}

/// The x coordinates of a point sequence, in order.
pub open spec fn xs(s: Seq<Point>) -> Seq<i64> {
    s.map(|i: int, p: Point| p.x)
}

/// The y coordinates of a point sequence, in order.
pub open spec fn ys(s: Seq<Point>) -> Seq<i64> {
    s.map(|i: int, p: Point| p.y)
}

/// The padded bounding box a non-empty point sequence determines.
pub open spec fn spec_bounding_box(s: Seq<Point>) -> BoundingBox
    recommends
        s.len() > 0,
{
    BoundingBox {
        min_x: (seq_min(xs(s)) - 1) as i64,
        max_x: (seq_max(xs(s)) + 1) as i64,
        min_y: (seq_min(ys(s)) - 1) as i64,
        max_y: (seq_max(ys(s)) + 1) as i64,
    }
}

/// The grid a non-empty point sequence and a pair of positive steps
/// determine: anchored at the padded minimum corner, with cell counts the
/// spans divided (rounding toward zero) by the steps.
pub open spec fn spec_grid(s: Seq<Point>, x_step: i64, y_step: i64) -> Grid
    recommends
        s.len() > 0,
        x_step >= 1,
        y_step >= 1,
{
    let bb = spec_bounding_box(s);
    Grid {
        x_origin: bb.min_x,
        y_origin: bb.min_y,
        x_step,
        y_step,
        width_in_cells: ((bb.max_x - bb.min_x) / (x_step as int)) as usize,
        height_in_cells: ((bb.max_y - bb.min_y) / (y_step as int)) as usize,
    }
}

impl Grid {
    /// Well-formedness: positive steps, and every node coordinate stays in
    /// the padded range.
    pub open spec fn wf(self) -> bool {
        &&& 1 <= self.x_step
        &&& 1 <= self.y_step
        &&& -(COORD_LIMIT + 1) <= self.x_origin
        &&& -(COORD_LIMIT + 1) <= self.y_origin
        &&& self.x_origin + self.width_in_cells as int * self.x_step as int <= COORD_LIMIT + 1
        &&& self.y_origin + self.height_in_cells as int * self.y_step as int <= COORD_LIMIT + 1
    }

    /// How many nodes the grid has.
    pub open spec fn node_count(self) -> int {
        self.width_in_cells as int * self.height_in_cells as int
    }

    /// The node at position `k` of the row-major enumeration.
    pub open spec fn spec_node(self, k: int) -> Point
        recommends
            self.width_in_cells > 0,
            0 <= k < self.node_count(),
    {
        Point {
            x: (self.x_origin + (k % (self.width_in_cells as int)) * self.x_step as int) as i64,
            y: (self.y_origin + (k / (self.width_in_cells as int)) * self.y_step as int) as i64,
        }
    }
}

/// Dividing and multiplying back by the same positive number never
/// overshoots the dividend.
proof fn lemma_div_mul_le(a: int, b: int)
    requires
        0 <= a,
        1 <= b,
    ensures
        0 <= (a / b) * b <= a,
{
    lemma_fundamental_div_mod(a, b);
    lemma_mod_bound(a, b);
    assert(b * (a / b) == (a / b) * b) by (nonlinear_arith);
    lemma_mul_inequality(0, a / b, b);
}

/// Builds the padded bounding box of `points` and the grid that covers it
/// at the given steps.
///
/// Fails with `InvalidParameter` when a step is not strictly positive, and
/// with `EmptyInput` when `points` is empty; otherwise the returned grid is
/// exactly the one the points and steps determine. A step larger than the
/// box span yields a zero cell count and so an empty grid, which downstream
/// stages refuse in turn.
pub fn build_grid(points: &Vec<Point>, x_step: i64, y_step: i64) -> (r: Result<
    (Grid, BoundingBox),
    DensityError,
>)
    requires
        points_in_range(points@),
    ensures
        x_step <= 0 || y_step <= 0 ==> r == Err::<(Grid, BoundingBox), DensityError>(
            DensityError::InvalidParameter,
        ),
        x_step >= 1 && y_step >= 1 && points@.len() == 0 ==> r == Err::<
            (Grid, BoundingBox),
            DensityError,
        >(DensityError::EmptyInput),
        x_step >= 1 && y_step >= 1 && points@.len() > 0 ==> {
            &&& r is Ok
            &&& r->Ok_0.0 == spec_grid(points@, x_step, y_step)
            &&& r->Ok_0.1 == spec_bounding_box(points@)
            &&& r->Ok_0.0.wf()
        },
{
    if x_step <= 0 || y_step <= 0 {
        return Err(DensityError::InvalidParameter);
    }
    if points.len() == 0 {
        return Err(DensityError::EmptyInput);
    }
    let first = points[0];
    let mut mnx: i64 = first.x;
    let mut mxx: i64 = first.x;
    let mut mny: i64 = first.y;
    let mut mxy: i64 = first.y;
    let mut idx: usize = 1;
    while idx < points.len()
        invariant
            1 <= idx <= points@.len(),
            points_in_range(points@),
            mnx as int == seq_min(xs(points@).take(idx as int)),
            mxx as int == seq_max(xs(points@).take(idx as int)),
            mny as int == seq_min(ys(points@).take(idx as int)),
            mxy as int == seq_max(ys(points@).take(idx as int)),
        decreases points@.len() - idx,
    {
        let p = points[idx];
        proof {
            assert(xs(points@).take(idx + 1).drop_last() =~= xs(points@).take(idx as int));
            assert(ys(points@).take(idx + 1).drop_last() =~= ys(points@).take(idx as int));
            assert(xs(points@).take(idx + 1).last() == points@[idx as int].x);
            assert(ys(points@).take(idx + 1).last() == points@[idx as int].y);
        }
        if p.x < mnx {
            mnx = p.x;
        }
        if p.x > mxx {
            mxx = p.x;
        }
        if p.y < mny {
            mny = p.y;
        }
        if p.y > mxy {
            mxy = p.y;
        }
        idx = idx + 1;
    }
    proof {
        assert(xs(points@).take(points@.len() as int) =~= xs(points@));
        assert(ys(points@).take(points@.len() as int) =~= ys(points@));
        assert(point_in_range(points@[0]));
        assert(forall|i: int|
            0 <= i < points@.len() ==> coord_in_range(#[trigger] xs(points@)[i] as int)
                && coord_in_range(ys(points@)[i] as int));
        lemma_min_max_in_coord_range(xs(points@));
        lemma_min_max_in_coord_range(ys(points@));
    }
    let bb = BoundingBox { min_x: mnx - 1, max_x: mxx + 1, min_y: mny - 1, max_y: mxy + 1 };
    let x_span: i64 = bb.max_x - bb.min_x;
    let y_span: i64 = bb.max_y - bb.min_y;
    let width: usize = ((x_span as u64) / (x_step as u64)) as usize;
    let height: usize = ((y_span as u64) / (y_step as u64)) as usize;
    let grid = Grid {
        x_origin: bb.min_x,
        y_origin: bb.min_y,
        x_step,
        y_step,
        width_in_cells: width,
        height_in_cells: height,
    };
    proof {
        lemma_div_mul_le(x_span as int, x_step as int);
        lemma_div_mul_le(y_span as int, y_step as int);
    }
    Ok((grid, bb))
}

/// The extremes of a sequence of in-range coordinates are in range.
proof fn lemma_min_max_in_coord_range(s: Seq<i64>)
    requires
        s.len() > 0,
        forall|i: int| 0 <= i < s.len() ==> coord_in_range(#[trigger] s[i] as int),
    ensures
        coord_in_range(seq_min(s)),
        coord_in_range(seq_max(s)),
    decreases s.len(),
{
    if s.len() > 1 {
        lemma_min_max_in_coord_range(s.drop_last());
    }
}

/// Materializes the grid nodes in row-major order: node `k` sits at column
/// `k % width` and row `k / width`.
pub fn grid_nodes(grid: &Grid) -> (nodes: Vec<Point>)
    requires
        grid.wf(),
    ensures
        nodes@.len() == grid.node_count(),
        forall|k: int| 0 <= k < nodes@.len() ==> nodes@[k] == grid.spec_node(k),
        forall|k: int|
            0 <= k < nodes@.len() ==> coord_in_padded_range(#[trigger] nodes@[k].x as int)
                && coord_in_padded_range(nodes@[k].y as int),
{
    let w: usize = grid.width_in_cells;
    let h: usize = grid.height_in_cells;
    let mut nodes: Vec<Point> = Vec::new();
    let mut j: usize = 0;
    while j < h
        invariant
            grid.wf(),
            w == grid.width_in_cells,
            h == grid.height_in_cells,
            0 <= j <= h,
            nodes@.len() == j * w,
            forall|k: int| 0 <= k < nodes@.len() ==> nodes@[k] == grid.spec_node(k),
            forall|k: int|
                0 <= k < nodes@.len() ==> coord_in_padded_range(#[trigger] nodes@[k].x as int)
                    && coord_in_padded_range(nodes@[k].y as int),
        decreases h - j,
    {
        let mut i: usize = 0;
        proof {
            lemma_mul_inequality(j as int + 1, h as int, w as int);
            lemma_mul_inequality(0, j as int, w as int);
            lemma_mul_inequality(j as int, h as int, w as int);
            assert((j + 1) * w == j * w + w) by (nonlinear_arith);
        }
        while i < w
            invariant
                grid.wf(),
                w == grid.width_in_cells,
                h == grid.height_in_cells,
                0 <= j < h,
                0 <= i <= w,
                nodes@.len() == j * w + i,
                j * w + w <= h * w,
                0 <= j * w,
                forall|k: int| 0 <= k < nodes@.len() ==> nodes@[k] == grid.spec_node(k),
                forall|k: int|
                    0 <= k < nodes@.len() ==> coord_in_padded_range(#[trigger] nodes@[k].x as int)
                        && coord_in_padded_range(nodes@[k].y as int),
            decreases w - i,
        {
            proof {
                lemma_mul_inequality(i as int + 1, w as int, grid.x_step as int);
                lemma_mul_inequality(0, i as int, grid.x_step as int);
                lemma_mul_inequality(j as int + 1, h as int, grid.y_step as int);
                lemma_mul_inequality(0, j as int, grid.y_step as int);
                lemma_mul_inequality(i as int, w as int, grid.x_step as int);
                lemma_mul_inequality(j as int, h as int, grid.y_step as int);
                assert(w as int <= w as int * grid.x_step as int) by (nonlinear_arith)
                    requires
                        1 <= grid.x_step as int,
                        0 <= w as int,
                ;
                assert(h as int <= h as int * grid.y_step as int) by (nonlinear_arith)
                    requires
                        1 <= grid.y_step as int,
                        0 <= h as int,
                ;
            }
            let x: i64 = grid.x_origin + (i as i64) * grid.x_step;
            let y: i64 = grid.y_origin + (j as i64) * grid.y_step;
            proof {
                lemma_fundamental_div_mod_converse(
                    j as int * w as int + i as int,
                    w as int,
                    j as int,
                    i as int,
                );
            }
            nodes.push(Point { x, y });
            i = i + 1;
        }
        j = j + 1;
    }
    proof {
        assert(h as int * w as int == w as int * h as int) by (nonlinear_arith);
    }
    nodes
}

} // verus!
