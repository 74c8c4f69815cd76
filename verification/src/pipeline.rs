//! Orchestration of the density pipeline.
//!
//! Points flow through the grid builder and the distance stage of the
//! density estimator; the caller evaluates the Gaussian kernel over the
//! squared distances, averages per node into the scalar field, and feeds
//! that field back to `equal_interval` for the isoline thresholds. Any
//! failed stage aborts the whole run with its error; no partial result is
//! produced.

use vstd::prelude::*;
use crate::density::distance_field;
use crate::density::spec_squared_distance;
use crate::errors::DensityError;
use crate::grid::BoundingBox;
use crate::grid::Grid;
use crate::grid::Point;
use crate::grid::build_grid;
use crate::grid::points_in_range;
use crate::grid::spec_bounding_box;
use crate::grid::spec_grid;

verus! {

/// Everything the kernel-evaluation step needs: the grid and its bounding
/// box, and one row of squared distances per grid node, in the grid's
/// row-major node order.
pub struct DensityPlan {
    pub grid: Grid,
    pub bounding_box: BoundingBox,
    pub squared_distances: Vec<Vec<i64>>,
}

impl DensityPlan {
    /// The plan matches the grid that `points` and the steps determine,
    /// and holds the exact squared distance from every node to every point.
    pub open spec fn matches(self, points: Seq<Point>, x_step: i64, y_step: i64) -> bool {
        &&& self.grid == spec_grid(points, x_step, y_step)
        &&& self.bounding_box == spec_bounding_box(points)
        &&& self.grid.wf()
        &&& self.squared_distances@.len() == self.grid.node_count()
        &&& forall|k: int|
            0 <= k < self.grid.node_count() ==> #[trigger] self.squared_distances@[k]@.len()
                == points.len()
        &&& forall|k: int, i: int|
            0 <= k < self.grid.node_count() && 0 <= i < points.len()
                ==> #[trigger] self.squared_distances@[k]@[i] == spec_squared_distance(
                self.grid.spec_node(k),
                points[i],
            )
    }
}

/// Runs the front half of the pipeline: bounding box, grid, and the
/// per-node squared distances the kernel is evaluated on.
///
/// Fails with `InvalidParameter` when the bandwidth or a step is not
/// strictly positive, and with `EmptyInput` when `points` is empty or the
/// steps leave the grid without nodes. The bandwidth itself is only
/// validated here: it scales the kernel, which the caller evaluates.
pub fn prepare_density_plan(
    points: &Vec<Point>,
    x_step: i64,
    y_step: i64,
    bandwidth: i64,
) -> (r: Result<DensityPlan, DensityError>)
    requires
        points_in_range(points@),
    ensures
        bandwidth <= 0 || x_step <= 0 || y_step <= 0 ==> r == Err::<DensityPlan, DensityError>(
            DensityError::InvalidParameter,
        ),
        bandwidth >= 1 && x_step >= 1 && y_step >= 1 && points@.len() == 0 ==> r == Err::<
            DensityPlan,
            DensityError,
        >(DensityError::EmptyInput),
        bandwidth >= 1 && x_step >= 1 && y_step >= 1 && points@.len() > 0 && spec_grid(
            points@,
            x_step,
            y_step,
        ).node_count() == 0 ==> r == Err::<DensityPlan, DensityError>(DensityError::EmptyInput),
        bandwidth >= 1 && x_step >= 1 && y_step >= 1 && points@.len() > 0 && spec_grid(
            points@,
            x_step,
            y_step,
        ).node_count() > 0 ==> {
            &&& r is Ok
            &&& r->Ok_0.matches(points@, x_step, y_step)
        },
{
    if bandwidth <= 0 {
        return Err(DensityError::InvalidParameter);
    }
    let (grid, bounding_box) = match build_grid(points, x_step, y_step) {
        Ok(gb) => gb,
        Err(e) => {
            return Err(e);
        },
    };
    let squared_distances = match distance_field(&grid, points) {
        Ok(f) => f,
        Err(e) => {
            return Err(e);
        },
    };
    Ok(DensityPlan { grid, bounding_box, squared_distances })
}

} // verus!
