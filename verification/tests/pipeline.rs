use isodensity::classify::equal_interval;
use isodensity::density::{distance_field, squared_distance};
use isodensity::errors::DensityError;
use isodensity::grid::{build_grid, grid_nodes, Point};
use isodensity::pipeline::prepare_density_plan;

fn gaussian_kernel(distance: f64, bandwidth: f64) -> f64 {
    (-0.5 * (distance / bandwidth).powi(2)).exp()
        / (bandwidth * (2.0 * std::f64::consts::PI).sqrt())
}

#[test]
fn bounding_box_pads_by_one_unit() {
    let points = vec![Point { x: 0, y: 0 }];
    let (grid, bb) = build_grid(&points, 1, 1).unwrap();
    assert_eq!((bb.min_x, bb.min_y, bb.max_x, bb.max_y), (-1, -1, 1, 1));
    assert_eq!(grid.width_in_cells, 2);
    assert_eq!(grid.height_in_cells, 2);
    assert_eq!((grid.x_origin, grid.y_origin), (-1, -1));
}

#[test]
fn nodes_are_enumerated_row_major() {
    let points = vec![Point { x: 0, y: 0 }];
    let (grid, _) = build_grid(&points, 1, 1).unwrap();
    let nodes = grid_nodes(&grid);
    let coords: Vec<(i64, i64)> = nodes.iter().map(|p| (p.x, p.y)).collect();
    assert_eq!(coords, vec![(-1, -1), (0, -1), (-1, 0), (0, 0)]);
}

#[test]
fn node_count_matches_cell_counts() {
    let points = vec![
        Point { x: 0, y: 0 },
        Point { x: 10, y: 4 },
        Point { x: 3, y: 9 },
    ];
    let (grid, _) = build_grid(&points, 2, 3).unwrap();
    // spans are 12 and 11, so 6 and 3 cells
    assert_eq!(grid.width_in_cells, 6);
    assert_eq!(grid.height_in_cells, 3);
    let nodes = grid_nodes(&grid);
    assert_eq!(nodes.len(), grid.width_in_cells * grid.height_in_cells);
    let field = distance_field(&grid, &points).unwrap();
    assert_eq!(field.len(), grid.width_in_cells * grid.height_in_cells);
    for row in &field {
        assert_eq!(row.len(), points.len());
    }
}

#[test]
fn empty_points_are_refused_by_the_grid_builder() {
    let points: Vec<Point> = Vec::new();
    assert_eq!(build_grid(&points, 1, 1), Err(DensityError::EmptyInput));
}

#[test]
fn non_positive_steps_are_refused() {
    let points = vec![Point { x: 0, y: 0 }];
    assert_eq!(build_grid(&points, 0, 1), Err(DensityError::InvalidParameter));
    assert_eq!(build_grid(&points, 1, -2), Err(DensityError::InvalidParameter));
}

#[test]
fn empty_points_are_refused_by_the_distance_stage() {
    let points = vec![Point { x: 0, y: 0 }];
    let (grid, _) = build_grid(&points, 1, 1).unwrap();
    let no_points: Vec<Point> = Vec::new();
    assert_eq!(distance_field(&grid, &no_points), Err(DensityError::EmptyInput));
}

#[test]
fn a_grid_without_nodes_is_refused() {
    // a step wider than the padded box leaves zero cells
    let points = vec![Point { x: 0, y: 0 }];
    assert!(matches!(
        prepare_density_plan(&points, 5, 5, 1),
        Err(DensityError::EmptyInput)
    ));
}

#[test]
fn zero_bandwidth_is_refused() {
    let points = vec![Point { x: 0, y: 0 }];
    assert!(matches!(
        prepare_density_plan(&points, 1, 1, 0),
        Err(DensityError::InvalidParameter)
    ));
}

#[test]
fn squared_distances_are_exact() {
    let a = Point { x: -1, y: -1 };
    let b = Point { x: 0, y: 0 };
    assert_eq!(squared_distance(&a, &b), 2);
    assert_eq!(squared_distance(&b, &b), 0);
    let c = Point { x: 3, y: -4 };
    assert_eq!(squared_distance(&b, &c), 25);
}

#[test]
fn single_point_end_to_end() {
    // one point at the origin, unit steps, unit bandwidth
    let points = vec![Point { x: 0, y: 0 }];
    let plan = prepare_density_plan(&points, 1, 1, 1).unwrap();
    assert_eq!(
        (
            plan.bounding_box.min_x,
            plan.bounding_box.min_y,
            plan.bounding_box.max_x,
            plan.bounding_box.max_y
        ),
        (-1, -1, 1, 1)
    );
    assert_eq!(plan.squared_distances.len(), 4);
    // density at node (-1, -1) is the kernel at distance sqrt(2)
    assert_eq!(plan.squared_distances[0], vec![2]);
    let bandwidth = 1.0;
    let kde: Vec<f64> = plan
        .squared_distances
        .iter()
        .map(|row| {
            row.iter()
                .map(|&d2| gaussian_kernel((d2 as f64).sqrt(), bandwidth))
                .sum::<f64>()
                / points.len() as f64
        })
        .collect();
    assert_eq!(kde[0], gaussian_kernel(2.0_f64.sqrt(), bandwidth));
    // classify the four node values into two classes: three breaks with
    // exact endpoints
    let scale = 1e15;
    let scaled: Vec<i64> = kde.iter().map(|&v| (v * scale) as i64).collect();
    let breaks = equal_interval(&scaled, 2).unwrap();
    assert_eq!(breaks.len(), 3);
    assert_eq!(breaks[0], *scaled.iter().min().unwrap());
    assert_eq!(breaks[2], *scaled.iter().max().unwrap());
    assert!(breaks[0] <= breaks[1] && breaks[1] <= breaks[2]);
}

#[test]
fn repeated_single_point_density_is_one_kernel_term() {
    // the same point three times: at the grid node that coincides with it,
    // every squared distance is zero, so the mean of the kernel terms is
    // the kernel at distance zero
    let points = vec![
        Point { x: 3, y: 4 },
        Point { x: 3, y: 4 },
        Point { x: 3, y: 4 },
    ];
    let plan = prepare_density_plan(&points, 1, 1, 2).unwrap();
    let nodes = grid_nodes(&plan.grid);
    let k: usize = nodes
        .iter()
        .position(|p| p.x == 3 && p.y == 4)
        .expect("the point itself is a grid node");
    assert_eq!(plan.squared_distances[k], vec![0, 0, 0]);
    let bandwidth = 2.0;
    let mean: f64 = plan.squared_distances[k]
        .iter()
        .map(|&d2| gaussian_kernel((d2 as f64).sqrt(), bandwidth))
        .sum::<f64>()
        / points.len() as f64;
    let expected = gaussian_kernel(0.0, bandwidth);
    assert!((mean - expected).abs() <= 1e-12 * expected);
    assert_eq!(expected, 1.0 / (bandwidth * (2.0 * std::f64::consts::PI).sqrt()));
}
