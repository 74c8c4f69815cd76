use isodensity::classify::equal_interval;
use isodensity::errors::DensityError;

#[test]
fn breaks_of_constant_values_are_all_the_constant() {
    // 5.0 at a fixed-point scale of 1000 units per 1.0
    let values: Vec<i64> = vec![5000, 5000, 5000];
    let breaks = equal_interval(&values, 3).unwrap();
    assert_eq!(breaks, vec![5000, 5000, 5000, 5000]);
}

#[test]
fn breaks_are_evenly_spaced_between_min_and_max() {
    let values: Vec<i64> = vec![7, 0, 10, 4];
    let breaks = equal_interval(&values, 2).unwrap();
    assert_eq!(breaks, vec![0, 5, 10]);
}

#[test]
fn last_break_is_pinned_to_the_exact_maximum() {
    // the range 10 does not divide by 3: stepping gives 0, 3, 6 and the
    // final break must be the exact maximum, not 9
    let values: Vec<i64> = vec![0, 10];
    let breaks = equal_interval(&values, 3).unwrap();
    assert_eq!(breaks, vec![0, 3, 6, 10]);
}

#[test]
fn breaks_have_expected_length_order_and_endpoints() {
    let values: Vec<i64> = vec![-300, 250, 17, -42, 99, 250, -300, 0];
    let nb_class: u32 = 5;
    let breaks = equal_interval(&values, nb_class).unwrap();
    assert_eq!(breaks.len(), nb_class as usize + 1);
    for pair in breaks.windows(2) {
        assert!(pair[0] <= pair[1]);
    }
    assert_eq!(breaks[0], -300);
    assert_eq!(*breaks.last().unwrap(), 250);
}

#[test]
fn empty_values_are_refused() {
    let values: Vec<i64> = Vec::new();
    assert_eq!(equal_interval(&values, 4), Err(DensityError::EmptyInput));
}

#[test]
fn zero_classes_are_refused() {
    let values: Vec<i64> = vec![1, 2, 3];
    assert_eq!(equal_interval(&values, 0), Err(DensityError::InvalidParameter));
}

#[test]
fn single_value_yields_degenerate_breaks() {
    let values: Vec<i64> = vec![-7];
    let breaks = equal_interval(&values, 2).unwrap();
    assert_eq!(breaks, vec![-7, -7, -7]);
}
