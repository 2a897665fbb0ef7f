use fractalinator::gradient::{check_gradient, default_gradient, Gap, GradientError};
use fractalinator::render::{
    color_index, effective_zoom, pixel_color, IterationResult, DEFAULT_LIMIT, GRADIENT_SIZE,
};

#[test]
fn zoom_zero_means_one() {
    assert_eq!(effective_zoom(0), 1);
    assert_eq!(effective_zoom(1), 1);
    assert_eq!(effective_zoom(7), 7);
}

#[test]
fn defaults() {
    assert_eq!(DEFAULT_LIMIT, 255);
    assert_eq!(GRADIENT_SIZE, 2048);
    assert_eq!(default_gradient(), vec![(255, 255, 255)]);
}

#[test]
fn index_wraps_into_table() {
    assert_eq!(color_index(0, 2048), 0);
    assert_eq!(color_index(2047, 2048), 2047);
    assert_eq!(color_index(2048, 2048), 0);
    assert_eq!(color_index(5000, 2048), 904);
    for raw in 0..10000usize {
        assert!(color_index(raw, 3) < 3);
    }
}

#[test]
fn bounded_point_takes_background() {
    let table = vec![(0, 0, 0), (10, 20, 30), (255, 255, 255)];
    let bg = (1, 2, 3);
    assert_eq!(pixel_color(IterationResult::Bounded, 1, &table, bg), bg);
}

#[test]
fn escaped_point_takes_wrapped_entry() {
    let table = vec![(0, 0, 0), (10, 20, 30), (255, 255, 255)];
    let bg = (1, 2, 3);
    assert_eq!(pixel_color(IterationResult::Escaped(0), 1, &table, bg), (10, 20, 30));
    assert_eq!(pixel_color(IterationResult::Escaped(9), 5, &table, bg), (255, 255, 255));
}

#[test]
fn equal_positions_are_degenerate() {
    // positions 0 and 0 (red, then blue)
    assert_eq!(
        check_gradient(2, &vec![Gap::Flat], 2048),
        Err(GradientError::DegenerateGradient)
    );
}

#[test]
fn too_few_points_are_degenerate() {
    assert_eq!(check_gradient(0, &vec![], 2048), Err(GradientError::DegenerateGradient));
    assert_eq!(check_gradient(1, &vec![], 2048), Err(GradientError::DegenerateGradient));
}

#[test]
fn falling_positions_are_unsorted() {
    assert_eq!(
        check_gradient(3, &vec![Gap::Rising, Gap::Falling], 2048),
        Err(GradientError::UnsortedControlPoints)
    );
}

#[test]
fn flat_gap_wins_over_falling_gap() {
    assert_eq!(
        check_gradient(3, &vec![Gap::Falling, Gap::Flat], 2048),
        Err(GradientError::DegenerateGradient)
    );
}

#[test]
fn empty_table_is_refused() {
    assert_eq!(check_gradient(2, &vec![Gap::Rising], 0), Err(GradientError::EmptyColorTable));
}

#[test]
fn sorted_points_pass() {
    assert_eq!(check_gradient(2, &vec![Gap::Rising], 2048), Ok(()));
    assert_eq!(check_gradient(4, &vec![Gap::Rising, Gap::Rising, Gap::Rising], 1), Ok(()));
}
