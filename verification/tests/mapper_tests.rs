use falling_sand::mapper::{mouse_to_grid, round};

#[test]
fn round_returns_nearest_integer() {
    assert_eq!(round(0, 30), 0);
    assert_eq!(round(40, 30), 1); // 1.33 rounds down
    assert_eq!(round(50, 30), 2); // 1.67 rounds up
    assert_eq!(round(60, 30), 2);
    assert_eq!(round(-40, 30), -1);
    assert_eq!(round(-50, 30), -2);
}

#[test]
fn round_midpoint_always_rounds_up() {
    // Exact midpoints between two integers round toward the higher one,
    // also for negative values.
    assert_eq!(round(15, 30), 1); // 0.5 -> 1
    assert_eq!(round(45, 30), 2); // 1.5 -> 2
    assert_eq!(round(-15, 30), 0); // -0.5 -> 0
    assert_eq!(round(-45, 30), -1); // -1.5 -> -1
}

#[test]
fn mapper_is_deterministic() {
    let a = mouse_to_grid(227, -311, 30, 10, 10);
    let b = mouse_to_grid(227, -311, 30, 10, 10);
    assert_eq!(a, b);
}

#[test]
fn mapper_center_maps_to_middle_cell() {
    assert_eq!(mouse_to_grid(0, 0, 30, 10, 10), (5, 5));
}

#[test]
fn mapper_midpoint_input_rounds_to_higher_cell() {
    // 45 / 30 is exactly 1.5: the x axis snaps to offset 2, cell 7.
    assert_eq!(mouse_to_grid(45, 0, 30, 10, 10), (7, 5));
    // -45 / 30 is exactly -1.5: it snaps to offset -1, cell 4.
    assert_eq!(mouse_to_grid(-45, 0, 30, 10, 10), (4, 5));
}

#[test]
fn mapper_clamps_far_pointer_to_grid_edge() {
    // A pointer far outside the window maps to the nearest boundary cell,
    // never outside [0, width-1] x [0, height-1].
    assert_eq!(mouse_to_grid(10_000_000, -10_000_000, 30, 10, 10), (9, 0));
    assert_eq!(mouse_to_grid(-10_000_000, 10_000_000, 30, 10, 10), (0, 9));
    let (cx, cy) = mouse_to_grid(999_999_999, 999_999_999, 30, 60, 30);
    assert!(cx < 60 && cy < 30);
    assert_eq!((cx, cy), (59, 29));
}
