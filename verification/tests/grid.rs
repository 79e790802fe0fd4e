use snake_term::grid::{deque_contains, in_rectangle, plain_step, slice_contains, wrapped_step};
use std::collections::VecDeque;

#[test]
fn rectangle_is_half_open() {
    assert!(in_rectangle((2, 3), (2, 3), (5, 6)));
    assert!(in_rectangle((4, 5), (2, 3), (5, 6)));
    assert!(!in_rectangle((5, 5), (2, 3), (5, 6)));
    assert!(!in_rectangle((4, 6), (2, 3), (5, 6)));
    assert!(!in_rectangle((1, 3), (2, 3), (5, 6)));
    assert!(!in_rectangle((2, 2), (2, 3), (5, 6)));
}

#[test]
fn contains_finds_cells() {
    let cells = [(1, 2), (3, 4)];
    assert!(slice_contains(&cells, (3, 4)));
    assert!(!slice_contains(&cells, (4, 3)));
    assert!(!slice_contains(&[], (0, 0)));
    let deque: VecDeque<(usize, usize)> = cells.iter().copied().collect();
    assert!(deque_contains(&deque, (1, 2)));
    assert!(!deque_contains(&deque, (2, 1)));
}

#[test]
fn plain_step_stops_at_the_edges() {
    assert_eq!(plain_step(5, 1, 0, 10), Some(6));
    assert_eq!(plain_step(9, 1, 0, 10), None);
    assert_eq!(plain_step(0, -1, 0, 10), None);
    assert_eq!(plain_step(3, -1, 3, 10), None);
    assert_eq!(plain_step(4, -1, 3, 10), Some(3));
    assert_eq!(plain_step(4, 0, 3, 10), Some(4));
    assert_eq!(plain_step(2, 0, 3, 10), None);
    assert_eq!(plain_step(2, 1, 3, 10), Some(3));
    assert_eq!(plain_step(usize::MAX, 1, 0, usize::MAX), None);
}

#[test]
fn wrapped_step_folds_into_the_span() {
    assert_eq!(wrapped_step(5, 1, 0, 10), 6);
    assert_eq!(wrapped_step(9, 1, 0, 10), 0);
    assert_eq!(wrapped_step(0, -1, 0, 10), 9);
    assert_eq!(wrapped_step(3, -1, 3, 10), 9);
    assert_eq!(wrapped_step(9, 1, 3, 10), 3);
    assert_eq!(wrapped_step(4, 0, 3, 10), 4);
    // from outside the span
    assert_eq!(wrapped_step(0, -1, 3, 10), 6);
    assert_eq!(wrapped_step(0, 0, 3, 10), 7);
    assert_eq!(wrapped_step(1, 1, 3, 10), 9);
    assert_eq!(wrapped_step(15, 1, 3, 10), 9);
    assert_eq!(wrapped_step(7, 1, 5, 6), 5);
    assert_eq!(wrapped_step(0, -1, 5, 6), 5);
}
