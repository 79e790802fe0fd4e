use snake_term::config::Direction;

const ALL: [Direction; 4] = [Direction::West, Direction::North, Direction::East, Direction::South];

#[test]
fn opposite_is_an_involution() {
    for d in ALL {
        assert_eq!(d.opposite().opposite(), d);
        assert_ne!(d.opposite(), d);
    }
}

#[test]
fn opposite_pairs() {
    assert_eq!(Direction::West.opposite(), Direction::East);
    assert_eq!(Direction::East.opposite(), Direction::West);
    assert_eq!(Direction::North.opposite(), Direction::South);
    assert_eq!(Direction::South.opposite(), Direction::North);
}

#[test]
fn delta_is_a_unit_step() {
    assert_eq!(Direction::West.delta(), (0, -1));
    assert_eq!(Direction::East.delta(), (0, 1));
    assert_eq!(Direction::North.delta(), (-1, 0));
    assert_eq!(Direction::South.delta(), (1, 0));
}

#[test]
fn opposite_steps_cancel() {
    for d in ALL {
        let (r, c) = d.delta();
        let (or, oc) = d.opposite().delta();
        assert_eq!((r + or, c + oc), (0, 0));
    }
}
