use snake_term::config::{Direction, Settings};
use snake_term::input::{
    read_game_key, read_game_over_key, read_menu_key, GameInput, GameOverInput, Key, KeyPress,
    MenuInput,
};

fn press(key: Key) -> KeyPress {
    KeyPress { key, ctrl: false }
}

fn moved(input: GameInput) -> Option<(u8, Direction)> {
    match input {
        GameInput::Move(d) => Some((1, d)),
        GameInput::MoveP2(d) => Some((2, d)),
        _ => None,
    }
}

#[test]
fn letters_steer_the_first_player() {
    let s = Settings::default();
    for (c, d) in [
        ('w', Direction::North),
        ('W', Direction::North),
        ('s', Direction::South),
        ('S', Direction::South),
        ('a', Direction::West),
        ('A', Direction::West),
        ('d', Direction::East),
        ('D', Direction::East),
    ] {
        assert_eq!(moved(read_game_key(&s, press(Key::Char(c)))), Some((1, d)));
    }
}

#[test]
fn arrows_steer_the_second_player_in_a_game_for_two() {
    let mut s = Settings::default();
    for (key, d) in [
        (Key::Up, Direction::North),
        (Key::Down, Direction::South),
        (Key::Left, Direction::West),
        (Key::Right, Direction::East),
    ] {
        s.multiplayer = false;
        assert_eq!(moved(read_game_key(&s, press(key))), Some((1, d)));
        s.multiplayer = true;
        assert_eq!(moved(read_game_key(&s, press(key))), Some((2, d)));
    }
    assert_eq!(moved(read_game_key(&s, press(Key::Char('w')))), Some((1, Direction::North)));
}

#[test]
fn inverted_controls_turn_directions_around() {
    let mut s = Settings::default();
    s.invert_controls = true;
    assert_eq!(moved(read_game_key(&s, press(Key::Char('w')))), Some((1, Direction::South)));
    assert_eq!(moved(read_game_key(&s, press(Key::Char('a')))), Some((1, Direction::East)));
    assert_eq!(moved(read_game_key(&s, press(Key::Down))), Some((1, Direction::North)));
    assert_eq!(moved(read_game_key(&s, press(Key::Right))), Some((1, Direction::West)));
}

#[test]
fn pause_and_quit_keys() {
    let s = Settings::default();
    for c in ['p', 'P', ' '] {
        assert!(matches!(read_game_key(&s, press(Key::Char(c))), GameInput::Pause));
    }
    for key in [Key::Char('q'), Key::Char('Q'), Key::Esc] {
        assert!(matches!(read_game_key(&s, press(key)), GameInput::Quit));
    }
    assert!(matches!(
        read_game_key(&s, KeyPress { key: Key::Char('c'), ctrl: true }),
        GameInput::Quit
    ));
    assert!(matches!(read_game_key(&s, press(Key::Char('c'))), GameInput::Nothing));
    assert!(matches!(read_game_key(&s, press(Key::Enter)), GameInput::Nothing));
    assert!(matches!(read_game_key(&s, press(Key::Other)), GameInput::Nothing));
    assert!(matches!(
        read_game_key(&s, KeyPress { key: Key::Char('w'), ctrl: true }),
        GameInput::Move(Direction::North)
    ));
}

#[test]
fn menu_keys() {
    for key in [Key::Up, Key::Char('w'), Key::Char('W')] {
        assert!(matches!(read_menu_key(press(key)), MenuInput::Up));
    }
    for key in [Key::Down, Key::Char('s'), Key::Char('S')] {
        assert!(matches!(read_menu_key(press(key)), MenuInput::Down));
    }
    for key in [Key::Enter, Key::Char(' ')] {
        assert!(matches!(read_menu_key(press(key)), MenuInput::Enter));
    }
    for key in [Key::Esc, Key::Char('q'), Key::Char('Q')] {
        assert!(matches!(read_menu_key(press(key)), MenuInput::Quit));
    }
    assert!(matches!(read_menu_key(KeyPress { key: Key::Char('c'), ctrl: true }), MenuInput::Quit));
    assert!(matches!(read_menu_key(press(Key::Left)), MenuInput::Nothing));
    assert!(matches!(read_menu_key(press(Key::Char('x'))), MenuInput::Nothing));
}

#[test]
fn game_over_keys() {
    for c in ['r', 'R'] {
        assert!(matches!(read_game_over_key(press(Key::Char(c))), GameOverInput::Restart));
    }
    for c in ['m', 'M'] {
        assert!(matches!(read_game_over_key(press(Key::Char(c))), GameOverInput::Menu));
    }
    for key in [Key::Esc, Key::Char('q'), Key::Char('Q')] {
        assert!(matches!(read_game_over_key(press(key)), GameOverInput::Quit));
    }
    assert!(matches!(
        read_game_over_key(KeyPress { key: Key::Char('c'), ctrl: true }),
        GameOverInput::Quit
    ));
    assert!(matches!(read_game_over_key(press(Key::Enter)), GameOverInput::Nothing));
    assert!(matches!(read_game_over_key(press(Key::Char(' '))), GameOverInput::Nothing));
}
