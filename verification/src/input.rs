//! What a key press means: during a game, in the start menu and on the
//! game-over screen.

use crate::config::{Direction, Settings};
use vstd::prelude::*;

verus! {

/// A key of the keyboard, as far as the game tells keys apart.
#[derive(Debug, Clone, Copy, PartialEq, Eq, Structural)]
pub enum Key {
    Char(char),
    Up,
    Down,
    Left,
    Right,
    Enter,
    Esc,
    Other,
}

/// A key press: the key, and whether Control was held with it.
#[derive(Debug, Clone, Copy, PartialEq, Eq, Structural)]
pub struct KeyPress {
    pub key: Key,
    pub ctrl: bool,
}

pub enum GameInput {
    Move(Direction),
    MoveP2(Direction),
    Pause,
    Quit,
    /// No key that means anything here.
    Nothing,
}

pub enum MenuInput {
    Enter,
    Up,
    Down,
    Quit,
    /// No key that means anything here.
    Nothing,
}

pub enum GameOverInput {
    Restart,
    Quit,
    Menu,
    /// No key that means anything here.
    Nothing,
}

/// Whether the press is Control with `c`, which quits everywhere.
pub open spec fn is_interrupt(press: KeyPress) -> bool {
    press.ctrl && press.key == Key::Char('c')
}

/// The direction a key steers to: the key's own, or its opposite where the
/// controls are inverted.
pub open spec fn steered(dir: Direction, invert: bool) -> Direction {
    if invert {
        dir.opposite()
    } else {
        dir
    }
}

/// The move an arrow key makes: the second player's in a game for two, the
/// first player's otherwise.
pub open spec fn arrow_move(dir: Direction, multiplayer: bool) -> GameInput {
    if multiplayer {
        GameInput::MoveP2(dir)
    } else {
        GameInput::Move(dir)
    }
}

/// What a key press means during a game. Control with `c`, `q` and Escape
/// quit; `p` and the space bar pause; `w`, `a`, `s`, `d` steer the first
/// player north, west, south and east; the arrows steer the second player
/// in a game for two and the first otherwise. Letters count in either
/// case, and inverted controls turn every direction around.
pub open spec fn game_input(settings: Settings, press: KeyPress) -> GameInput {
    let invert = settings.invert_controls;
    if is_interrupt(press) {
        GameInput::Quit
    } else {
        match press.key {
            Key::Char(c) => {
                if c == 'p' || c == 'P' || c == ' ' {
                    GameInput::Pause
                } else if c == 'w' || c == 'W' {
                    GameInput::Move(steered(Direction::North, invert))
                } else if c == 's' || c == 'S' {
                    GameInput::Move(steered(Direction::South, invert))
                } else if c == 'a' || c == 'A' {
                    GameInput::Move(steered(Direction::West, invert))
                } else if c == 'd' || c == 'D' {
                    GameInput::Move(steered(Direction::East, invert))
                } else if c == 'q' || c == 'Q' {
                    GameInput::Quit
                } else {
                    GameInput::Nothing
                }
            },
            Key::Up => arrow_move(steered(Direction::North, invert), settings.multiplayer),
            Key::Down => arrow_move(steered(Direction::South, invert), settings.multiplayer),
            Key::Left => arrow_move(steered(Direction::West, invert), settings.multiplayer),
            Key::Right => arrow_move(steered(Direction::East, invert), settings.multiplayer),
            Key::Esc => GameInput::Quit,
            _ => GameInput::Nothing,
        }
    }
}

/// What a key press means in the start menu. Control with `c`, `q` and
/// Escape quit; the up arrow and `w` go up; the down arrow and `s` go
/// down; Enter and the space bar confirm.
pub open spec fn menu_input(press: KeyPress) -> MenuInput {
    if is_interrupt(press) {
        MenuInput::Quit
    } else {
        match press.key {
            Key::Up => MenuInput::Up,
            Key::Down => MenuInput::Down,
            Key::Enter => MenuInput::Enter,
            Key::Esc => MenuInput::Quit,
            Key::Char(c) => {
                if c == 'w' || c == 'W' {
                    MenuInput::Up
                } else if c == 's' || c == 'S' {
                    MenuInput::Down
                } else if c == ' ' {
                    MenuInput::Enter
                } else if c == 'q' || c == 'Q' {
                    MenuInput::Quit
                } else {
                    MenuInput::Nothing
                }
            },
            _ => MenuInput::Nothing,
        }
    }
}

/// What a key press means on the game-over screen. Control with `c`, `q`
/// and Escape quit; `r` restarts; `m` goes back to the menu.
pub open spec fn game_over_input(press: KeyPress) -> GameOverInput {
    if is_interrupt(press) {
        GameOverInput::Quit
    } else {
        match press.key {
            Key::Esc => GameOverInput::Quit,
            Key::Char(c) => {
                if c == 'r' || c == 'R' {
                    GameOverInput::Restart
                } else if c == 'q' || c == 'Q' {
                    GameOverInput::Quit
                } else if c == 'm' || c == 'M' {
                    GameOverInput::Menu
                } else {
                    GameOverInput::Nothing
                }
            },
            _ => GameOverInput::Nothing,
        }
    }
}

fn interrupts(press: KeyPress) -> (b: bool)
    ensures
        b == is_interrupt(press),
{
    press.ctrl && match press.key {
        Key::Char(c) => c == 'c',
        _ => false,
    }
}

fn steer(dir: Direction, invert: bool) -> (d: Direction)
    ensures
        d == steered(dir, invert),
{
    if invert {
        dir.opposite()
    } else {
        dir
    }
}

fn arrow(dir: Direction, multiplayer: bool) -> (input: GameInput)
    ensures
        input == arrow_move(dir, multiplayer),
{
    if multiplayer {
        GameInput::MoveP2(dir)
    } else {
        GameInput::Move(dir)
    }
}

/// Reads a key press during a game.
pub fn read_game_key(settings: &Settings, press: KeyPress) -> (input: GameInput)
    ensures
        input == game_input(*settings, press),
{
    let invert: bool = settings.invert_controls;
    if interrupts(press) {
        return GameInput::Quit;
    }
    match press.key {
        Key::Char(c) => {
            if c == 'p' || c == 'P' || c == ' ' {
                GameInput::Pause
            } else if c == 'w' || c == 'W' {
                GameInput::Move(steer(Direction::North, invert))
            } else if c == 's' || c == 'S' {
                GameInput::Move(steer(Direction::South, invert))
            } else if c == 'a' || c == 'A' {
                GameInput::Move(steer(Direction::West, invert))
            } else if c == 'd' || c == 'D' {
                GameInput::Move(steer(Direction::East, invert))
            } else if c == 'q' || c == 'Q' {
                GameInput::Quit
            } else {
                GameInput::Nothing
            }
        },
        Key::Up => arrow(steer(Direction::North, invert), settings.multiplayer),
        Key::Down => arrow(steer(Direction::South, invert), settings.multiplayer),
        Key::Left => arrow(steer(Direction::West, invert), settings.multiplayer),
        Key::Right => arrow(steer(Direction::East, invert), settings.multiplayer),
        Key::Esc => GameInput::Quit,
        _ => GameInput::Nothing,
    }
}

/// Reads a key press in the start menu.
pub fn read_menu_key(press: KeyPress) -> (input: MenuInput)
    ensures
        input == menu_input(press),
{
    if interrupts(press) {
        return MenuInput::Quit;
    }
    match press.key {
        Key::Up => MenuInput::Up,
        Key::Down => MenuInput::Down,
        Key::Enter => MenuInput::Enter,
        Key::Esc => MenuInput::Quit,
        Key::Char(c) => {
            if c == 'w' || c == 'W' {
                MenuInput::Up
            } else if c == 's' || c == 'S' {
                MenuInput::Down
            } else if c == ' ' {
                MenuInput::Enter
            } else if c == 'q' || c == 'Q' {
                MenuInput::Quit
            } else {
                MenuInput::Nothing
            }
        },
        _ => MenuInput::Nothing,
    }
}

/// Reads a key press on the game-over screen.
pub fn read_game_over_key(press: KeyPress) -> (input: GameOverInput)
    ensures
        input == game_over_input(press),
{
    if interrupts(press) {
        return GameOverInput::Quit;
    }
    match press.key {
        Key::Esc => GameOverInput::Quit,
        Key::Char(c) => {
            if c == 'r' || c == 'R' {
                GameOverInput::Restart
            } else if c == 'q' || c == 'Q' {
                GameOverInput::Quit
            } else if c == 'm' || c == 'M' {
                GameOverInput::Menu
            } else {
                GameOverInput::Nothing
            }
        },
        _ => GameOverInput::Nothing,
    }
}

} // verus!
