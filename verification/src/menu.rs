//! The start menu: which entry is marked, and what a key does to it.

use crate::input::MenuInput;
use vstd::prelude::*;

verus! {

/// What the player picked in the start menu.
#[derive(Debug, Clone, Copy, PartialEq, Eq, Structural)]
pub enum MenuChoice {
    Play,
    Quit,
}

/// Entries of the start menu: the first starts a game, the second quits.
pub const MENU_ENTRIES: usize = 2;

/// The marked entry after `input`: one up or one down, and staying where
/// it is at either end and on every other key.
pub open spec fn moved_mark(selected: usize, input: MenuInput) -> usize {
    match input {
        MenuInput::Up => if selected > 0 {
            (selected - 1) as usize
        } else {
            selected
        },
        MenuInput::Down => if selected + 1 < MENU_ENTRIES {
            (selected + 1) as usize
        } else {
            selected
        },
        _ => selected,
    }
}

/// The choice `input` makes, if it makes one: Enter picks the marked
/// entry, and quitting picks the way out.
pub open spec fn chosen(selected: usize, input: MenuInput) -> Option<MenuChoice> {
    match input {
        MenuInput::Enter => if selected == 0 {
            Some(MenuChoice::Play)
        } else {
            Some(MenuChoice::Quit)
        },
        MenuInput::Quit => Some(MenuChoice::Quit),
        _ => None,
    }
}

/// Takes a key in the start menu. The result is the entry marked from now
/// on and the choice made, if the key made one.
pub fn menu_step(selected: usize, input: &MenuInput) -> (next: (usize, Option<MenuChoice>))
    ensures
        next.0 == moved_mark(selected, *input),
        next.1 == chosen(selected, *input),
        selected < MENU_ENTRIES ==> next.0 < MENU_ENTRIES,
{
    match input {
        MenuInput::Up => {
            if selected > 0 {
                (selected - 1, None)
            } else {
                (selected, None)
            }
        },
        MenuInput::Down => {
            if selected < MENU_ENTRIES - 1 {
                (selected + 1, None)
            } else {
                (selected, None)
            }
        },
        MenuInput::Enter => {
            if selected == 0 {
                (selected, Some(MenuChoice::Play))
            } else {
                (selected, Some(MenuChoice::Quit))
            }
        },
        MenuInput::Quit => (selected, Some(MenuChoice::Quit)),
        MenuInput::Nothing => (selected, None),
    }
}

} // verus!
