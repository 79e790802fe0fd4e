use snake_term::input::MenuInput;
use snake_term::menu::{menu_step, MenuChoice, MENU_ENTRIES};

#[test]
fn mark_moves_between_the_entries() {
    assert_eq!(MENU_ENTRIES, 2);
    assert_eq!(menu_step(0, &MenuInput::Down), (1, None));
    assert_eq!(menu_step(1, &MenuInput::Down), (1, None));
    assert_eq!(menu_step(1, &MenuInput::Up), (0, None));
    assert_eq!(menu_step(0, &MenuInput::Up), (0, None));
    assert_eq!(menu_step(1, &MenuInput::Nothing), (1, None));
}

#[test]
fn enter_picks_the_marked_entry() {
    assert_eq!(menu_step(0, &MenuInput::Enter), (0, Some(MenuChoice::Play)));
    assert_eq!(menu_step(1, &MenuInput::Enter), (1, Some(MenuChoice::Quit)));
    assert_eq!(menu_step(0, &MenuInput::Quit), (0, Some(MenuChoice::Quit)));
}
