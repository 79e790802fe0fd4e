use snake_term::config::{
    Direction, FileConfig, Settings, BONUS_FOOD_LIFETIME, BONUS_FOOD_SCORE, DEFAULT_MAP_HEIGHT,
    DEFAULT_MAP_WIDTH, INITIAL_SNAKE_LENGTH,
};

#[test]
fn constants() {
    assert_eq!(INITIAL_SNAKE_LENGTH, 3);
    assert_eq!(BONUS_FOOD_SCORE, 3);
    assert_eq!(BONUS_FOOD_LIFETIME, 30);
    assert_eq!((DEFAULT_MAP_WIDTH, DEFAULT_MAP_HEIGHT), (20, 20));
}

#[test]
fn default_settings() {
    let s = Settings::default();
    assert_eq!(s.speed, 200);
    assert_eq!(s.body, '@');
    assert_eq!((s.head_w, s.head_n, s.head_e, s.head_s), ('<', '^', '>', 'v'));
    assert_eq!(s.food, '*');
    assert_eq!(s.seed, 0);
    assert!(!s.hide_score && !s.auto_restart && !s.invert_controls && !s.disable_borders);
    assert!(!s.multiplayer && !s.progressive_speed && !s.shrinking_border);
    assert_eq!((s.obstacles, s.map_width, s.map_height), (0, 0, 0));
    assert!(s.head.is_none() && s.config.is_none() && s.record.is_none() && s.replay.is_none());
}

#[test]
fn head_char_follows_the_direction() {
    let s = Settings::default();
    assert_eq!(s.head_char(Direction::West), '<');
    assert_eq!(s.head_char(Direction::North), '^');
    assert_eq!(s.head_char(Direction::East), '>');
    assert_eq!(s.head_char(Direction::South), 'v');
}

#[test]
fn effective_speed_without_progression_is_the_speed() {
    let mut s = Settings::default();
    assert_eq!(s.effective_speed(3), 200);
    assert_eq!(s.effective_speed(1000), 200);
    s.speed = 10;
    assert_eq!(s.effective_speed(50), 10);
}

#[test]
fn effective_speed_drops_five_per_cell_down_to_fifty() {
    let mut s = Settings::default();
    s.progressive_speed = true;
    assert_eq!(s.effective_speed(0), 200);
    assert_eq!(s.effective_speed(3), 200);
    assert_eq!(s.effective_speed(4), 195);
    assert_eq!(s.effective_speed(13), 150);
    assert_eq!(s.effective_speed(32), 55);
    assert_eq!(s.effective_speed(33), 50);
    assert_eq!(s.effective_speed(34), 50);
    assert_eq!(s.effective_speed(43), 50);
    assert_eq!(s.effective_speed(44), 50);
    assert_eq!(s.effective_speed(usize::MAX), 50);
    s.speed = 30;
    assert_eq!(s.effective_speed(3), 50);
    s.speed = u64::MAX;
    assert_eq!(s.effective_speed(5), u64::MAX - 10);
}

#[test]
fn file_values_fill_in_for_defaults() {
    let mut fc = FileConfig::default();
    fc.speed = Some(120);
    fc.body = Some("o".to_string());
    fc.head_w = Some("L".to_string());
    fc.head_n = Some("".to_string());
    fc.head = Some("abcd".to_string());
    fc.food = Some("fruit".to_string());
    fc.seed = Some(9);
    fc.hide_score = Some(true);
    fc.auto_restart = Some(false);
    fc.obstacles = Some(5);
    fc.multiplayer = Some(true);
    fc.map_width = Some(30);
    let mut s = Settings::default();
    s.apply_file_config(&fc);
    assert_eq!(s.speed, 120);
    assert_eq!(s.body, 'o');
    assert_eq!(s.head_w, 'L');
    assert_eq!(s.head_n, '^');
    assert_eq!(s.head_e, '>');
    assert_eq!(s.head.as_deref(), Some("abcd"));
    assert_eq!(s.food, 'f');
    assert_eq!(s.seed, 9);
    assert!(s.hide_score);
    assert!(!s.auto_restart);
    assert_eq!(s.obstacles, 5);
    assert!(s.multiplayer);
    assert_eq!((s.map_width, s.map_height), (30, 0));
}

#[test]
fn command_line_wins_over_the_file() {
    let mut fc = FileConfig::default();
    fc.speed = Some(120);
    fc.body = Some("o".to_string());
    fc.head = Some("abcd".to_string());
    fc.seed = Some(9);
    fc.hide_score = Some(false);
    fc.obstacles = Some(5);
    fc.map_height = Some(30);
    let mut s = Settings::default();
    s.speed = 90;
    s.body = '#';
    s.head = Some("wxyz".to_string());
    s.seed = 4;
    s.hide_score = true;
    s.obstacles = 2;
    s.map_height = 12;
    s.apply_file_config(&fc);
    assert_eq!(s.speed, 90);
    assert_eq!(s.body, '#');
    assert_eq!(s.head.as_deref(), Some("wxyz"));
    assert_eq!(s.seed, 4);
    assert!(s.hide_score);
    assert_eq!(s.obstacles, 2);
    assert_eq!(s.map_height, 12);
}

#[test]
fn empty_file_changes_nothing() {
    let mut s = Settings::default();
    s.speed = 77;
    s.apply_file_config(&FileConfig::default());
    assert_eq!(s.speed, 77);
    assert_eq!(s.body, '@');
    assert!(s.head.is_none());
}

#[test]
fn resolve_without_terminal_uses_twenty_by_twenty() {
    let s = Settings::default().resolve(None, None);
    assert_eq!((s.map_width, s.map_height), (20, 20));
    let mut s = Settings::default();
    s.map_width = 33;
    let s = s.resolve(None, None);
    assert_eq!((s.map_width, s.map_height), (33, 20));
}

#[test]
fn resolve_fits_the_board_to_the_terminal() {
    let s = Settings::default().resolve(None, Some((80, 24)));
    assert_eq!((s.map_width, s.map_height), (38, 18));
    let s = Settings::default().resolve(None, Some((200, 100)));
    assert_eq!((s.map_width, s.map_height), (40, 30));
    let s = Settings::default().resolve(None, Some((10, 5)));
    assert_eq!((s.map_width, s.map_height), (10, 10));
    let s = Settings::default().resolve(None, Some((0, 0)));
    assert_eq!((s.map_width, s.map_height), (10, 10));
    let s = Settings::default().resolve(None, Some((24, 16)));
    assert_eq!((s.map_width, s.map_height), (10, 10));
    let s = Settings::default().resolve(None, Some((26, 17)));
    assert_eq!((s.map_width, s.map_height), (11, 11));
    let mut s = Settings::default();
    s.map_height = 7;
    let s = s.resolve(None, Some((80, 24)));
    assert_eq!((s.map_width, s.map_height), (38, 7));
    let mut s = Settings::default();
    s.map_width = 5;
    s.map_height = 7;
    let s = s.resolve(None, Some((80, 24)));
    assert_eq!((s.map_width, s.map_height), (5, 7));
}

#[test]
fn resolve_spells_out_the_head_glyphs() {
    let mut s = Settings::default();
    s.head = Some("←↑→↓!".to_string());
    let s = s.resolve(None, None);
    assert_eq!((s.head_w, s.head_n, s.head_e, s.head_s), ('←', '↑', '→', '↓'));
    let mut s = Settings::default();
    s.head = Some("abc".to_string());
    let s = s.resolve(None, None);
    assert_eq!((s.head_w, s.head_n, s.head_e, s.head_s), ('<', '^', '>', 'v'));
}

#[test]
fn resolve_merges_the_file_first() {
    let mut fc = FileConfig::default();
    fc.head = Some("1234".to_string());
    fc.map_width = Some(16);
    fc.disable_borders = Some(true);
    let s = Settings::default().resolve(Some(&fc), Some((80, 24)));
    assert_eq!((s.head_w, s.head_n, s.head_e, s.head_s), ('1', '2', '3', '4'));
    assert_eq!((s.map_width, s.map_height), (16, 18));
    assert!(s.disable_borders);
}
