//! Game constants, the four compass directions and the run-time settings.

use std::path::PathBuf;
use vstd::prelude::*;
use vstd::string::StrSliceExecFns;

verus! {

pub const DEFAULT_MAP_WIDTH: usize = 20;

pub const DEFAULT_MAP_HEIGHT: usize = 20;

pub const MAP_CHAR: char = '.';

pub const WALL_CHAR: char = '#';

pub const INITIAL_SNAKE_LENGTH: usize = 3;

pub const BONUS_FOOD_CHAR: char = '$';

pub const BONUS_FOOD_SCORE: usize = 3;

/// Ticks a bonus stays on the board.
pub const BONUS_FOOD_LIFETIME: usize = 30;

/// `std::path::PathBuf`, carried through the settings and never looked into.
#[verifier::external_type_specification]
#[verifier::external_body]
pub struct ExPathBuf(PathBuf);

/// Everything a game is configured with.
#[derive(Debug, Clone)]
pub struct Settings {
    /// Delay between ticks in milliseconds (smaller is faster).
    pub speed: u64,
    /// Glyph of a body cell.
    pub body: char,
    /// Glyph of the head when heading west.
    pub head_w: char,
    /// Glyph of the head when heading north.
    pub head_n: char,
    /// Glyph of the head when heading east.
    pub head_e: char,
    /// Glyph of the head when heading south.
    pub head_s: char,
    /// All four head glyphs at once, in the order west, north, east, south.
    pub head: Option<String>,
    /// Glyph of the food.
    pub food: char,
    /// Seed of the random numbers; 0 asks for a fresh one.
    pub seed: u64,
    pub hide_score: bool,
    pub auto_restart: bool,
    pub invert_controls: bool,
    /// With this set the snake passes through an edge and comes back on the
    /// opposite one.
    pub disable_borders: bool,
    /// Number of walls placed at random.
    pub obstacles: usize,
    pub multiplayer: bool,
    /// Whether the game speeds up as the snake grows.
    pub progressive_speed: bool,
    pub shrinking_border: bool,
    /// Columns of the board; 0 asks for a width that suits the terminal.
    pub map_width: usize,
    /// Rows of the board; 0 asks for a height that suits the terminal.
    pub map_height: usize,
    /// Where a configuration file is read from.
    pub config: Option<PathBuf>,
    /// Where the game is recorded to.
    pub record: Option<PathBuf>,
    /// Where a recorded game is played back from.
    pub replay: Option<PathBuf>,
}

/// Settings read from a configuration file. A value that is there is used
/// where the command line left the setting at its default.
pub struct FileConfig {
    pub speed: Option<u64>,
    pub body: Option<String>,
    pub head_w: Option<String>,
    pub head_n: Option<String>,
    pub head_e: Option<String>,
    pub head_s: Option<String>,
    pub head: Option<String>,
    pub food: Option<String>,
    pub seed: Option<u64>,
    pub hide_score: Option<bool>,
    pub auto_restart: Option<bool>,
    pub invert_controls: Option<bool>,
    pub disable_borders: Option<bool>,
    pub obstacles: Option<usize>,
    pub multiplayer: Option<bool>,
    pub progressive_speed: Option<bool>,
    pub shrinking_border: Option<bool>,
    pub map_width: Option<usize>,
    pub map_height: Option<usize>,
}

impl Default for FileConfig {
    /// A configuration file that sets nothing.
    fn default() -> (fc: FileConfig)
        ensures
            fc == FileConfig::empty(),
    {
        FileConfig {
            speed: None,
            body: None,
            head_w: None,
            head_n: None,
            head_e: None,
            head_s: None,
            head: None,
            food: None,
            seed: None,
            hide_score: None,
            auto_restart: None,
            invert_controls: None,
            disable_borders: None,
            obstacles: None,
            multiplayer: None,
            progressive_speed: None,
            shrinking_border: None,
            map_width: None,
            map_height: None,
        }
    }
}

impl FileConfig {
    /// A configuration file that sets nothing.
    pub open spec fn empty() -> FileConfig {
        FileConfig {
            speed: None,
            body: None,
            head_w: None,
            head_n: None,
            head_e: None,
            head_s: None,
            head: None,
            food: None,
            seed: None,
            hide_score: None,
            auto_restart: None,
            invert_controls: None,
            disable_borders: None,
            obstacles: None,
            multiplayer: None,
            progressive_speed: None,
            shrinking_border: None,
            map_width: None,
            map_height: None,
        }
    }
}

pub const DEFAULT_SPEED: u64 = 200;

/// The shortest delay between ticks, in milliseconds, that a growing snake
/// can bring the game to.
pub const MIN_SPEED: u64 = 50;

/// The glyph a text stands for: its first character, or `fallback` for an
/// empty text.
pub open spec fn first_or(text: Seq<char>, fallback: char) -> char {
    if text.len() > 0 {
        text[0]
    } else {
        fallback
    }
}

/// A glyph left at its default `fallback` and set by the file: the file's.
pub open spec fn merged_glyph(own: char, file: Option<String>, fallback: char) -> char {
    match file {
        Some(text) => if own == fallback {
            first_or(text@, fallback)
        } else {
            own
        },
        None => own,
    }
}

/// A number left at its default `fallback` and set by the file: the file's.
pub open spec fn merged_u64(own: u64, file: Option<u64>, fallback: u64) -> u64 {
    match file {
        Some(value) => if own == fallback {
            value
        } else {
            own
        },
        None => own,
    }
}

/// A count left at its default `fallback` and set by the file: the file's.
pub open spec fn merged_usize(own: usize, file: Option<usize>, fallback: usize) -> usize {
    match file {
        Some(value) => if own == fallback {
            value
        } else {
            own
        },
        None => own,
    }
}

/// A text left out and set by the file: the file's.
pub open spec fn merged_text(own: Option<String>, file: Option<String>) -> Option<String> {
    match file {
        Some(text) => if own is None {
            Some(text)
        } else {
            own
        },
        None => own,
    }
}

/// A switch left off and set by the file: the file's.
pub open spec fn merged_flag(own: bool, file: Option<bool>) -> bool {
    match file {
        Some(value) => if !own {
            value
        } else {
            own
        },
        None => own,
    }
}

/// `value` held between `lo` and `hi`.
pub open spec fn clamped(value: int, lo: int, hi: int) -> int {
    if value < lo {
        lo
    } else if value > hi {
        hi
    } else {
        value
    }
}

impl Settings {
    /// The settings of a game started without any option.
    pub open spec fn defaults() -> Settings {
        Settings {
            speed: DEFAULT_SPEED,
            body: '@',
            head_w: '<',
            head_n: '^',
            head_e: '>',
            head_s: 'v',
            head: None,
            food: '*',
            seed: 0,
            hide_score: false,
            auto_restart: false,
            invert_controls: false,
            disable_borders: false,
            obstacles: 0,
            multiplayer: false,
            progressive_speed: false,
            shrinking_border: false,
            map_width: 0,
            map_height: 0,
            config: None,
            record: None,
            replay: None,
        }
    }

    /// These settings with the file's value wherever the file has one and
    /// the setting is still at its default.
    pub open spec fn merged(self, fc: FileConfig) -> Settings {
        Settings {
            speed: merged_u64(self.speed, fc.speed, DEFAULT_SPEED),
            body: merged_glyph(self.body, fc.body, '@'),
            head_w: merged_glyph(self.head_w, fc.head_w, '<'),
            head_n: merged_glyph(self.head_n, fc.head_n, '^'),
            head_e: merged_glyph(self.head_e, fc.head_e, '>'),
            head_s: merged_glyph(self.head_s, fc.head_s, 'v'),
            head: merged_text(self.head, fc.head),
            food: merged_glyph(self.food, fc.food, '*'),
            seed: merged_u64(self.seed, fc.seed, 0),
            hide_score: merged_flag(self.hide_score, fc.hide_score),
            auto_restart: merged_flag(self.auto_restart, fc.auto_restart),
            invert_controls: merged_flag(self.invert_controls, fc.invert_controls),
            disable_borders: merged_flag(self.disable_borders, fc.disable_borders),
            obstacles: merged_usize(self.obstacles, fc.obstacles, 0),
            multiplayer: merged_flag(self.multiplayer, fc.multiplayer),
            progressive_speed: merged_flag(self.progressive_speed, fc.progressive_speed),
            shrinking_border: merged_flag(self.shrinking_border, fc.shrinking_border),
            map_width: merged_usize(self.map_width, fc.map_width, 0),
            map_height: merged_usize(self.map_height, fc.map_height, 0),
            ..self
        }
    }

    /// These settings with the four head glyphs taken from `head`, where it
    /// holds at least four characters: west, north, east, south.
    pub open spec fn with_head_glyphs(self) -> Settings {
        match self.head {
            Some(text) => if text@.len() >= 4 {
                Settings {
                    head_w: text@[0],
                    head_n: text@[1],
                    head_e: text@[2],
                    head_s: text@[3],
                    ..self
                }
            } else {
                self
            },
            None => self,
        }
    }

    /// The board's width for a terminal of `cols` columns: a cell takes two
    /// columns and four are left as margin; at least 10 and at most 40.
    pub open spec fn width_for(cols: u16) -> usize {
        clamped((if cols >= 4 {
            cols - 4
        } else {
            0
        }) / 2, 10, 40) as usize
    }

    /// The board's height for a terminal of `rows` rows: six are left for
    /// the texts above and below; at least 10 and at most 30.
    pub open spec fn height_for(rows: u16) -> usize {
        clamped(if rows >= 6 {
            rows - 6
        } else {
            0
        }, 10, 30) as usize
    }

    /// These settings with a board size wherever it was left at 0: one that
    /// suits the terminal of the given size `(columns, rows)`, or 20 by 20
    /// where the terminal's size is not known. While both are set nothing
    /// changes.
    pub open spec fn sized(self, terminal: Option<(u16, u16)>) -> Settings {
        if self.map_width == 0 || self.map_height == 0 {
            Settings {
                map_width: if self.map_width != 0 {
                    self.map_width
                } else {
                    match terminal {
                        Some(size) => Settings::width_for(size.0),
                        None => DEFAULT_MAP_WIDTH,
                    }
                },
                map_height: if self.map_height != 0 {
                    self.map_height
                } else {
                    match terminal {
                        Some(size) => Settings::height_for(size.1),
                        None => DEFAULT_MAP_HEIGHT,
                    }
                },
                ..self
            }
        } else {
            self
        }
    }

    /// The settings a game runs with: the file's values merged in, the head
    /// glyphs spelled out, and the board sized.
    pub open spec fn resolved(self, file: Option<FileConfig>, terminal: Option<(u16, u16)>) -> Settings {
        (match file {
            Some(fc) => self.merged(fc),
            None => self,
        }).with_head_glyphs().sized(terminal)
    }

    /// The head's glyph for a snake heading `dir`.
    pub open spec fn spec_head_char(&self, dir: Direction) -> char {
        match dir {
            Direction::West => self.head_w,
            Direction::North => self.head_n,
            Direction::East => self.head_e,
            Direction::South => self.head_s,
        }
    }

    /// The delay between ticks for a snake of the given length. With
    /// progressive speed every cell beyond the first three takes five
    /// milliseconds off, down to fifty at the least.
    pub open spec fn spec_effective_speed(self, snake_length: usize) -> int {
        if self.progressive_speed {
            let grown: int = if snake_length > INITIAL_SNAKE_LENGTH {
                snake_length - INITIAL_SNAKE_LENGTH
            } else {
                0
            };
            if self.speed - 5 * grown > MIN_SPEED {
                self.speed - 5 * grown
            } else {
                MIN_SPEED as int
            }
        } else {
            self.speed as int
        }
    }

    /// Takes over the file's values. A value is taken only where the
    /// setting is still at its default, so that the command line wins. Of a
    /// glyph given as a text the first character counts.
    pub fn apply_file_config(&mut self, fc: &FileConfig)
        ensures
            *final(self) == old(self).merged(*fc),
    {
        self.speed = merge_u64(self.speed, fc.speed, DEFAULT_SPEED);
        self.body = merge_glyph(self.body, &fc.body, '@');
        self.head_w = merge_glyph(self.head_w, &fc.head_w, '<');
        self.head_n = merge_glyph(self.head_n, &fc.head_n, '^');
        self.head_e = merge_glyph(self.head_e, &fc.head_e, '>');
        self.head_s = merge_glyph(self.head_s, &fc.head_s, 'v');
        let head: Option<String> = merge_text(&self.head, &fc.head);
        self.head = head;
        self.food = merge_glyph(self.food, &fc.food, '*');
        self.seed = merge_u64(self.seed, fc.seed, 0);
        self.hide_score = merge_flag(self.hide_score, fc.hide_score);
        self.auto_restart = merge_flag(self.auto_restart, fc.auto_restart);
        self.invert_controls = merge_flag(self.invert_controls, fc.invert_controls);
        self.disable_borders = merge_flag(self.disable_borders, fc.disable_borders);
        self.obstacles = merge_usize(self.obstacles, fc.obstacles, 0);
        self.multiplayer = merge_flag(self.multiplayer, fc.multiplayer);
        self.progressive_speed = merge_flag(self.progressive_speed, fc.progressive_speed);
        self.shrinking_border = merge_flag(self.shrinking_border, fc.shrinking_border);
        self.map_width = merge_usize(self.map_width, fc.map_width, 0);
        self.map_height = merge_usize(self.map_height, fc.map_height, 0);
    }

    /// Spells out the four head glyphs where `head` gives them.
    fn apply_head_glyphs(&mut self)
        ensures
            *final(self) == old(self).with_head_glyphs(),
    {
        let glyphs: Option<(char, char, char, char)> = match &self.head {
            Some(text) => {
                let text: &str = text.as_str();
                if text.unicode_len() >= 4 {
                    Some((text.get_char(0), text.get_char(1), text.get_char(2), text.get_char(3)))
                } else {
                    None
                }
            },
            None => None,
        };
        if let Some((w, n, e, s)) = glyphs {
            self.head_w = w;
            self.head_n = n;
            self.head_e = e;
            self.head_s = s;
        }
    }

    /// Works out the settings a game runs with, from what the command line
    /// gave: the values of the configuration file `file` are merged in, the
    /// head glyphs of `head` are spelled out, and a board size left at 0 is
    /// fitted to a terminal of the size `terminal` (columns, rows), or set
    /// to 20 where that size is not known.
    pub fn resolve(self, file: Option<&FileConfig>, terminal: Option<(u16, u16)>) -> (out:
        Settings)
        ensures
            out == self.resolved(
                match file {
                    Some(fc) => Some(*fc),
                    None => None,
                },
                terminal,
            ),
    {
        let mut out: Settings = self;
        if let Some(fc) = file {
            out.apply_file_config(fc);
        }
        out.apply_head_glyphs();
        if out.map_width == 0 || out.map_height == 0 {
            match terminal {
                Some((cols, rows)) => {
                    if out.map_width == 0 {
                        out.map_width = clamp((cols.saturating_sub(4) / 2) as usize, 10, 40);
                    }
                    if out.map_height == 0 {
                        out.map_height = clamp(rows.saturating_sub(6) as usize, 10, 30);
                    }
                },
                None => {
                    if out.map_width == 0 {
                        out.map_width = DEFAULT_MAP_WIDTH;
                    }
                    if out.map_height == 0 {
                        out.map_height = DEFAULT_MAP_HEIGHT;
                    }
                },
            }
        }
        out
    }

    #[verifier::when_used_as_spec(spec_head_char)]
    pub fn head_char(&self, dir: Direction) -> (glyph: char)
        ensures
            glyph == self.spec_head_char(dir),
    {
        match dir {
            Direction::West => self.head_w,
            Direction::North => self.head_n,
            Direction::East => self.head_e,
            Direction::South => self.head_s,
        }
    }

    /// The delay between ticks, in milliseconds, for a snake of the given
    /// length: the configured one, or with progressive speed five less for
    /// every cell beyond the first three, and never under fifty.
    pub fn effective_speed(&self, snake_length: usize) -> (ms: u64)
        ensures
            ms == self.spec_effective_speed(snake_length),
            self.progressive_speed ==> ms >= MIN_SPEED,
            ms <= self.speed || ms == MIN_SPEED,
    {
        if self.progressive_speed {
            let grown: u128 = snake_length.saturating_sub(INITIAL_SNAKE_LENGTH) as u128;
            let reduction: u128 = 5 * grown;
            if reduction >= self.speed as u128 {
                MIN_SPEED
            } else {
                let left: u64 = self.speed - (reduction as u64);
                if left > MIN_SPEED {
                    left
                } else {
                    MIN_SPEED
                }
            }
        } else {
            self.speed
        }
    }
}

impl Default for Settings {
    /// The settings of a game started without any option.
    fn default() -> (settings: Settings)
        ensures
            settings == Settings::defaults(),
    {
        Settings {
            speed: DEFAULT_SPEED,
            body: '@',
            head_w: '<',
            head_n: '^',
            head_e: '>',
            head_s: 'v',
            head: None,
            food: '*',
            seed: 0,
            hide_score: false,
            auto_restart: false,
            invert_controls: false,
            disable_borders: false,
            obstacles: 0,
            multiplayer: false,
            progressive_speed: false,
            shrinking_border: false,
            map_width: 0,
            map_height: 0,
            config: None,
            record: None,
            replay: None,
        }
    }
}

fn merge_glyph(own: char, file: &Option<String>, fallback: char) -> (glyph: char)
    ensures
        glyph == merged_glyph(own, *file, fallback),
{
    match file {
        Some(text) => {
            if own == fallback {
                let text: &str = text.as_str();
                if text.unicode_len() > 0 {
                    text.get_char(0)
                } else {
                    fallback
                }
            } else {
                own
            }
        },
        None => own,
    }
}

fn merge_u64(own: u64, file: Option<u64>, fallback: u64) -> (number: u64)
    ensures
        number == merged_u64(own, file, fallback),
{
    match file {
        Some(value) => if own == fallback {
            value
        } else {
            own
        },
        None => own,
    }
}

fn merge_usize(own: usize, file: Option<usize>, fallback: usize) -> (number: usize)
    ensures
        number == merged_usize(own, file, fallback),
{
    match file {
        Some(value) => if own == fallback {
            value
        } else {
            own
        },
        None => own,
    }
}

fn merge_text(own: &Option<String>, file: &Option<String>) -> (text: Option<String>)
    ensures
        text == merged_text(*own, *file),
{
    match own {
        Some(text) => Some(text.clone()),
        None => match file {
            Some(text) => Some(text.clone()),
            None => None,
        },
    }
}

fn merge_flag(own: bool, file: Option<bool>) -> (flag: bool)
    ensures
        flag == merged_flag(own, file),
{
    match file {
        Some(value) => if !own {
            value
        } else {
            own
        },
        None => own,
    }
}

fn clamp(value: usize, lo: usize, hi: usize) -> (r: usize)
    requires
        lo <= hi,
    ensures
        r == clamped(value as int, lo as int, hi as int),
{
    if value < lo {
        lo
    } else if value > hi {
        hi
    } else {
        value
    }
}

#[derive(Debug, Clone, Copy, PartialEq, Eq, Structural)]
pub enum Direction {
    West,
    North,
    East,
    South,
}

impl Direction {
    /// The direction pointing the other way: west and east are paired, and so
    /// are north and south.
    pub open spec fn spec_opposite(self) -> Direction {
        match self {
            Direction::West => Direction::East,
            Direction::East => Direction::West,
            Direction::North => Direction::South,
            Direction::South => Direction::North,
        }
    }

    /// The unit step `(rows, columns)` of this direction. Rows grow to the
    /// south and columns to the east.
    pub open spec fn spec_delta(self) -> (int, int) {
        match self {
            Direction::West => (0, -1),
            Direction::East => (0, 1),
            Direction::North => (-1, 0),
            Direction::South => (1, 0),
        }
    }

    #[verifier::when_used_as_spec(spec_opposite)]
    pub fn opposite(self) -> (r: Direction)
        ensures
            r == self.spec_opposite(),
    {
        match self {
            Direction::West => Direction::East,
            Direction::East => Direction::West,
            Direction::North => Direction::South,
            Direction::South => Direction::North,
        }
    }

    pub fn delta(self) -> (d: (i32, i32))
        ensures
            d.0 == self.spec_delta().0,
            d.1 == self.spec_delta().1,
    {
        match self {
            Direction::West => (0, -1),
            Direction::East => (0, 1),
            Direction::North => (-1, 0),
            Direction::South => (1, 0),
        }
    }

    /// Turning around twice gives the direction one started with.
    pub proof fn lemma_opposite_involution(self)
        ensures
            self.opposite().opposite() == self,
    {
    }

    /// No direction is its own opposite, and opposite steps cancel.
    pub proof fn lemma_opposite_reverses(self)
        ensures
            self.opposite() != self,
            self.opposite().spec_delta().0 == -self.spec_delta().0,
            self.opposite().spec_delta().1 == -self.spec_delta().1,
    {
    }
}

} // verus!
