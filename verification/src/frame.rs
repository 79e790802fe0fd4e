//! What is shown on each cell of the board: the play area and what lies
//! around it, the walls, the snakes, the food and the bonus, one over the
//! other.

use crate::config::{Settings, BONUS_FOOD_CHAR, MAP_CHAR, WALL_CHAR};
use crate::game_map::{GameMap, GameMapView};
use crate::grid::{deque_contains, in_rectangle, slice_contains, Position};
use crate::snake::{Snake, SnakeView};
use vstd::prelude::*;

verus! {

/// The colours the board is drawn in.
#[derive(Debug, Clone, Copy, PartialEq, Eq, Structural)]
pub enum Paint {
    DarkGrey,
    White,
    Green,
    Cyan,
    Yellow,
    Magenta,
    Red,
    DarkRed,
}

/// A glyph and its colour.
#[derive(Debug, Clone, Copy, PartialEq, Eq, Structural)]
pub struct Cell {
    pub ch: char,
    pub color: Paint,
}

/// Glyph shown for the head of a dying snake.
pub const DEAD_HEAD_CHAR: char = 'X';

/// Whether the board is drawn during play, at the given tick, or while the
/// snakes flash after a death, at the given step of the flashing.
#[derive(Debug, Clone, Copy, PartialEq, Eq, Structural)]
pub enum Look {
    Playing(usize),
    Dying(usize),
}

impl Cell {
    /// An empty cell of the play area.
    pub open spec fn spec_empty() -> Cell {
        Cell { ch: MAP_CHAR, color: Paint::DarkGrey }
    }

    /// A wall, or a cell outside the play area.
    pub open spec fn spec_wall() -> Cell {
        Cell { ch: WALL_CHAR, color: Paint::White }
    }

    #[verifier::when_used_as_spec(spec_empty)]
    pub fn empty() -> (cell: Cell)
        ensures
            cell == Cell::spec_empty(),
    {
        Cell { ch: MAP_CHAR, color: Paint::DarkGrey }
    }

    #[verifier::when_used_as_spec(spec_wall)]
    pub fn wall() -> (cell: Cell)
        ensures
            cell == Cell::spec_wall(),
    {
        Cell { ch: WALL_CHAR, color: Paint::White }
    }
}

/// The colour the snakes flash in at a step of the flashing.
pub open spec fn flash_paint(frame: usize) -> Paint {
    if frame % 2 == 0 {
        Paint::Red
    } else {
        Paint::DarkRed
    }
}

/// The colour of the body of the snake at `index` among the snakes.
pub open spec fn body_paint(look: Look, index: int) -> Paint {
    match look {
        Look::Playing(_) => if index % 2 == 0 {
            Paint::Green
        } else {
            Paint::Cyan
        },
        Look::Dying(frame) => flash_paint(frame),
    }
}

/// The colour of the head of the snake at `index` among the snakes.
pub open spec fn head_paint(look: Look, index: int) -> Paint {
    match look {
        Look::Playing(_) => if index % 2 == 0 {
            Paint::Yellow
        } else {
            Paint::Magenta
        },
        Look::Dying(frame) => flash_paint(frame),
    }
}

/// The glyph of a snake's head.
pub open spec fn head_glyph(look: Look, settings: Settings, snake: SnakeView) -> char {
    match look {
        Look::Playing(_) => settings.head_char(snake.direction),
        Look::Dying(_) => DEAD_HEAD_CHAR,
    }
}

/// The colour of the bonus at a tick: it changes every three ticks.
pub open spec fn bonus_paint(frame_count: usize) -> Paint {
    if (frame_count / 3) % 2 == 0 {
        Paint::Magenta
    } else {
        Paint::Yellow
    }
}

/// The snakes' views, in their order.
pub open spec fn views(snakes: Seq<&Snake>) -> Seq<SnakeView> {
    Seq::new(snakes.len(), |i: int| snakes[i]@)
}

/// What the board itself shows on `cell`: a wall on a wall and outside the
/// play area, an empty cell elsewhere.
pub open spec fn ground(map: GameMapView, cell: Position) -> Cell {
    if map.walls.contains(cell) || !map.in_border(cell) {
        Cell::wall()
    } else {
        Cell::empty()
    }
}

/// What the first `count` snakes show on `cell`, over the ground: a later
/// snake hides an earlier one, and a snake's head hides its body.
pub open spec fn snakes_over_ground(
    map: GameMapView,
    snakes: Seq<SnakeView>,
    count: nat,
    settings: Settings,
    look: Look,
    cell: Position,
) -> Cell
    decreases count,
{
    if count == 0 {
        ground(map, cell)
    } else {
        let snake = snakes[count - 1];
        if snake.head == cell {
            Cell { ch: head_glyph(look, settings, snake), color: head_paint(look, count - 1) }
        } else if snake.parts.contains(cell) {
            Cell { ch: settings.body, color: body_paint(look, count - 1) }
        } else {
            snakes_over_ground(map, snakes, (count - 1) as nat, settings, look, cell)
        }
    }
}

/// What is shown on `cell`. From the top: the bonus, during play; the
/// first snake's food; the snakes; the ground.
pub open spec fn shown(
    map: GameMapView,
    snakes: Seq<SnakeView>,
    settings: Settings,
    look: Look,
    cell: Position,
) -> Cell {
    if look is Playing && map.bonus_at(cell) {
        Cell { ch: BONUS_FOOD_CHAR, color: bonus_paint(look->Playing_0) }
    } else if snakes.len() > 0 && snakes[0].food == cell {
        Cell { ch: settings.food, color: Paint::Red }
    } else {
        snakes_over_ground(map, snakes, snakes.len(), settings, look, cell)
    }
}

/// Columns left blank before a score line of `text_len` characters, so
/// that it stands centred over a board of `map_width` cells of two columns
/// each; none for a text that is as wide as the board or wider.
pub open spec fn spec_score_padding(text_len: usize, map_width: usize) -> int {
    if text_len < 2 * map_width {
        (2 * map_width - text_len) / 2
    } else {
        0
    }
}

/// Columns left blank before the score line.
pub fn score_padding(text_len: usize, map_width: usize) -> (padding: usize)
    ensures
        padding == spec_score_padding(text_len, map_width),
{
    if map_width > usize::MAX / 2 {
        // wider than any text: halve first
        map_width - text_len / 2 - text_len % 2
    } else if text_len < map_width * 2 {
        (map_width * 2 - text_len) / 2
    } else {
        0
    }
}

fn flash(frame: usize) -> (paint: Paint)
    ensures
        paint == flash_paint(frame),
{
    if frame % 2 == 0 {
        Paint::Red
    } else {
        Paint::DarkRed
    }
}

impl GameMap {
    /// What is shown on `cell`.
    pub fn cell_shown(&self, snakes: &[&Snake], settings: &Settings, look: Look, cell: Position) -> (shown_cell:
        Cell)
        ensures
            shown_cell == shown(self@, views(snakes@), *settings, look, cell),
    {
        let on_bonus: bool = match &self.bonus_food {
            Some(bonus) => bonus.pos.0 == cell.0 && bonus.pos.1 == cell.1,
            None => false,
        };
        if let Look::Playing(frame_count) = look {
            if on_bonus {
                let paint: Paint = if (frame_count / 3) % 2 == 0 {
                    Paint::Magenta
                } else {
                    Paint::Yellow
                };
                return Cell { ch: BONUS_FOOD_CHAR, color: paint };
            }
        }
        if snakes.len() > 0 && snakes[0].food.0 == cell.0 && snakes[0].food.1 == cell.1 {
            return Cell { ch: settings.food, color: Paint::Red };
        }
        let mut count: usize = snakes.len();
        while count > 0
            invariant
                count <= snakes@.len(),
                shown(self@, views(snakes@), *settings, look, cell) == snakes_over_ground(
                    self@,
                    views(snakes@),
                    count as nat,
                    *settings,
                    look,
                    cell,
                ),
            decreases count,
        {
            let snake: &Snake = snakes[count - 1];
            let index: usize = count - 1;
            if snake.head.0 == cell.0 && snake.head.1 == cell.1 {
                let ch: char = match look {
                    Look::Playing(_) => settings.head_char(snake.direction),
                    Look::Dying(_) => DEAD_HEAD_CHAR,
                };
                let color: Paint = match look {
                    Look::Playing(_) => if index % 2 == 0 {
                        Paint::Yellow
                    } else {
                        Paint::Magenta
                    },
                    Look::Dying(frame) => flash(frame),
                };
                return Cell { ch, color };
            }
            if deque_contains(&snake.parts, cell) {
                let color: Paint = match look {
                    Look::Playing(_) => if index % 2 == 0 {
                        Paint::Green
                    } else {
                        Paint::Cyan
                    },
                    Look::Dying(frame) => flash(frame),
                };
                return Cell { ch: settings.body, color };
            }
            count -= 1;
        }
        if slice_contains(self.walls.as_slice(), cell) || !in_rectangle(
            cell,
            self.border_min,
            self.border_max,
        ) {
            Cell::wall()
        } else {
            Cell::empty()
        }
    }

    /// The board during play at the tick `frame_count`, as rows of cells,
    /// each showing what lies on it.
    pub fn render(&self, snakes: &[&Snake], settings: &Settings, frame_count: usize) -> (rows: Vec<
        Vec<Cell>,
    >)
        ensures
            self.renders(rows@, views(snakes@), *settings, Look::Playing(frame_count)),
    {
        self.cells(snakes, settings, Look::Playing(frame_count))
    }

    /// The board while the snakes flash after a death, at the step `frame`
    /// of the flashing, as rows of cells.
    pub fn render_death_animation(&self, snakes: &[&Snake], settings: &Settings, frame: usize) -> (rows:
        Vec<Vec<Cell>>)
        ensures
            self.renders(rows@, views(snakes@), *settings, Look::Dying(frame)),
    {
        self.cells(snakes, settings, Look::Dying(frame))
    }

    /// Whether `rows` is this board drawn: one row for each row of the
    /// board, one cell for each column, and each cell showing what lies on
    /// it.
    pub open spec fn renders(
        &self,
        rows: Seq<Vec<Cell>>,
        snakes: Seq<SnakeView>,
        settings: Settings,
        look: Look,
    ) -> bool {
        &&& rows.len() == self.height
        &&& forall|r: int| 0 <= r < self.height ==> (#[trigger] rows[r])@.len() == self.width
        &&& forall|r: int, c: int|
            0 <= r < self.height && 0 <= c < self.width ==> (#[trigger] rows[r]@[c]) == shown(
                self@,
                snakes,
                settings,
                look,
                (r as usize, c as usize),
            )
    }

    /// The board as rows of cells, each showing what lies on it.
    fn cells(&self, snakes: &[&Snake], settings: &Settings, look: Look) -> (rows: Vec<Vec<Cell>>)
        ensures
            self.renders(rows@, views(snakes@), *settings, look),
    {
        let mut rows: Vec<Vec<Cell>> = Vec::new();
        let mut r: usize = 0;
        while r < self.height
            invariant
                r <= self.height,
                rows@.len() == r,
                forall|i: int| 0 <= i < r ==> (#[trigger] rows@[i])@.len() == self.width,
                forall|i: int, c: int|
                    0 <= i < r && 0 <= c < self.width ==> (#[trigger] rows@[i]@[c]) == shown(
                        self@,
                        views(snakes@),
                        *settings,
                        look,
                        (i as usize, c as usize),
                    ),
            decreases self.height - r,
        {
            let mut row: Vec<Cell> = Vec::new();
            let mut c: usize = 0;
            while c < self.width
                invariant
                    r < self.height,
                    c <= self.width,
                    row@.len() == c,
                    forall|j: int|
                        0 <= j < c ==> (#[trigger] row@[j]) == shown(
                            self@,
                            views(snakes@),
                            *settings,
                            look,
                            (r, j as usize),
                        ),
                decreases self.width - c,
            {
                row.push(self.cell_shown(snakes, settings, look, (r, c)));
                c += 1;
            }
            rows.push(row);
            r += 1;
        }
        rows
    }
}

} // verus!
