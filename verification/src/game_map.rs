//! The board: its size, its walls, the border that closes in on the play
//! area, and the bonus food.

use crate::config::{BONUS_FOOD_LIFETIME, BONUS_FOOD_SCORE};
use crate::grid::{as_cell, deque_contains, in_rectangle, inside, slice_contains, Position};
use crate::random::{random_index, random_roll};
use crate::snake::{Snake, SnakeView};
use rand::rngs::StdRng;
use vstd::prelude::*;

verus! {

/// Ticks between two steps of the shrinking border.
pub const SHRINK_INTERVAL: usize = 50;

/// Rows and columns that the shrinking border always leaves.
pub const MIN_BORDER_SPAN: usize = 6;

/// Random draws spent on one placement before the cells are searched in
/// order.
pub const PLACEMENT_TRIES: usize = 1000;

/// Random draws spent on placing a bonus before it is given up for the tick.
pub const BONUS_TRIES: usize = 50;

/// A bonus is rolled for with a die of this many sides.
pub const BONUS_ODDS: i32 = 20;

/// A food item worth more than the ordinary one, which goes away again.
pub struct BonusFood {
    pub pos: Position,
    /// Ticks left before the bonus goes away.
    pub lifetime: usize,
}

/// What one tick drew for a bonus.
pub struct BonusDraws {
    /// What the die showed, if it was rolled.
    pub roll: Option<i32>,
    /// The cells drawn, in the order they were drawn in.
    pub cells: Vec<Position>,
}

pub struct GameMap {
    pub width: usize,
    pub height: usize,
    pub walls: Vec<Position>,
    pub bonus_food: Option<BonusFood>,
    /// First row and column of the play area.
    pub border_min: Position,
    /// One past the last row and column of the play area.
    pub border_max: Position,
    /// Ticks counted by the shrinking border.
    pub shrink_timer: usize,
}

/// What a board is, with its walls as a sequence.
pub struct GameMapView {
    pub width: usize,
    pub height: usize,
    pub walls: Seq<Position>,
    pub bonus_food: Option<BonusFood>,
    pub border_min: Position,
    pub border_max: Position,
    pub shrink_timer: nat,
}

impl View for GameMap {
    type V = GameMapView;

    open spec fn view(&self) -> GameMapView {
        GameMapView {
            width: self.width,
            height: self.height,
            walls: self.walls@,
            bonus_food: self.bonus_food,
            border_min: self.border_min,
            border_max: self.border_max,
            shrink_timer: self.shrink_timer as nat,
        }
    }
}

impl GameMapView {
    /// A board at the start of a game: no walls, no bonus, and the whole
    /// board as play area.
    pub open spec fn initial(width: usize, height: usize) -> GameMapView {
        GameMapView {
            width,
            height,
            walls: Seq::empty(),
            bonus_food: None,
            border_min: (0, 0),
            border_max: (height, width),
            shrink_timer: 0,
        }
    }

    /// The board's invariant: the play area is a non-empty rectangle on the
    /// board, and every wall lies on the board.
    pub open spec fn wf(self) -> bool {
        &&& self.border_min.0 < self.border_max.0 <= self.height
        &&& self.border_min.1 < self.border_max.1 <= self.width
        &&& forall|i: int|
            0 <= i < self.walls.len() ==> inside(
                as_cell(#[trigger] self.walls[i]),
                (0, 0),
                (self.height, self.width),
            )
    }

    /// Whether `cell` lies in the play area.
    pub open spec fn in_border(self, cell: Position) -> bool {
        inside(as_cell(cell), self.border_min, self.border_max)
    }

    /// Whether food may lie on `cell`: it is neither part of the snake nor a
    /// wall.
    pub open spec fn free_for_food(self, snake: SnakeView, cell: Position) -> bool {
        !snake.parts.contains(cell) && !self.walls.contains(cell)
    }

    /// Whether a wall or a bonus may lie on `cell`: it is neither part of
    /// the snake, nor a wall, nor the food.
    pub open spec fn free(self, snake: SnakeView, cell: Position) -> bool {
        self.free_for_food(snake, cell) && cell != snake.food
    }

    /// Whether `cell` lies on the board.
    pub open spec fn on_board(self, cell: Position) -> bool {
        inside(as_cell(cell), (0, 0), (self.height, self.width))
    }

    /// Whether this board is `before` with a fresh bonus on `cell`.
    pub open spec fn spawned_from(self, before: GameMapView, cell: Position) -> bool {
        self == before.with_bonus(cell)
    }

    /// This board with a fresh bonus on `cell`, which lives thirty ticks.
    pub open spec fn with_bonus(self, cell: Position) -> GameMapView {
        GameMapView {
            bonus_food: Some(BonusFood { pos: cell, lifetime: BONUS_FOOD_LIFETIME }),
            ..self
        }
    }

    /// Whether a roll of the bonus die lets a bonus appear: the board has
    /// no bonus and the die shows 0, one side of its twenty.
    pub open spec fn bonus_due(self, roll: i32) -> bool {
        self.bonus_food is None && roll == 0
    }

    /// Whether a bonus may be put on `cell`: it lies in the play area and is
    /// free.
    pub open spec fn takes_bonus(self, snake: SnakeView, cell: Position) -> bool {
        self.in_border(cell) && self.free(snake, cell)
    }

    /// The first of `cells` that a bonus may be put on, if there is one.
    pub open spec fn first_taker(self, snake: SnakeView, cells: Seq<Position>) -> Option<
        Position,
    >
        decreases cells.len(),
    {
        if cells.len() == 0 {
            None
        } else if self.takes_bonus(snake, cells[0]) {
            Some(cells[0])
        } else {
            self.first_taker(snake, cells.drop_first())
        }
    }

    /// The cells that count of those drawn for a bonus: the first fifty.
    pub open spec fn tried(cells: Seq<Position>) -> Seq<Position> {
        if cells.len() > BONUS_TRIES {
            cells.take(BONUS_TRIES as int)
        } else {
            cells
        }
    }

    /// The board after the die was rolled and the cells were drawn for a
    /// bonus. Where the roll lets a bonus appear, it appears on the first of
    /// the first fifty cells drawn that it may be put on; where the roll
    /// does not, or none of these cells will do, the board stays as it is.
    pub open spec fn bonus_drawn(
        self,
        snake: SnakeView,
        roll: i32,
        cells: Seq<Position>,
    ) -> GameMapView {
        if self.bonus_due(roll) {
            match self.first_taker(snake, GameMapView::tried(cells)) {
                Some(cell) => self.with_bonus(cell),
                None => self,
            }
        } else {
            self
        }
    }

    /// Whether `roll` and `cells` are what one tick draws for a bonus, no
    /// more and no less. The die is rolled exactly if the board has no
    /// bonus, and shows one of its twenty sides. Cells are drawn only where
    /// the roll lets a bonus appear, from the play area, one after the other
    /// until a bonus may be put on one, and fifty at most.
    pub open spec fn drawn_in_turn(
        self,
        snake: SnakeView,
        roll: Option<i32>,
        cells: Seq<Position>,
    ) -> bool {
        &&& roll is None <==> self.bonus_food is Some
        &&& roll matches Some(side) ==> 0 <= side < BONUS_ODDS
        &&& cells.len() <= BONUS_TRIES
        &&& forall|i: int| 0 <= i < cells.len() ==> self.in_border(#[trigger] cells[i])
        &&& forall|i: int|
            0 <= i < cells.len() - 1 ==> !self.takes_bonus(snake, #[trigger] cells[i])
        &&& if roll == Some(0i32) {
            cells.len() == BONUS_TRIES || (cells.len() > 0 && self.takes_bonus(
                snake,
                cells.last(),
            ))
        } else {
            cells.len() == 0
        }
    }

    /// The board after one tick's draws for a bonus: as it was where the die
    /// was not rolled.
    pub open spec fn after_draws(
        self,
        snake: SnakeView,
        roll: Option<i32>,
        cells: Seq<Position>,
    ) -> GameMapView {
        match roll {
            Some(side) => self.bonus_drawn(snake, side, cells),
            None => self,
        }
    }

    /// The first of `cells` that a bonus may be put on is the one at `hit`
    /// if none before it will do, and there is none if none of `cells` will
    /// do.
    pub proof fn lemma_first_taker(self, snake: SnakeView, cells: Seq<Position>, hit: int)
        requires
            0 <= hit <= cells.len(),
            forall|i: int| 0 <= i < hit ==> !self.takes_bonus(snake, #[trigger] cells[i]),
            hit < cells.len() ==> self.takes_bonus(snake, cells[hit]),
        ensures
            self.first_taker(snake, cells) == (if hit < cells.len() {
                Some(cells[hit])
            } else {
                None
            }),
        decreases cells.len(),
    {
        if cells.len() > 0 && hit > 0 {
            let rest = cells.drop_first();
            assert(!self.takes_bonus(snake, cells[0]));
            assert forall|i: int| 0 <= i < hit - 1 implies !self.takes_bonus(
                snake,
                #[trigger] rest[i],
            ) by {
                assert(rest[i] == cells[i + 1]);
            }
            self.lemma_first_taker(snake, rest, hit - 1);
        }
    }

    /// Whatever is drawn for a bonus, the board stays as it is or gets a
    /// fresh bonus, and that only while it has none, and on a free cell of
    /// the play area; its walls and its border stay, and so does its
    /// invariant.
    pub proof fn lemma_bonus_drawn(self, snake: SnakeView, roll: i32, cells: Seq<Position>)
        ensures
            self.bonus_drawn(snake, roll, cells) == self || (exists|cell: Position|
                {
                    &&& self.bonus_due(roll)
                    &&& self.takes_bonus(snake, cell)
                    &&& #[trigger] self.bonus_drawn(snake, roll, cells).spawned_from(self, cell)
                }),
            self.wf() ==> self.bonus_drawn(snake, roll, cells).wf(),
    {
        let tried = GameMapView::tried(cells);
        if self.bonus_due(roll) {
            self.lemma_taker_takes(snake, tried);
            if self.first_taker(snake, tried) is Some {
                let cell = self.first_taker(snake, tried)->0;
                assert(self.bonus_drawn(snake, roll, cells).spawned_from(self, cell));
            }
        }
    }

    /// The first of `cells` that a bonus may be put on is one of them, and
    /// a bonus may be put on it.
    pub proof fn lemma_taker_takes(self, snake: SnakeView, cells: Seq<Position>)
        ensures
            self.first_taker(snake, cells) matches Some(cell) ==> cells.contains(cell)
                && self.takes_bonus(snake, cell),
        decreases cells.len(),
    {
        if cells.len() > 0 && !self.takes_bonus(snake, cells[0]) {
            let rest = cells.drop_first();
            self.lemma_taker_takes(snake, rest);
            if self.first_taker(snake, rest) is Some {
                let cell = self.first_taker(snake, rest)->0;
                let i = choose|i: int| 0 <= i < rest.len() && rest[i] == cell;
                assert(cells[i + 1] == cell);
            }
        }
    }

    /// The bonus one tick older: one tick less to live, and gone once none
    /// is left.
    pub open spec fn tick_bonus(self) -> GameMapView {
        GameMapView {
            bonus_food: match self.bonus_food {
                Some(bonus) => if bonus.lifetime <= 1 {
                    None
                } else {
                    Some(BonusFood { pos: bonus.pos, lifetime: (bonus.lifetime - 1) as usize })
                },
                None => None,
            },
            ..self
        }
    }

    /// Whether a snake with its head on `head` eats the bonus.
    pub open spec fn bonus_at(self, head: Position) -> bool {
        self.bonus_food matches Some(bonus) && bonus.pos == head
    }

    /// Whether the border may still shrink: it spans more than six rows and
    /// more than six columns.
    pub open spec fn can_shrink(self) -> bool {
        &&& self.border_max.0 - self.border_min.0 > MIN_BORDER_SPAN
        &&& self.border_max.1 - self.border_min.1 > MIN_BORDER_SPAN
    }

    /// The border after a shrink, the `turn`-th counted from one: one edge
    /// moves inwards by one. The edges take turns, in the order first row,
    /// last column, last row, first column, and the first shrink moves the
    /// first row.
    pub open spec fn shrunk_border(self, turn: nat) -> (Position, Position) {
        let (lo, hi) = (self.border_min, self.border_max);
        let edge = (turn - 1) % 4;
        if edge == 0 {
            (((lo.0 + 1) as usize, lo.1), hi)
        } else if edge == 1 {
            (lo, (hi.0, (hi.1 - 1) as usize))
        } else if edge == 2 {
            (lo, ((hi.0 - 1) as usize, hi.1))
        } else {
            ((lo.0, (lo.1 + 1) as usize), hi)
        }
    }

    /// One tick of the shrinking border. The timer counts the tick. On every
    /// fiftieth tick, if the border may still shrink, one edge moves
    /// inwards, the first row on the fiftieth tick, the last column on the
    /// hundredth and so on, and the walls left outside are dropped.
    pub open spec fn update_shrinking_border(self) -> GameMapView {
        let timer = self.shrink_timer + 1;
        if timer % (SHRINK_INTERVAL as nat) != 0 || !self.can_shrink() {
            GameMapView { shrink_timer: timer, ..self }
        } else {
            let (lo, hi) = self.shrunk_border(timer / (SHRINK_INTERVAL as nat));
            GameMapView {
                shrink_timer: timer,
                border_min: lo,
                border_max: hi,
                walls: self.walls.filter(|w: Position| inside(as_cell(w), lo, hi)),
                ..self
            }
        }
    }

    /// The border only closes in, by at most one row or column a tick, and
    /// never below six rows and six columns; walls are only ever dropped.
    pub proof fn lemma_shrink_closes_in(self)
        requires
            self.wf(),
        ensures
            self.update_shrinking_border().wf(),
            self.border_min.0 <= self.update_shrinking_border().border_min.0 <= self.border_min.0
                + 1,
            self.border_min.1 <= self.update_shrinking_border().border_min.1 <= self.border_min.1
                + 1,
            self.border_max.0 - 1 <= self.update_shrinking_border().border_max.0
                <= self.border_max.0,
            self.border_max.1 - 1 <= self.update_shrinking_border().border_max.1
                <= self.border_max.1,
            self.border_max.0 - self.border_min.0 >= MIN_BORDER_SPAN
                ==> self.update_shrinking_border().border_max.0
                - self.update_shrinking_border().border_min.0 >= MIN_BORDER_SPAN,
            self.border_max.1 - self.border_min.1 >= MIN_BORDER_SPAN
                ==> self.update_shrinking_border().border_max.1
                - self.update_shrinking_border().border_min.1 >= MIN_BORDER_SPAN,
            forall|w: Position| #[trigger]
                self.update_shrinking_border().walls.contains(w) ==> self.walls.contains(w),
            forall|w: Position| #[trigger]
                self.update_shrinking_border().walls.contains(w)
                    ==> self.update_shrinking_border().in_border(w) || self.walls
                    == self.update_shrinking_border().walls,
    {
        let next = self.update_shrinking_border();
        let timer = self.shrink_timer + 1;
        if timer % (SHRINK_INTERVAL as nat) == 0 && self.can_shrink() {
            let (lo, hi) = self.shrunk_border(timer / (SHRINK_INTERVAL as nat));
            let keep = |w: Position| inside(as_cell(w), lo, hi);
            assert forall|w: Position| #[trigger] next.walls.contains(w) implies self.walls.contains(
                w,
            ) && next.in_border(w) by {
                self.walls.lemma_filter_contains_rev(keep, w);
                let i = choose|i: int| 0 <= i < next.walls.len() && next.walls[i] == w;
                self.walls.lemma_filter_pred(keep, i);
            }
            assert forall|i: int| 0 <= i < next.walls.len() implies inside(
                as_cell(#[trigger] next.walls[i]),
                (0, 0),
                (next.height, next.width),
            ) by {
                assert(next.walls.contains(next.walls[i]));
                assert(self.walls.contains(next.walls[i]));
            }
        }
    }
}

impl GameMap {
    /// A board at the start of a game.
    pub fn new(width: usize, height: usize) -> (map: GameMap)
        ensures
            map@ == GameMapView::initial(width, height),
            width > 0 && height > 0 ==> map@.wf(),
    {
        GameMap {
            width,
            height,
            walls: Vec::new(),
            bonus_food: None,
            border_min: (0, 0),
            border_max: (height, width),
            shrink_timer: 0,
        }
    }

    /// Ages the bonus by one tick and removes it once its time is up.
    pub fn tick_bonus(&mut self)
        ensures
            final(self)@ == old(self)@.tick_bonus(),
    {
        let aged: Option<BonusFood> = match &self.bonus_food {
            Some(bonus) => {
                let lifetime: usize = bonus.lifetime.saturating_sub(1);
                if lifetime == 0 {
                    None
                } else {
                    Some(BonusFood { pos: bonus.pos, lifetime })
                }
            },
            None => None,
        };
        self.bonus_food = aged;
    }

    /// Lets the snake eat the bonus if its head is on it: the snake scores
    /// three and counts one more cell of length, the bonus goes away, and the
    /// result is true. Otherwise nothing changes and the result is false.
    pub fn check_bonus_eaten(&mut self, snake: &mut Snake) -> (eaten: bool)
        requires
            old(self)@.bonus_at(old(snake).head) ==> old(snake).score + BONUS_FOOD_SCORE
                <= usize::MAX && old(snake).length < usize::MAX,
        ensures
            eaten == old(self)@.bonus_at(old(snake).head),
            eaten ==> final(self)@ == (GameMapView { bonus_food: None, ..old(self)@ })
                && final(snake)@ == (SnakeView {
                score: old(snake)@.score + BONUS_FOOD_SCORE as nat,
                length: old(snake)@.length + 1,
                ..old(snake)@
            }),
            !eaten ==> final(self)@ == old(self)@ && final(snake)@ == old(snake)@,
            final(snake).world == old(snake).world,
            old(snake).wf() ==> final(snake).wf(),
    {
        let on_bonus: bool = match &self.bonus_food {
            Some(bonus) => snake.head.0 == bonus.pos.0 && snake.head.1 == bonus.pos.1,
            None => false,
        };
        if on_bonus {
            snake.score += BONUS_FOOD_SCORE;
            snake.length += 1;
            self.bonus_food = None;
        }
        on_bonus
    }

    /// Whether the board's invariant holds, found out by looking.
    pub fn check(&self) -> (ok: bool)
        ensures
            ok == self@.wf(),
    {
        if !(self.border_min.0 < self.border_max.0 && self.border_max.0 <= self.height
            && self.border_min.1 < self.border_max.1 && self.border_max.1 <= self.width) {
            return false;
        }
        let mut i: usize = 0;
        while i < self.walls.len()
            invariant
                i <= self.walls@.len(),
                forall|k: int|
                    0 <= k < i ==> inside(
                        as_cell(#[trigger] self.walls@[k]),
                        (0, 0),
                        (self.height, self.width),
                    ),
            decreases self.walls@.len() - i,
        {
            if !in_rectangle(self.walls[i], (0, 0), (self.height, self.width)) {
                proof {
                    assert(!inside(
                        as_cell(self@.walls[i as int]),
                        (0, 0),
                        (self@.height, self@.width),
                    ));
                }
                return false;
            }
            i += 1;
        }
        true
    }

    /// Whether food may lie on `cell`.
    pub fn is_free_for_food(&self, snake: &Snake, cell: Position) -> (free: bool)
        ensures
            free == self@.free_for_food(snake@, cell),
    {
        !deque_contains(&snake.parts, cell) && !slice_contains(self.walls.as_slice(), cell)
    }

    /// Whether a wall or a bonus may lie on `cell`.
    pub fn is_free(&self, snake: &Snake, cell: Position) -> (free: bool)
        ensures
            free == self@.free(snake@, cell),
    {
        self.is_free_for_food(snake, cell) && !(cell.0 == snake.food.0 && cell.1 == snake.food.1)
    }

    /// The first cell, row by row, of the rectangle from `lo` to `hi` on
    /// which food (or, with `spare_food`, a wall or a bonus) may lie.
    fn first_free(&self, snake: &Snake, lo: Position, hi: Position, spare_food: bool) -> (found:
        Option<Position>)
        ensures
            match found {
                Some(cell) => inside(as_cell(cell), lo, hi) && (if spare_food {
                    self@.free(snake@, cell)
                } else {
                    self@.free_for_food(snake@, cell)
                }),
                None => forall|cell: Position|
                    inside(as_cell(cell), lo, hi) ==> !(if spare_food {
                        self@.free(snake@, cell)
                    } else {
                        #[trigger] self@.free_for_food(snake@, cell)
                    }),
            },
    {
        let mut r: usize = lo.0;
        while r < hi.0
            invariant
                lo.0 <= r,
                forall|cell: Position|
                    inside(as_cell(cell), lo, hi) && cell.0 < r ==> !(if spare_food {
                        self@.free(snake@, cell)
                    } else {
                        #[trigger] self@.free_for_food(snake@, cell)
                    }),
            decreases hi.0 - r,
        {
            let mut c: usize = lo.1;
            while c < hi.1
                invariant
                    lo.0 <= r < hi.0,
                    lo.1 <= c,
                    forall|cell: Position|
                        inside(as_cell(cell), lo, hi) && (cell.0 < r || (cell.0 == r && cell.1 < c))
                            ==> !(if spare_food {
                            self@.free(snake@, cell)
                        } else {
                            #[trigger] self@.free_for_food(snake@, cell)
                        }),
                decreases hi.1 - c,
            {
                let cell: Position = (r, c);
                let free: bool = if spare_food {
                    self.is_free(snake, cell)
                } else {
                    self.is_free_for_food(snake, cell)
                };
                if free {
                    return Some(cell);
                }
                c += 1;
            }
            r += 1;
        }
        None
    }

    /// Puts the food on `cell` if that cell lies in the play area and is
    /// free, and says whether it did.
    pub fn try_place_food(&self, snake: &mut Snake, cell: Position) -> (placed: bool)
        ensures
            placed == (self@.in_border(cell) && self@.free_for_food(old(snake)@, cell)),
            placed ==> final(snake)@ == (SnakeView {
                food: cell,
                food_eaten: false,
                ..old(snake)@
            }),
            !placed ==> final(snake)@ == old(snake)@,
            final(snake).world == old(snake).world,
            old(snake).wf() ==> final(snake).wf(),
    {
        if in_rectangle(cell, self.border_min, self.border_max) && self.is_free_for_food(
            snake,
            cell,
        ) {
            snake.food = cell;
            snake.food_eaten = false;
            true
        } else {
            false
        }
    }

    /// Puts new food on a free cell of the play area, drawn at random, and
    /// clears the snake's `food_eaten`. After a thousand draws without luck
    /// the first free cell, row by row, is taken. The result is false, and
    /// the snake unchanged, exactly when the play area has no free cell.
    pub fn place_food(&self, snake: &mut Snake, rng: &mut StdRng) -> (placed: bool)
        requires
            self@.wf(),
        ensures
            placed <==> exists|cell: Position|
                self@.in_border(cell) && #[trigger] self@.free_for_food(old(snake)@, cell),
            placed ==> {
                &&& self@.in_border(final(snake).food)
                &&& self@.free_for_food(old(snake)@, final(snake).food)
                &&& final(snake)@ == (SnakeView {
                    food: final(snake).food,
                    food_eaten: false,
                    ..old(snake)@
                })
            },
            !placed ==> final(snake)@ == old(snake)@,
            final(snake).world == old(snake).world,
            old(snake).wf() ==> final(snake).wf(),
    {
        let mut tries: usize = 0;
        while tries < PLACEMENT_TRIES
            invariant
                self@.wf(),
                snake@ == old(snake)@,
                snake.world == old(snake).world,
                old(snake).wf() ==> snake.wf(),
            decreases PLACEMENT_TRIES - tries,
        {
            let r: usize = random_index(rng, self.border_min.0, self.border_max.0);
            let c: usize = random_index(rng, self.border_min.1, self.border_max.1);
            if self.try_place_food(snake, (r, c)) {
                return true;
            }
            tries += 1;
        }
        match self.first_free(snake, self.border_min, self.border_max, false) {
            Some(cell) => self.try_place_food(snake, cell),
            None => false,
        }
    }

    /// Adds a wall on `cell` if that cell lies on the board and is free,
    /// and says whether it did.
    pub fn try_add_wall(&mut self, snake: &Snake, cell: Position) -> (added: bool)
        ensures
            added == (old(self)@.on_board(cell) && old(self)@.free(snake@, cell)),
            added ==> final(self)@ == (GameMapView {
                walls: old(self)@.walls.push(cell),
                ..old(self)@
            }),
            !added ==> final(self)@ == old(self)@,
    {
        if in_rectangle(cell, (0, 0), (self.height, self.width)) && self.is_free(snake, cell) {
            self.walls.push(cell);
            true
        } else {
            false
        }
    }

    /// Whether every wall lies on the board, off the snake and off the
    /// food, and no two walls share a cell.
    pub open spec fn walls_placed(&self, snake: &Snake) -> bool {
        &&& self.walls@.no_duplicates()
        &&& forall|i: int|
            0 <= i < self.walls@.len() ==> {
                &&& self@.on_board(#[trigger] self.walls@[i])
                &&& !snake.parts@.contains(self.walls@[i])
                &&& self.walls@[i] != snake.food
            }
    }

    /// Replaces the walls by `count` new ones on free cells of the board,
    /// drawn at random, no two on one cell and none on the snake or the
    /// food. For each wall, after a thousand draws without luck the first
    /// free cell, row by row, is taken. The result is the number of walls
    /// placed: `count`, or fewer where the board had no free cell left.
    pub fn place_walls(&mut self, count: usize, snake: &Snake, rng: &mut StdRng) -> (placed: usize)
        requires
            old(self).width > 0,
            old(self).height > 0,
        ensures
            final(self)@ == (GameMapView { walls: final(self).walls@, ..old(self)@ }),
            final(self).walls@.len() == placed,
            placed <= count,
            final(self).walls_placed(snake),
            placed < count ==> forall|cell: Position|
                final(self)@.on_board(cell) ==> !#[trigger] final(self)@.free(snake@, cell),
            old(self)@.wf() ==> final(self)@.wf(),
    {
        self.walls.clear();
        let mut placed: usize = 0;
        while placed < count
            invariant
                self@ == (GameMapView { walls: self.walls@, ..old(self)@ }),
                self.width > 0,
                self.height > 0,
                self.walls@.len() == placed,
                placed <= count,
                self.walls_placed(snake),
            decreases count - placed,
        {
            let mut added: bool = false;
            let mut tries: usize = 0;
            while !added && tries < PLACEMENT_TRIES
                invariant
                    self@ == (GameMapView { walls: self.walls@, ..old(self)@ }),
                    self.width > 0,
                    self.height > 0,
                    placed < count,
                    self.walls@.len() == if added {
                        placed + 1
                    } else {
                        placed as int
                    },
                    self.walls_placed(snake),
                decreases PLACEMENT_TRIES - tries + (if added { 0int } else { 1int }),
            {
                let r: usize = random_index(rng, 0, self.height);
                let c: usize = random_index(rng, 0, self.width);
                added = self.try_add_wall(snake, (r, c));
                tries += 1;
            }
            if !added {
                match self.first_free(snake, (0, 0), (self.height, self.width), true) {
                    Some(cell) => {
                        added = self.try_add_wall(snake, cell);
                    },
                    None => {
                        return placed;
                    },
                }
            }
            placed += 1;
        }
        placed
    }

    /// Puts a fresh bonus on `cell` if there is no bonus yet and that cell
    /// lies in the play area and is free, and says whether it did.
    pub fn try_spawn_bonus(&mut self, snake: &Snake, cell: Position) -> (spawned: bool)
        ensures
            spawned == (old(self).bonus_food is None && old(self)@.in_border(cell) && old(
                self,
            )@.free(snake@, cell)),
            spawned ==> final(self)@ == (GameMapView {
                bonus_food: Some(BonusFood { pos: cell, lifetime: BONUS_FOOD_LIFETIME }),
                ..old(self)@
            }),
            !spawned ==> final(self)@ == old(self)@,
    {
        if self.bonus_food.is_none() && in_rectangle(cell, self.border_min, self.border_max)
            && self.is_free(snake, cell) {
            self.bonus_food = Some(BonusFood { pos: cell, lifetime: BONUS_FOOD_LIFETIME });
            true
        } else {
            false
        }
    }

    /// Whether a roll of the bonus die lets a bonus appear.
    pub fn bonus_due(&self, roll: i32) -> (due: bool)
        ensures
            due == (self.bonus_food is None && roll == 0),
            due == self@.bonus_due(roll),
    {
        self.bonus_food.is_none() && roll == 0
    }

    /// Lets a bonus appear for the given roll of the die and the given
    /// cells, drawn in this order. Where the roll lets a bonus appear, it
    /// is put on the first of the first fifty cells that lies in the play
    /// area and is free, and lives thirty ticks. Otherwise, and where none
    /// of these cells will do, the board stays as it is. The result says
    /// whether a bonus appeared.
    pub fn spawn_bonus_from(&mut self, snake: &Snake, roll: i32, cells: &[Position]) -> (spawned:
        bool)
        ensures
            final(self)@ == old(self)@.bonus_drawn(snake@, roll, cells@),
            spawned == (old(self)@.bonus_due(roll) && old(self)@.first_taker(
                snake@,
                GameMapView::tried(cells@),
            ) is Some),
    {
        if !self.bonus_due(roll) {
            return false;
        }
        let tries: usize = if cells.len() > BONUS_TRIES {
            BONUS_TRIES
        } else {
            cells.len()
        };
        let ghost tried = GameMapView::tried(cells@);
        let mut i: usize = 0;
        while i < tries
            invariant
                i <= tries,
                tries == tried.len(),
                tried == GameMapView::tried(cells@),
                forall|k: int| 0 <= k < tries ==> tried[k] == cells@[k],
                self@ == old(self)@,
                old(self)@.bonus_due(roll),
                forall|k: int|
                    0 <= k < i ==> !old(self)@.takes_bonus(snake@, #[trigger] tried[k]),
            decreases tries - i,
        {
            if self.try_spawn_bonus(snake, cells[i]) {
                proof {
                    old(self)@.lemma_first_taker(snake@, tried, i as int);
                }
                return true;
            }
            i += 1;
        }
        proof {
            old(self)@.lemma_first_taker(snake@, tried, tries as int);
        }
        false
    }

    /// Lets a bonus appear now and then. While the board has no bonus, a
    /// twenty-sided die is rolled. If it shows 0, cells of the play area are
    /// drawn at random, fifty at most, until one is free; that one gets a
    /// bonus that lives thirty ticks. Where the die shows another side, or
    /// none of the fifty cells is free, or a bonus is there already, the
    /// board stays as it is.
    ///
    /// The result holds what was drawn. What the die shows and which cells
    /// are drawn is left to chance; the board that comes of them is not.
    pub fn maybe_spawn_bonus(&mut self, snake: &Snake, rng: &mut StdRng) -> (draws: BonusDraws)
        requires
            old(self)@.wf(),
        ensures
            old(self)@.drawn_in_turn(snake@, draws.roll, draws.cells@),
            final(self)@ == old(self)@.after_draws(snake@, draws.roll, draws.cells@),
            final(self)@.wf(),
    {
        let mut cells: Vec<Position> = Vec::new();
        if self.bonus_food.is_some() {
            return BonusDraws { roll: None, cells };
        }
        let roll: i32 = random_roll(rng, BONUS_ODDS);
        if !self.bonus_due(roll) {
            return BonusDraws { roll: Some(roll), cells };
        }
        let mut tries: usize = 0;
        while tries < BONUS_TRIES
            invariant
                tries <= BONUS_TRIES,
                cells@.len() == tries,
                self@ == old(self)@,
                self@.wf(),
                old(self)@.bonus_due(roll),
                forall|k: int| 0 <= k < tries ==> old(self)@.in_border(#[trigger] cells@[k]),
                forall|k: int|
                    0 <= k < tries ==> !old(self)@.takes_bonus(snake@, #[trigger] cells@[k]),
            decreases BONUS_TRIES - tries,
        {
            let r: usize = random_index(rng, self.border_min.0, self.border_max.0);
            let c: usize = random_index(rng, self.border_min.1, self.border_max.1);
            cells.push((r, c));
            if self.try_spawn_bonus(snake, (r, c)) {
                proof {
                    old(self)@.lemma_first_taker(snake@, cells@, tries as int);
                }
                return BonusDraws { roll: Some(roll), cells };
            }
            tries += 1;
        }
        proof {
            old(self)@.lemma_first_taker(snake@, cells@, tries as int);
        }
        BonusDraws { roll: Some(roll), cells }
    }

    /// Whether the border can take its next step in time: the timer has
    /// room to count.
    pub open spec fn can_tick(&self) -> bool {
        self@.wf() && self.shrink_timer < usize::MAX
    }

    /// Counts one tick of the shrinking border. On every fiftieth tick one
    /// edge of the border moves inwards by one, unless that would leave
    /// fewer than six rows or columns. The four edges take turns: the first
    /// row on the fiftieth tick, then the last column, the last row and the
    /// first column, and so on. Walls left outside the new border are
    /// dropped. Whether the snake's head is still inside is for the caller
    /// to see.
    pub fn update_shrinking_border(&mut self, snake: &Snake)
        requires
            old(self).can_tick(),
        ensures
            final(self)@ == old(self)@.update_shrinking_border(),
            final(self)@.wf(),
    {
        proof {
            old(self)@.lemma_shrink_closes_in();
        }
        self.shrink_timer += 1;
        if self.shrink_timer % SHRINK_INTERVAL != 0 {
            return ;
        }
        let (min_r, min_c) = self.border_min;
        let (max_r, max_c) = self.border_max;
        let eff_h: usize = max_r - min_r;
        let eff_w: usize = max_c - min_c;
        if eff_h <= MIN_BORDER_SPAN || eff_w <= MIN_BORDER_SPAN {
            return ;
        }
        let turn: usize = self.shrink_timer / SHRINK_INTERVAL;
        let edge: usize = (turn - 1) % 4;
        if edge == 0 {
            self.border_min.0 = min_r + 1;
        } else if edge == 1 {
            self.border_max.1 = max_c - 1;
        } else if edge == 2 {
            self.border_max.0 = max_r - 1;
        } else {
            self.border_min.1 = min_c + 1;
        }
        let ghost keep = |w: Position| inside(as_cell(w), self.border_min, self.border_max);
        let mut kept: Vec<Position> = Vec::new();
        let mut i: usize = 0;
        while i < self.walls.len()
            invariant
                i <= self.walls@.len(),
                keep == |w: Position| inside(as_cell(w), self.border_min, self.border_max),
                kept@ == self.walls@.take(i as int).filter(keep),
            decreases self.walls@.len() - i,
        {
            let wall: Position = self.walls[i];
            proof {
                assert(self.walls@.take(i + 1) =~= self.walls@.take(i as int).push(wall));
                self.walls@.take(i as int).lemma_filter_push(wall, keep);
            }
            if in_rectangle(wall, self.border_min, self.border_max) {
                kept.push(wall);
            }
            i += 1;
        }
        proof {
            assert(self.walls@.take(i as int) =~= self.walls@);
        }
        self.walls = kept;
        let _ = snake;
    }
}

} // verus!
