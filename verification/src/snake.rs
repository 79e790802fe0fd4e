//! The snake: its body, its pending turns and its movement, one cell per
//! tick.

use crate::config::{Direction, Settings, INITIAL_SNAKE_LENGTH};
use crate::grid::{
    as_cell, as_position, inside, lemma_wrap_edge, lemma_wrap_inside, lemma_wrap_lands_inside,
    plain_step, slice_contains, wrap_into, wrapped_step, Position,
};
use std::collections::VecDeque;
use vstd::prelude::*;

verus! {

/// Most turns that can wait in a snake's queue.
pub const MAX_QUEUED_TURNS: usize = 3;

pub struct Snake {
    /// Body cells, tail first and head last.
    pub parts: VecDeque<Position>,
    pub head: Position,
    pub food: Position,
    /// True exactly on the tick on which the head reached the food.
    pub food_eaten: bool,
    pub is_dead: bool,
    pub length: usize,
    pub direction: Direction,
    /// Turns waiting to be applied, oldest first.
    pub input_queue: VecDeque<Direction>,
    /// For each cell of the board, how many body cells lie on it.
    pub world: Vec<Vec<u8>>,
    pub map_width: usize,
    pub map_height: usize,
    pub score: usize,
}

/// What a snake is, apart from its occupancy grid.
pub struct SnakeView {
    pub parts: Seq<Position>,
    pub head: Position,
    pub food: Position,
    pub food_eaten: bool,
    pub is_dead: bool,
    pub length: nat,
    pub direction: Direction,
    pub input_queue: Seq<Direction>,
    pub map_width: usize,
    pub map_height: usize,
    pub score: nat,
}

impl SnakeView {
    /// A snake at the start of a game: three cells in the middle row, centred,
    /// heading east, with nothing queued.
    pub open spec fn initial(map_width: usize, map_height: usize) -> SnakeView {
        let row = (map_height / 2) as usize;
        let col = (map_width / 2 - 1) as usize;
        SnakeView {
            parts: seq![(row, col), (row, (col + 1) as usize), (row, (col + 2) as usize)],
            head: (row, (col + 2) as usize),
            food: (0, 0),
            food_eaten: false,
            is_dead: false,
            length: INITIAL_SNAKE_LENGTH as nat,
            direction: Direction::East,
            input_queue: Seq::empty(),
            map_width,
            map_height,
            score: 0,
        }
    }

    /// A second player's snake at the start of a game: three cells in the
    /// middle row, right of the centre, heading west.
    pub open spec fn initial_rival(map_width: usize, map_height: usize) -> SnakeView {
        let row = (map_height / 2) as usize;
        let col = (map_width / 2) as usize;
        SnakeView {
            parts: seq![(row, (col + 2) as usize), (row, (col + 1) as usize), (row, col)],
            head: (row, col),
            direction: Direction::West,
            ..SnakeView::initial(map_width, map_height)
        }
    }

    /// The snake back at the start of a game, on the same board and with the
    /// same food.
    pub open spec fn reset(self) -> SnakeView {
        SnakeView { food: self.food, ..SnakeView::initial(self.map_width, self.map_height) }
    }

    /// A second player's snake back at the start of a game, on the same
    /// board and with the same food.
    pub open spec fn reset_rival(self) -> SnakeView {
        SnakeView { food: self.food, ..SnakeView::initial_rival(self.map_width, self.map_height) }
    }
}

impl SnakeView {
    /// The direction a new turn is held against: the newest one queued, or
    /// the current one while nothing is queued.
    pub open spec fn last_turn(self) -> Direction {
        if self.input_queue.len() == 0 {
            self.direction
        } else {
            self.input_queue.last()
        }
    }

    /// Whether `dir` would be queued: the queue has room, and `dir` neither
    /// repeats nor reverses the turn before it.
    pub open spec fn accepts(self, dir: Direction) -> bool {
        &&& self.input_queue.len() < MAX_QUEUED_TURNS
        &&& dir != self.last_turn()
        &&& dir != self.last_turn().opposite()
    }

    pub open spec fn queue_direction(self, dir: Direction) -> SnakeView {
        if self.accepts(dir) {
            SnakeView { input_queue: self.input_queue.push(dir), ..self }
        } else {
            self
        }
    }

    /// Takes the oldest queued turn, if there is one, and makes it the
    /// direction unless it is the reverse of the current one.
    pub open spec fn apply_queued_input(self) -> SnakeView {
        if self.input_queue.len() == 0 {
            self
        } else {
            let next = self.input_queue[0];
            SnakeView {
                input_queue: self.input_queue.drop_first(),
                direction: if next != self.direction.opposite() {
                    next
                } else {
                    self.direction
                },
                ..self
            }
        }
    }

    /// The cell one step ahead of the head, which may lie off the board.
    pub open spec fn ahead(self) -> (int, int) {
        (self.head.0 + self.direction.spec_delta().0, self.head.1 + self.direction.spec_delta().1)
    }

    /// The cell the head moves to next: the cell ahead, folded into the
    /// border where the snake wraps around.
    pub open spec fn target(self, wrap: bool, border_min: Position, border_max: Position) -> (
        int,
        int,
    ) {
        if wrap {
            wrap_into(self.ahead(), border_min, border_max)
        } else {
            self.ahead()
        }
    }

    /// Whether the next step is stopped: without wrapping the cell ahead
    /// lies outside the border, or the target cell is a wall.
    pub open spec fn blocked(
        self,
        wrap: bool,
        walls: Seq<Position>,
        border_min: Position,
        border_max: Position,
    ) -> bool {
        ||| !wrap && !inside(self.ahead(), border_min, border_max)
        ||| walls.contains(as_position(self.target(wrap, border_min, border_max)))
    }

    /// The body that the arriving head is held against: all of it where the
    /// snake grows on `cell`, all but the tail otherwise.
    pub open spec fn body_met(self, cell: Position) -> Seq<Position> {
        if cell == self.food {
            self.parts
        } else {
            self.parts.drop_first()
        }
    }

    /// One tick of movement. A stopped snake dies and is otherwise
    /// unchanged. Else the head moves to the target cell; on the food the
    /// snake grows and scores, elsewhere the tail follows; and the snake
    /// dies if the head arrives on its own body.
    pub open spec fn update_movement(
        self,
        wrap: bool,
        walls: Seq<Position>,
        border_min: Position,
        border_max: Position,
    ) -> SnakeView {
        if self.blocked(wrap, walls, border_min, border_max) {
            SnakeView { is_dead: true, ..self }
        } else {
            let cell = as_position(self.target(wrap, border_min, border_max));
            let grows = cell == self.food;
            SnakeView {
                head: cell,
                parts: self.body_met(cell).push(cell),
                food_eaten: grows,
                length: if grows {
                    self.length + 1
                } else {
                    self.length
                },
                score: if grows {
                    self.score + 1
                } else {
                    self.score
                },
                is_dead: self.is_dead || self.body_met(cell).contains(cell),
                ..self
            }
        }
    }
}

impl SnakeView {
    /// The snake after `ticks` ticks of movement with nothing else happening
    /// in between. A dead snake moves no more.
    pub open spec fn run(
        self,
        ticks: nat,
        wrap: bool,
        walls: Seq<Position>,
        border_min: Position,
        border_max: Position,
    ) -> SnakeView
        decreases ticks,
    {
        if ticks == 0 || self.is_dead {
            self
        } else {
            self.update_movement(wrap, walls, border_min, border_max).run(
                (ticks - 1) as nat,
                wrap,
                walls,
                border_min,
                border_max,
            )
        }
    }

    /// How many steps the head can take in its direction before the next
    /// one leaves the border, counting that one.
    pub open spec fn reach(self, border_min: Position, border_max: Position) -> nat {
        match self.direction {
            Direction::East => if self.head.1 < border_max.1 {
                (border_max.1 - self.head.1) as nat
            } else {
                1
            },
            Direction::South => if self.head.0 < border_max.0 {
                (border_max.0 - self.head.0) as nat
            } else {
                1
            },
            Direction::West => if self.head.1 >= border_min.1 {
                (self.head.1 - border_min.1 + 1) as nat
            } else {
                1
            },
            Direction::North => if self.head.0 >= border_min.0 {
                (self.head.0 - border_min.0 + 1) as nat
            } else {
                1
            },
        }
    }

    /// Whether no queued turn repeats or reverses the one before it, the
    /// first being held against the current direction.
    pub open spec fn turns_legal(self) -> bool {
        forall|i: int|
            0 <= i < self.input_queue.len() ==> {
                let before = if i == 0 {
                    self.direction
                } else {
                    self.input_queue[i - 1]
                };
                (#[trigger] self.input_queue[i]) != before && self.input_queue[i]
                    != before.opposite()
            }
    }

    /// A new snake has three cells, is alive and ends in its head.
    pub proof fn lemma_initial(map_width: usize, map_height: usize)
        ensures
            SnakeView::initial(map_width, map_height).parts.len() == INITIAL_SNAKE_LENGTH,
            SnakeView::initial(map_width, map_height).length == INITIAL_SNAKE_LENGTH,
            !SnakeView::initial(map_width, map_height).is_dead,
            SnakeView::initial(map_width, map_height).head == SnakeView::initial(
                map_width,
                map_height,
            ).parts.last(),
            SnakeView::initial(map_width, map_height).turns_legal(),
    {
    }

    /// Resetting gives three cells, no score and a live snake, whatever the
    /// snake was before.
    pub proof fn lemma_reset(self)
        ensures
            self.reset().parts.len() == INITIAL_SNAKE_LENGTH,
            self.reset().length == INITIAL_SNAKE_LENGTH,
            self.reset().score == 0,
            !self.reset().is_dead,
            self.reset().input_queue.len() == 0,
            self.reset().direction == Direction::East,
    {
    }

    /// With nothing queued, the reverse of the current direction is not
    /// queued: the queue stays empty.
    pub proof fn lemma_reverse_not_queued(self)
        requires
            self.input_queue.len() == 0,
        ensures
            self.queue_direction(self.direction.opposite()) == self,
            self.queue_direction(self.direction.opposite()).input_queue.len() == 0,
    {
    }

    /// Queuing the same direction twice in a row queues it at most once.
    pub proof fn lemma_queue_twice(self, dir: Direction)
        ensures
            self.queue_direction(dir).queue_direction(dir) == self.queue_direction(dir),
    {
    }

    /// The queue never grows past three turns.
    pub proof fn lemma_queue_bounded(self, dir: Direction)
        requires
            self.input_queue.len() <= MAX_QUEUED_TURNS,
        ensures
            self.queue_direction(dir).input_queue.len() <= MAX_QUEUED_TURNS,
            self.apply_queued_input().input_queue.len() <= MAX_QUEUED_TURNS,
    {
    }

    /// Queuing keeps the queue free of repeats and reversals.
    pub proof fn lemma_queue_keeps_legal(self, dir: Direction)
        requires
            self.turns_legal(),
        ensures
            self.queue_direction(dir).turns_legal(),
    {
        let next = self.queue_direction(dir);
        assert forall|i: int| 0 <= i < next.input_queue.len() implies {
            let before = if i == 0 {
                next.direction
            } else {
                next.input_queue[i - 1]
            };
            (#[trigger] next.input_queue[i]) != before && next.input_queue[i] != before.opposite()
        } by {
            if i < self.input_queue.len() {
                assert(next.input_queue[i] == self.input_queue[i]);
            }
        }
    }

    /// From a queue free of reversals the oldest turn is always committed,
    /// the direction never turns around, and the rest of the queue stays
    /// free of repeats and reversals.
    pub proof fn lemma_apply_commits(self)
        requires
            self.turns_legal(),
            self.input_queue.len() > 0,
        ensures
            self.apply_queued_input().direction == self.input_queue[0],
            self.apply_queued_input().direction != self.direction.opposite(),
            self.apply_queued_input().turns_legal(),
    {
        let next = self.apply_queued_input();
        assert(self.input_queue[0] != self.direction.opposite());
        assert forall|i: int| 0 <= i < next.input_queue.len() implies {
            let before = if i == 0 {
                next.direction
            } else {
                next.input_queue[i - 1]
            };
            (#[trigger] next.input_queue[i]) != before && next.input_queue[i] != before.opposite()
        } by {
            assert(next.input_queue[i] == self.input_queue[i + 1]);
        }
    }

    /// Applying a queued turn never reverses the direction, whatever is
    /// queued.
    pub proof fn lemma_never_reverses(self)
        ensures
            self.apply_queued_input().direction != self.direction.opposite(),
    {
    }

    /// A free cell ahead inside the border is where the head goes, with or
    /// without wrapping. Heading east that is one column further in the same
    /// row.
    pub proof fn lemma_step_ahead(
        self,
        wrap: bool,
        walls: Seq<Position>,
        border_min: Position,
        border_max: Position,
    )
        requires
            inside(self.ahead(), border_min, border_max),
            !walls.contains(as_position(self.ahead())),
        ensures
            !self.blocked(wrap, walls, border_min, border_max),
            as_cell(self.update_movement(wrap, walls, border_min, border_max).head)
                == self.ahead(),
            self.direction == Direction::East ==> {
                &&& self.update_movement(wrap, walls, border_min, border_max).head.0
                    == self.head.0
                &&& self.update_movement(wrap, walls, border_min, border_max).head.1
                    == self.head.1 + 1
            },
    {
        lemma_wrap_inside(self.ahead(), border_min, border_max);
    }

    /// A wall on the target cell kills the snake and changes nothing else.
    pub proof fn lemma_wall_kills(
        self,
        wrap: bool,
        walls: Seq<Position>,
        border_min: Position,
        border_max: Position,
    )
        requires
            walls.contains(as_position(self.target(wrap, border_min, border_max))),
        ensures
            self.update_movement(wrap, walls, border_min, border_max) == (SnakeView {
                is_dead: true,
                ..self
            }),
    {
    }

    /// Without wrapping, a step out of the border kills the snake and
    /// changes nothing else.
    pub proof fn lemma_border_kills(
        self,
        walls: Seq<Position>,
        border_min: Position,
        border_max: Position,
    )
        requires
            !inside(self.ahead(), border_min, border_max),
        ensures
            self.update_movement(false, walls, border_min, border_max) == (SnakeView {
                is_dead: true,
                ..self
            }),
    {
    }

    /// Without wrapping, a snake that keeps its direction is dead after at
    /// most `reach` ticks, whatever else is on the board.
    pub proof fn lemma_border_is_reached(
        self,
        ticks: nat,
        walls: Seq<Position>,
        border_min: Position,
        border_max: Position,
    )
        requires
            ticks >= self.reach(border_min, border_max),
        ensures
            self.run(ticks, false, walls, border_min, border_max).is_dead,
        decreases ticks,
    {
        if !self.is_dead {
            let next = self.update_movement(false, walls, border_min, border_max);
            if !self.blocked(false, walls, border_min, border_max) {
                assert(inside(self.ahead(), border_min, border_max));
                assert(as_cell(next.head) == self.ahead());
                assert(next.direction == self.direction);
                assert(next.reach(border_min, border_max) == self.reach(border_min, border_max)
                    - 1);
                next.lemma_border_is_reached((ticks - 1) as nat, walls, border_min, border_max);
            }
        }
    }

    /// With wrapping the target cell always lies inside the border, so the
    /// border never stops or kills the snake: only a wall or its own body
    /// does.
    pub proof fn lemma_wrap_never_leaves(
        self,
        walls: Seq<Position>,
        border_min: Position,
        border_max: Position,
    )
        requires
            border_min.0 < border_max.0,
            border_min.1 < border_max.1,
        ensures
            inside(self.target(true, border_min, border_max), border_min, border_max),
            self.blocked(true, walls, border_min, border_max) <==> walls.contains(
                as_position(self.target(true, border_min, border_max)),
            ),
            self.update_movement(true, walls, border_min, border_max).is_dead <==> {
                ||| self.is_dead
                ||| walls.contains(as_position(self.target(true, border_min, border_max)))
                ||| self.body_met(as_position(self.target(true, border_min, border_max))).contains(
                    as_position(self.target(true, border_min, border_max)),
                )
            },
    {
        lemma_wrap_lands_inside(self.ahead(), border_min, border_max);
    }

    /// With wrapping, a head that steps over an edge of the border comes
    /// back on the opposite edge, in the same row or column.
    pub proof fn lemma_wrap_reappears(self, border_min: Position, border_max: Position)
        requires
            inside(as_cell(self.head), border_min, border_max),
        ensures
            self.target(true, border_min, border_max) == (match self.direction {
                Direction::East => if self.head.1 + 1 == border_max.1 {
                    (self.head.0 as int, border_min.1 as int)
                } else {
                    (self.head.0 as int, self.head.1 + 1)
                },
                Direction::West => if self.head.1 == border_min.1 {
                    (self.head.0 as int, border_max.1 - 1)
                } else {
                    (self.head.0 as int, self.head.1 - 1)
                },
                Direction::South => if self.head.0 + 1 == border_max.0 {
                    (border_min.0 as int, self.head.1 as int)
                } else {
                    (self.head.0 + 1, self.head.1 as int)
                },
                Direction::North => if self.head.0 == border_min.0 {
                    (border_max.0 - 1, self.head.1 as int)
                } else {
                    (self.head.0 - 1, self.head.1 as int)
                },
            }),
    {
        let rows = border_max.0 - border_min.0;
        let cols = border_max.1 - border_min.1;
        let a = self.ahead();
        lemma_wrap_edge(a.0 - border_min.0, rows);
        lemma_wrap_edge(a.1 - border_min.1, cols);
    }

    /// A head that arrives on the food eats it: the snake grows by one cell
    /// and scores one. Anywhere else it keeps its length and its score.
    pub proof fn lemma_food(
        self,
        wrap: bool,
        walls: Seq<Position>,
        border_min: Position,
        border_max: Position,
    )
        requires
            self.parts.len() >= 1,
            !self.blocked(wrap, walls, border_min, border_max),
        ensures
            ({
                let next = self.update_movement(wrap, walls, border_min, border_max);
                if as_position(self.target(wrap, border_min, border_max)) == self.food {
                    &&& next.food_eaten
                    &&& next.length == self.length + 1
                    &&& next.score == self.score + 1
                    &&& next.parts.len() == self.parts.len() + 1
                    &&& next.parts == self.parts.push(self.food)
                } else {
                    &&& !next.food_eaten
                    &&& next.length == self.length
                    &&& next.score == self.score
                    &&& next.parts.len() == self.parts.len()
                }
            }),
    {
    }

    /// A head that arrives on a cell of its own body, the leaving tail
    /// aside, dies.
    pub proof fn lemma_self_collision(
        self,
        i: int,
        wrap: bool,
        walls: Seq<Position>,
        border_min: Position,
        border_max: Position,
    )
        requires
            !self.blocked(wrap, walls, border_min, border_max),
            0 < i < self.parts.len(),
            self.parts[i] == as_position(self.target(wrap, border_min, border_max)),
        ensures
            self.update_movement(wrap, walls, border_min, border_max).is_dead,
    {
        let cell = as_position(self.target(wrap, border_min, border_max));
        if cell == self.food {
            assert(self.body_met(cell)[i] == cell);
        } else {
            assert(self.body_met(cell)[i - 1] == cell);
        }
    }
}

impl View for Snake {
    type V = SnakeView;

    open spec fn view(&self) -> SnakeView {
        SnakeView {
            parts: self.parts@,
            head: self.head,
            food: self.food,
            food_eaten: self.food_eaten,
            is_dead: self.is_dead,
            length: self.length as nat,
            direction: self.direction,
            input_queue: self.input_queue@,
            map_width: self.map_width,
            map_height: self.map_height,
            score: self.score as nat,
        }
    }
}

/// Whether `grid` has `height` rows of `width` counters each.
pub open spec fn grid_shaped(grid: Seq<Vec<u8>>, width: usize, height: usize) -> bool {
    &&& grid.len() == height
    &&& forall|r: int| 0 <= r < height ==> (#[trigger] grid[r])@.len() == width
}

/// Whether every counter of `grid` is the number of times its cell occurs
/// in `parts`.
pub open spec fn grid_counts(grid: Seq<Vec<u8>>, parts: Seq<Position>) -> bool {
    forall|r: int, c: int|
        0 <= r < grid.len() && 0 <= c < grid[r]@.len() ==> (#[trigger] grid[r]@[c])
            == parts.to_multiset().count((r as usize, c as usize))
}

impl Snake {
    /// Whether a board of this size has room for a new snake.
    pub open spec fn fits(map_width: usize, map_height: usize) -> bool {
        map_width >= INITIAL_SNAKE_LENGTH && map_height >= 1
    }

    /// Whether a board of this size has room for a second player's new
    /// snake.
    pub open spec fn fits_rival(map_width: usize, map_height: usize) -> bool {
        map_width >= INITIAL_SNAKE_LENGTH + 2 && map_height >= 1
    }

    /// The snake's invariant: the body has three cells or more and no more
    /// than `length` says, ends in the head and lies on the board; the
    /// occupancy grid has the board's shape and counts the body; a live
    /// snake occupies no cell twice; and at most three turns are queued.
    pub open spec fn wf(&self) -> bool {
        &&& Snake::fits(self.map_width, self.map_height)
        &&& grid_shaped(self.world@, self.map_width, self.map_height)
        &&& self.parts@.len() >= INITIAL_SNAKE_LENGTH
        &&& self.length >= self.parts@.len()
        &&& self.head == self.parts@.last()
        &&& forall|i: int|
            0 <= i < self.parts@.len() ==> inside(
                as_cell(#[trigger] self.parts@[i]),
                (0, 0),
                (self.map_height, self.map_width),
            )
        &&& grid_counts(self.world@, self.parts@)
        &&& !self.is_dead ==> self.parts@.no_duplicates()
        &&& self.input_queue@.len() <= MAX_QUEUED_TURNS
    }
}

impl Snake {
    /// A snake at the start of a game on a board of the given size.
    pub fn new(map_width: usize, map_height: usize) -> (snake: Snake)
        requires
            Snake::fits(map_width, map_height),
        ensures
            snake.wf(),
            snake@ == SnakeView::initial(map_width, map_height),
            snake.parts@.len() == INITIAL_SNAKE_LENGTH,
            snake.length == INITIAL_SNAKE_LENGTH,
            !snake.is_dead,
            snake.head == snake.parts@.last(),
    {
        let mut snake = Snake {
            parts: VecDeque::new(),
            head: (0, 0),
            food: (0, 0),
            food_eaten: false,
            is_dead: false,
            length: INITIAL_SNAKE_LENGTH,
            direction: Direction::East,
            input_queue: VecDeque::new(),
            world: blank_grid(map_width, map_height),
            map_width,
            map_height,
            score: 0,
        };
        proof {
            lemma_grid_blank(snake.world@, snake.parts@);
        }
        snake.initialize();
        snake
    }

    /// A second player's snake at the start of a game on a board of the
    /// given size.
    pub fn new_rival(map_width: usize, map_height: usize) -> (snake: Snake)
        requires
            Snake::fits_rival(map_width, map_height),
        ensures
            snake.wf(),
            snake@ == SnakeView::initial_rival(map_width, map_height),
    {
        let mut snake = Snake {
            parts: VecDeque::new(),
            head: (0, 0),
            food: (0, 0),
            food_eaten: false,
            is_dead: false,
            length: INITIAL_SNAKE_LENGTH,
            direction: Direction::West,
            input_queue: VecDeque::new(),
            world: blank_grid(map_width, map_height),
            map_width,
            map_height,
            score: 0,
        };
        proof {
            lemma_grid_blank(snake.world@, snake.parts@);
        }
        snake.initialize_rival();
        snake
    }

    /// Whether `reset` can rebuild this snake: its board has room for a new
    /// snake and its occupancy grid has the board's shape.
    pub open spec fn resettable(&self) -> bool {
        &&& Snake::fits(self.map_width, self.map_height)
        &&& grid_shaped(self.world@, self.map_width, self.map_height)
    }

    /// Puts the snake back at the start of a game, whatever became of it:
    /// three cells, no score, alive, heading east, nothing queued. The board
    /// and the food stay.
    pub fn reset(&mut self)
        requires
            old(self).resettable(),
        ensures
            final(self).wf(),
            final(self)@ == old(self)@.reset(),
            final(self).parts@.len() == INITIAL_SNAKE_LENGTH,
            final(self).length == INITIAL_SNAKE_LENGTH,
            final(self).score == 0,
            !final(self).is_dead,
    {
        self.direction = Direction::East;
        self.clear();
        self.initialize();
    }

    /// Puts a second player's snake back at the start of a game, whatever
    /// became of it. The board and the food stay.
    pub fn reset_rival(&mut self)
        requires
            old(self).resettable(),
            Snake::fits_rival(old(self).map_width, old(self).map_height),
        ensures
            final(self).wf(),
            final(self)@ == old(self)@.reset_rival(),
    {
        self.direction = Direction::West;
        self.clear();
        self.initialize_rival();
    }

    /// Empties the body, the queue and the occupancy grid, and takes the
    /// score, the length and the flags back to those of a new snake.
    fn clear(&mut self)
        requires
            grid_shaped(old(self).world@, old(self).map_width, old(self).map_height),
        ensures
            final(self)@ == (SnakeView {
                parts: Seq::empty(),
                input_queue: Seq::empty(),
                food_eaten: false,
                is_dead: false,
                length: INITIAL_SNAKE_LENGTH as nat,
                score: 0,
                ..old(self)@
            }),
            grid_shaped(final(self).world@, final(self).map_width, final(self).map_height),
            grid_counts(final(self).world@, final(self).parts@),
    {
        self.input_queue.clear();
        self.food_eaten = false;
        self.is_dead = false;
        self.length = INITIAL_SNAKE_LENGTH;
        self.score = 0;
        self.parts.clear();
        let mut r: usize = 0;
        while r < self.map_height
            invariant
                r <= self.map_height,
                grid_shaped(self.world@, self.map_width, self.map_height),
                forall|i: int, c: int|
                    0 <= i < r && 0 <= c < self.map_width ==> (#[trigger] self.world@[i]@[c]) == 0,
                self@ == (SnakeView {
                    parts: Seq::empty(),
                    input_queue: Seq::empty(),
                    food_eaten: false,
                    is_dead: false,
                    length: INITIAL_SNAKE_LENGTH as nat,
                    score: 0,
                    ..old(self)@
                }),
            decreases self.map_height - r,
        {
            let mut c: usize = 0;
            while c < self.map_width
                invariant
                    r < self.map_height,
                    c <= self.map_width,
                    grid_shaped(self.world@, self.map_width, self.map_height),
                    forall|i: int, j: int|
                        0 <= i < r && 0 <= j < self.map_width ==> (#[trigger] self.world@[i]@[j])
                            == 0,
                    forall|j: int| 0 <= j < c ==> (#[trigger] self.world@[r as int]@[j]) == 0,
                    self@ == (SnakeView {
                        parts: Seq::empty(),
                        input_queue: Seq::empty(),
                        food_eaten: false,
                        is_dead: false,
                        length: INITIAL_SNAKE_LENGTH as nat,
                        score: 0,
                        ..old(self)@
                    }),
                decreases self.map_width - c,
            {
                self.world[r][c] = 0;
                c += 1;
            }
            r += 1;
        }
        proof {
            lemma_grid_blank(self.world@, self.parts@);
        }
    }

    /// Makes `cell` the new head: appends it to the body and counts it in
    /// the occupancy grid.
    fn occupy(&mut self, cell: Position)
        requires
            grid_shaped(old(self).world@, old(self).map_width, old(self).map_height),
            grid_counts(old(self).world@, old(self).parts@),
            cell.0 < old(self).map_height,
            cell.1 < old(self).map_width,
            old(self).world@[cell.0 as int]@[cell.1 as int] < u8::MAX,
        ensures
            final(self)@ == (SnakeView {
                parts: old(self).parts@.push(cell),
                head: cell,
                ..old(self)@
            }),
            grid_shaped(final(self).world@, final(self).map_width, final(self).map_height),
            grid_counts(final(self).world@, final(self).parts@),
            final(self).world@[cell.0 as int]@[cell.1 as int] == old(self).world@[cell.0 as int]@[cell.1 as int]
                + 1,
    {
        let ghost before = self.world@;
        let ghost body = self.parts@;
        self.head = cell;
        self.parts.push_back(cell);
        self.world[cell.0][cell.1] += 1;
        proof {
            lemma_grid_push(before, self.world@, body, cell, self.map_width, self.map_height);
        }
    }

    /// Queues a turn. It is taken only while fewer than three turns wait and
    /// it neither repeats nor reverses the turn before it (the newest one
    /// queued, or the current direction); otherwise it is dropped.
    pub fn queue_direction(&mut self, dir: Direction)
        ensures
            final(self)@ == old(self)@.queue_direction(dir),
            final(self).world == old(self).world,
            old(self).wf() ==> final(self).wf(),
            old(self).input_queue@.len() == 0 && dir == old(self).direction.opposite()
                ==> final(self).input_queue@.len() == 0,
    {
        if self.input_queue.len() < MAX_QUEUED_TURNS {
            let last: Direction = if self.input_queue.len() == 0 {
                self.direction
            } else {
                self.input_queue[self.input_queue.len() - 1]
            };
            if dir != last.opposite() && dir != last {
                self.input_queue.push_back(dir);
            }
        }
    }

    /// Commits the oldest queued turn, if any, as the new direction, unless
    /// it is the reverse of the current one. The direction never turns
    /// around in one tick.
    pub fn apply_queued_input(&mut self)
        ensures
            final(self)@ == old(self)@.apply_queued_input(),
            final(self).world == old(self).world,
            old(self).wf() ==> final(self).wf(),
            final(self).direction != old(self).direction.opposite(),
    {
        if let Some(next) = self.input_queue.pop_front() {
            if next != self.direction.opposite() {
                self.direction = next;
            }
            proof {
                assert(self.input_queue@ =~= old(self).input_queue@.drop_first());
            }
        }
    }

    /// Whether the snake's invariant holds, found out by looking: the grid
    /// is measured, every part is held against the board, and every cell's
    /// counter against the body.
    pub fn check(&self) -> (ok: bool)
        ensures
            ok == self.wf(),
    {
        if self.map_width < INITIAL_SNAKE_LENGTH || self.map_height < 1 {
            return false;
        }
        if !self.grid_fits() {
            return false;
        }
        if self.parts.len() < INITIAL_SNAKE_LENGTH || self.length < self.parts.len()
            || self.input_queue.len() > MAX_QUEUED_TURNS {
            return false;
        }
        let last: Position = self.parts[self.parts.len() - 1];
        if last.0 != self.head.0 || last.1 != self.head.1 {
            return false;
        }
        if !self.parts_fit() {
            return false;
        }
        let most: Option<u8> = self.grid_tallies();
        match most {
            None => false,
            Some(most) => {
                proof {
                    lemma_no_duplicates_by_counts(
                        self.world@,
                        self.parts@,
                        self.map_width,
                        self.map_height,
                    );
                }
                self.is_dead || most <= 1
            },
        }
    }

    /// Whether the occupancy grid has the board's shape.
    fn grid_fits(&self) -> (ok: bool)
        ensures
            ok == grid_shaped(self.world@, self.map_width, self.map_height),
    {
        if self.world.len() != self.map_height {
            return false;
        }
        let mut r: usize = 0;
        while r < self.map_height
            invariant
                r <= self.map_height,
                self.world@.len() == self.map_height,
                forall|i: int| 0 <= i < r ==> (#[trigger] self.world@[i])@.len() == self.map_width,
            decreases self.map_height - r,
        {
            if self.world[r].len() != self.map_width {
                return false;
            }
            r += 1;
        }
        true
    }

    /// Whether every part of the body lies on the board.
    fn parts_fit(&self) -> (ok: bool)
        ensures
            ok == (forall|i: int|
                0 <= i < self.parts@.len() ==> inside(
                    as_cell(#[trigger] self.parts@[i]),
                    (0, 0),
                    (self.map_height, self.map_width),
                )),
    {
        let mut i: usize = 0;
        while i < self.parts.len()
            invariant
                i <= self.parts@.len(),
                forall|k: int|
                    0 <= k < i ==> inside(
                        as_cell(#[trigger] self.parts@[k]),
                        (0, 0),
                        (self.map_height, self.map_width),
                    ),
            decreases self.parts@.len() - i,
        {
            let part: Position = self.parts[i];
            if part.0 >= self.map_height || part.1 >= self.map_width {
                return false;
            }
            i += 1;
        }
        true
    }

    /// How often `cell` occurs in the body.
    fn occurrences(&self, cell: Position) -> (n: usize)
        ensures
            n == self.parts@.to_multiset().count(cell),
    {
        let mut n: usize = 0;
        let mut i: usize = 0;
        proof {
            broadcast use vstd::seq_lib::group_to_multiset_ensures;

            assert(!self.parts@.take(0).contains(cell));
        }
        while i < self.parts.len()
            invariant
                i <= self.parts@.len(),
                n <= i,
                n == self.parts@.take(i as int).to_multiset().count(cell),
            decreases self.parts@.len() - i,
        {
            let part: Position = self.parts[i];
            proof {
                broadcast use vstd::seq_lib::group_to_multiset_ensures;
                broadcast use vstd::multiset::group_multiset_axioms;

                assert(self.parts@.take(i + 1) =~= self.parts@.take(i as int).push(part));
            }
            if part.0 == cell.0 && part.1 == cell.1 {
                n += 1;
            }
            i += 1;
        }
        proof {
            assert(self.parts@.take(i as int) =~= self.parts@);
        }
        n
    }

    /// Holds every counter of the grid against the body. The result is the
    /// largest counter if they all agree with the body, and `None` if one
    /// does not.
    fn grid_tallies(&self) -> (most: Option<u8>)
        requires
            grid_shaped(self.world@, self.map_width, self.map_height),
        ensures
            most is Some == grid_counts(self.world@, self.parts@),
            most matches Some(top) ==> (forall|r: int, c: int|
                0 <= r < self.map_height && 0 <= c < self.map_width ==> (
                #[trigger] self.world@[r]@[c]) <= top) && (top > 0 ==> exists|r: int, c: int|
                0 <= r < self.map_height && 0 <= c < self.map_width && (
                #[trigger] self.world@[r]@[c]) == top),
    {
        let mut top: u8 = 0;
        let mut r: usize = 0;
        while r < self.map_height
            invariant
                r <= self.map_height,
                grid_shaped(self.world@, self.map_width, self.map_height),
                forall|i: int, c: int|
                    0 <= i < r && 0 <= c < self.map_width ==> (#[trigger] self.world@[i]@[c])
                        == self.parts@.to_multiset().count((i as usize, c as usize))
                        && self.world@[i]@[c] <= top,
                top > 0 ==> exists|i: int, c: int|
                    0 <= i < self.map_height && 0 <= c < self.map_width && (
                    #[trigger] self.world@[i]@[c]) == top,
            decreases self.map_height - r,
        {
            let mut c: usize = 0;
            while c < self.map_width
                invariant
                    r < self.map_height,
                    c <= self.map_width,
                    grid_shaped(self.world@, self.map_width, self.map_height),
                    forall|i: int, j: int|
                        0 <= i < r && 0 <= j < self.map_width ==> (#[trigger] self.world@[i]@[j])
                            == self.parts@.to_multiset().count((i as usize, j as usize))
                            && self.world@[i]@[j] <= top,
                    forall|j: int|
                        0 <= j < c ==> (#[trigger] self.world@[r as int]@[j])
                            == self.parts@.to_multiset().count((r, j as usize))
                            && self.world@[r as int]@[j] <= top,
                    top > 0 ==> exists|i: int, j: int|
                        0 <= i < self.map_height && 0 <= j < self.map_width && (
                        #[trigger] self.world@[i]@[j]) == top,
                decreases self.map_width - c,
            {
                let counter: u8 = self.world[r][c];
                if self.occurrences((r, c)) != counter as usize {
                    proof {
                        assert(self.world@[r as int]@[c as int]
                            != self.parts@.to_multiset().count((r, c)));
                    }
                    return None;
                }
                if counter > top {
                    top = counter;
                    proof {
                        assert(self.world@[r as int]@[c as int] == top);
                    }
                }
                c += 1;
            }
            r += 1;
        }
        Some(top)
    }

    /// Whether `update_movement` can run: the snake is well formed and
    /// alive, the border is a non-empty rectangle on the board, and the
    /// counters have room to grow.
    pub open spec fn can_move(&self, border_min: Position, border_max: Position) -> bool {
        &&& self.wf()
        &&& !self.is_dead
        &&& border_min.0 < border_max.0 <= self.map_height
        &&& border_min.1 < border_max.1 <= self.map_width
        &&& self.length < usize::MAX
        &&& self.score < usize::MAX
    }

    /// Moves the snake by one cell in its direction.
    ///
    /// With `settings.disable_borders` the head wraps around inside the
    /// border; without it a step out of the border kills the snake. A step
    /// onto a wall kills it too. A killed snake does not move. Otherwise
    /// the head takes the new cell; on the food the snake grows by one and
    /// scores one, elsewhere its tail follows; and it dies if the new cell
    /// already held a part of its body.
    pub fn update_movement(
        &mut self,
        settings: &Settings,
        walls: &[Position],
        border_min: Position,
        border_max: Position,
    )
        requires
            old(self).can_move(border_min, border_max),
        ensures
            final(self).wf(),
            final(self)@ == old(self)@.update_movement(
                settings.disable_borders,
                walls@,
                border_min,
                border_max,
            ),
            final(self).length >= old(self).length,
            final(self).direction == old(self).direction,
            !final(self).is_dead ==> inside(as_cell(final(self).head), border_min, border_max),
    {
        let (dr, dc) = self.direction.delta();
        let cell: Position = if settings.disable_borders {
            (
                wrapped_step(self.head.0, dr, border_min.0, border_max.0),
                wrapped_step(self.head.1, dc, border_min.1, border_max.1),
            )
        } else {
            let row: Option<usize> = plain_step(self.head.0, dr, border_min.0, border_max.0);
            let col: Option<usize> = plain_step(self.head.1, dc, border_min.1, border_max.1);
            match (row, col) {
                (Some(r), Some(c)) => (r, c),
                _ => {
                    self.is_dead = true;
                    return ;
                },
            }
        };
        if slice_contains(walls, cell) {
            self.is_dead = true;
            return ;
        }
        let ghost met = self@.body_met(cell);
        let ghost grid0 = self.world@;
        let ghost body0 = self.parts@;

        self.food_eaten = cell.0 == self.food.0 && cell.1 == self.food.1;
        if self.food_eaten {
            self.length += 1;
            self.score += 1;
        } else {
            if let Some(tail) = self.parts.pop_front() {
                self.world[tail.0][tail.1] = self.world[tail.0][tail.1].saturating_sub(1);
                proof {
                    assert(self.parts@ =~= body0.drop_first());
                    lemma_grid_drop_first(
                        grid0,
                        self.world@,
                        body0,
                        self.map_width,
                        self.map_height,
                    );
                }
            }
        }
        proof {
            lemma_counts_at_most_one(self.world@, met, self.map_width, self.map_height);
            lemma_push_no_duplicates(met, cell);
        }
        self.occupy(cell);
        if self.world[cell.0][cell.1] > 1 {
            self.is_dead = true;
        }
    }

    /// Lays the three starting cells on an empty board: the middle of the
    /// middle row, from west to east.
    fn initialize(&mut self)
        requires
            Snake::fits(old(self).map_width, old(self).map_height),
            grid_shaped(old(self).world@, old(self).map_width, old(self).map_height),
            grid_counts(old(self).world@, old(self).parts@),
            old(self).parts@.len() == 0,
            old(self).length >= INITIAL_SNAKE_LENGTH,
            old(self).input_queue@.len() <= MAX_QUEUED_TURNS,
        ensures
            final(self)@ == (SnakeView {
                parts: SnakeView::initial(old(self).map_width, old(self).map_height).parts,
                head: SnakeView::initial(old(self).map_width, old(self).map_height).head,
                ..old(self)@
            }),
            final(self).wf(),
    {
        let row: usize = self.map_height / 2;
        let start_col: usize = self.map_width / 2 - INITIAL_SNAKE_LENGTH / 2;
        let mut i: usize = 0;
        while i < INITIAL_SNAKE_LENGTH
            invariant
                i <= INITIAL_SNAKE_LENGTH,
                row == self.map_height / 2,
                start_col == self.map_width / 2 - 1,
                Snake::fits(self.map_width, self.map_height),
                grid_shaped(self.world@, self.map_width, self.map_height),
                grid_counts(self.world@, self.parts@),
                self.parts@.len() == i,
                forall|k: int| 0 <= k < i ==> self.parts@[k] == (row, (start_col + k) as usize),
                i > 0 ==> self.head == self.parts@.last(),
                self@ == (SnakeView { parts: self.parts@, head: self.head, ..old(self)@ }),
            decreases INITIAL_SNAKE_LENGTH - i,
        {
            proof {
                lemma_counts_at_most_one(
                    self.world@,
                    self.parts@,
                    self.map_width,
                    self.map_height,
                );
            }
            self.occupy((row, start_col + i));
            i += 1;
        }
        proof {
            assert(self.parts@ =~= SnakeView::initial(self.map_width, self.map_height).parts);
        }
    }

    /// Lays a second player's three starting cells on an empty board: right
    /// of the centre of the middle row, from east to west.
    fn initialize_rival(&mut self)
        requires
            Snake::fits_rival(old(self).map_width, old(self).map_height),
            grid_shaped(old(self).world@, old(self).map_width, old(self).map_height),
            grid_counts(old(self).world@, old(self).parts@),
            old(self).parts@.len() == 0,
            old(self).length >= INITIAL_SNAKE_LENGTH,
            old(self).input_queue@.len() <= MAX_QUEUED_TURNS,
        ensures
            final(self)@ == (SnakeView {
                parts: SnakeView::initial_rival(old(self).map_width, old(self).map_height).parts,
                head: SnakeView::initial_rival(old(self).map_width, old(self).map_height).head,
                ..old(self)@
            }),
            final(self).wf(),
    {
        let row: usize = self.map_height / 2;
        let start_col: usize = self.map_width / 2 + 2;
        let mut i: usize = 0;
        while i < INITIAL_SNAKE_LENGTH
            invariant
                i <= INITIAL_SNAKE_LENGTH,
                row == self.map_height / 2,
                start_col == self.map_width / 2 + 2,
                Snake::fits_rival(self.map_width, self.map_height),
                grid_shaped(self.world@, self.map_width, self.map_height),
                grid_counts(self.world@, self.parts@),
                self.parts@.len() == i,
                forall|k: int| 0 <= k < i ==> self.parts@[k] == (row, (start_col - k) as usize),
                i > 0 ==> self.head == self.parts@.last(),
                self@ == (SnakeView { parts: self.parts@, head: self.head, ..old(self)@ }),
            decreases INITIAL_SNAKE_LENGTH - i,
        {
            proof {
                lemma_counts_at_most_one(
                    self.world@,
                    self.parts@,
                    self.map_width,
                    self.map_height,
                );
            }
            self.occupy((row, start_col - i));
            i += 1;
        }
        proof {
            assert(self.parts@ =~= SnakeView::initial_rival(self.map_width, self.map_height).parts);
        }
    }
}

/// An all-zero grid counts an empty body.
proof fn lemma_grid_blank(grid: Seq<Vec<u8>>, parts: Seq<Position>)
    requires
        parts.len() == 0,
        forall|r: int, c: int|
            0 <= r < grid.len() && 0 <= c < grid[r]@.len() ==> (#[trigger] grid[r]@[c]) == 0,
    ensures
        grid_counts(grid, parts),
{
    broadcast use vstd::seq_lib::group_to_multiset_ensures;

    assert forall|r: int, c: int| 0 <= r < grid.len() && 0 <= c < grid[r]@.len() implies (
    #[trigger] grid[r]@[c]) == parts.to_multiset().count((r as usize, c as usize)) by {
        assert(!parts.contains((r as usize, c as usize)));
    }
}

/// Raising one cell's counter by one keeps the grid in step with a body
/// that gains that cell.
proof fn lemma_grid_push(
    before: Seq<Vec<u8>>,
    after: Seq<Vec<u8>>,
    parts: Seq<Position>,
    cell: Position,
    width: usize,
    height: usize,
)
    requires
        grid_shaped(before, width, height),
        grid_shaped(after, width, height),
        grid_counts(before, parts),
        cell.0 < height,
        cell.1 < width,
        forall|r: int, c: int|
            0 <= r < height && 0 <= c < width ==> (#[trigger] after[r]@[c]) == (if r == cell.0 && c
                == cell.1 {
                before[r]@[c] + 1
            } else {
                before[r]@[c] as int
            }),
    ensures
        grid_counts(after, parts.push(cell)),
{
    broadcast use vstd::seq_lib::group_to_multiset_ensures;
    broadcast use vstd::multiset::group_multiset_axioms;

    assert(parts.push(cell).to_multiset() =~= parts.to_multiset().insert(cell));
    assert forall|r: int, c: int| 0 <= r < after.len() && 0 <= c < after[r]@.len() implies (
    #[trigger] after[r]@[c]) == parts.push(cell).to_multiset().count((r as usize, c as usize)) by {
        assert(before[r]@[c] == parts.to_multiset().count((r as usize, c as usize)));
    }
}

/// Lowering the tail cell's counter by one keeps the grid in step with a
/// body that loses its tail.
proof fn lemma_grid_drop_first(
    before: Seq<Vec<u8>>,
    after: Seq<Vec<u8>>,
    parts: Seq<Position>,
    width: usize,
    height: usize,
)
    requires
        grid_shaped(before, width, height),
        grid_shaped(after, width, height),
        grid_counts(before, parts),
        parts.len() > 0,
        parts[0].0 < height,
        parts[0].1 < width,
        forall|r: int, c: int|
            0 <= r < height && 0 <= c < width ==> (#[trigger] after[r]@[c]) == (if r == parts[0].0
                && c == parts[0].1 {
                if before[r]@[c] > 0 {
                    before[r]@[c] - 1
                } else {
                    0
                }
            } else {
                before[r]@[c] as int
            }),
    ensures
        grid_counts(after, parts.drop_first()),
{
    broadcast use vstd::seq_lib::group_to_multiset_ensures;
    broadcast use vstd::multiset::group_multiset_axioms;

    assert(parts.drop_first() =~= parts.remove(0));
    assert(parts.remove(0).to_multiset() =~= parts.to_multiset().remove(parts[0]));
    assert(parts.contains(parts[0]));
    assert forall|r: int, c: int| 0 <= r < after.len() && 0 <= c < after[r]@.len() implies (
    #[trigger] after[r]@[c]) == parts.drop_first().to_multiset().count(
        (r as usize, c as usize),
    ) by {
        assert(before[r]@[c] == parts.to_multiset().count((r as usize, c as usize)));
    }
}

/// A body without duplicates is counted at most once per cell.
proof fn lemma_counts_at_most_one(
    grid: Seq<Vec<u8>>,
    parts: Seq<Position>,
    width: usize,
    height: usize,
)
    requires
        grid_shaped(grid, width, height),
        grid_counts(grid, parts),
        parts.no_duplicates(),
    ensures
        forall|r: int, c: int| 0 <= r < height && 0 <= c < width ==> (#[trigger] grid[r]@[c]) <= 1,
        forall|r: int, c: int|
            0 <= r < height && 0 <= c < width ==> ((#[trigger] grid[r]@[c]) >= 1 <==> parts.contains(
                (r as usize, c as usize),
            )),
{
    broadcast use vstd::seq_lib::group_to_multiset_ensures;

    parts.lemma_multiset_has_no_duplicates();
    assert forall|r: int, c: int| 0 <= r < height && 0 <= c < width implies (
    #[trigger] grid[r]@[c]) <= 1 && (grid[r]@[c] >= 1 <==> parts.contains(
        (r as usize, c as usize),
    )) by {
        let cell = (r as usize, c as usize);
        assert(grid[r]@[c] == parts.to_multiset().count(cell));
        if parts.to_multiset().count(cell) > 0 {
            assert(parts.to_multiset().contains(cell));
        }
    }
}

/// A body on the board, counted by the grid, is free of duplicates exactly
/// if no counter is above one.
proof fn lemma_no_duplicates_by_counts(
    grid: Seq<Vec<u8>>,
    parts: Seq<Position>,
    width: usize,
    height: usize,
)
    requires
        grid_shaped(grid, width, height),
        grid_counts(grid, parts),
        forall|i: int|
            0 <= i < parts.len() ==> inside(as_cell(#[trigger] parts[i]), (0, 0), (height, width)),
    ensures
        parts.no_duplicates() <==> forall|r: int, c: int|
            0 <= r < height && 0 <= c < width ==> (#[trigger] grid[r]@[c]) <= 1,
{
    broadcast use vstd::seq_lib::group_to_multiset_ensures;

    if parts.no_duplicates() {
        lemma_counts_at_most_one(grid, parts, width, height);
    }
    if forall|r: int, c: int| 0 <= r < height && 0 <= c < width ==> (#[trigger] grid[r]@[c]) <= 1 {
        assert forall|x: Position| parts.to_multiset().contains(x) implies parts.to_multiset().count(
            x,
        ) == 1 by {
            assert(parts.contains(x));
            let i = choose|i: int| 0 <= i < parts.len() && parts[i] == x;
            assert(inside(as_cell(parts[i]), (0, 0), (height, width)));
            assert(grid[x.0 as int]@[x.1 as int] == parts.to_multiset().count(
                (x.0 as int as usize, x.1 as int as usize),
            ));
        }
        parts.lemma_multiset_has_no_duplicates_conv();
    }
}

/// Adding a cell to a body without duplicates keeps it so unless the body
/// already holds the cell.
proof fn lemma_push_no_duplicates(parts: Seq<Position>, cell: Position)
    requires
        parts.no_duplicates(),
    ensures
        !parts.contains(cell) ==> parts.push(cell).no_duplicates(),
{
}

/// A grid of `height` rows of `width` zero counters.
fn blank_grid(width: usize, height: usize) -> (grid: Vec<Vec<u8>>)
    ensures
        grid_shaped(grid@, width, height),
        forall|r: int, c: int| 0 <= r < height && 0 <= c < width ==> (#[trigger] grid@[r]@[c]) == 0,
{
    let mut grid: Vec<Vec<u8>> = Vec::new();
    let mut r: usize = 0;
    while r < height
        invariant
            r <= height,
            grid@.len() == r,
            forall|i: int| 0 <= i < r ==> (#[trigger] grid@[i])@.len() == width,
            forall|i: int, c: int| 0 <= i < r && 0 <= c < width ==> (#[trigger] grid@[i]@[c]) == 0,
        decreases height - r,
    {
        let mut row: Vec<u8> = Vec::new();
        let mut c: usize = 0;
        while c < width
            invariant
                c <= width,
                row@.len() == c,
                forall|j: int| 0 <= j < c ==> row@[j] == 0,
            decreases width - c,
        {
            row.push(0u8);
            c += 1;
        }
        grid.push(row);
        r += 1;
    }
    grid
}

} // verus!
