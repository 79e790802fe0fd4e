//! A game in progress and what one tick does to it: queued turns are
//! applied, the snakes move and may die, food and bonus are seen to, the
//! border closes in, and the tick is counted.

use crate::config::{Direction, Settings, BONUS_FOOD_LIFETIME, BONUS_FOOD_SCORE};
use crate::game_map::{BonusFood, GameMap, GameMapView};
use crate::grid::{as_cell, deque_contains, in_rectangle, inside, Position};
use crate::input::GameInput;
use crate::snake::{Snake, SnakeView};
use rand::rngs::StdRng;
use vstd::prelude::*;

verus! {

pub struct Game {
    pub snake1: Snake,
    /// The second player's snake, in a game for two.
    pub snake2: Option<Snake>,
    pub game_map: GameMap,
    pub paused: bool,
    /// Ticks played since the game started or restarted.
    pub frame_count: usize,
}

/// What a tick brought, for whoever rings the bell.
#[derive(Debug, Clone, Copy, PartialEq, Eq, Structural)]
pub struct TickEvents {
    /// A snake died on this tick.
    pub died: bool,
    /// The first snake reached the food on this tick.
    pub food_eaten: bool,
    /// The first snake ate the bonus on this tick.
    pub bonus_eaten: bool,
}

/// What a game is, with its snakes and its board as their views.
pub struct GameView {
    pub snake1: SnakeView,
    pub snake2: Option<SnakeView>,
    pub game_map: GameMapView,
    pub paused: bool,
    pub frame_count: nat,
}

impl View for Game {
    type V = GameView;

    open spec fn view(&self) -> GameView {
        GameView {
            snake1: self.snake1@,
            snake2: match self.snake2 {
                Some(snake) => Some(snake@),
                None => None,
            },
            game_map: self.game_map@,
            paused: self.paused,
            frame_count: self.frame_count as nat,
        }
    }
}

impl GameView {
    /// Whether a snake of this game is dead.
    pub open spec fn any_dead(self) -> bool {
        self.snake1.is_dead || (self.snake2 matches Some(snake) && snake.is_dead)
    }

    /// A snake after its part of a tick: the oldest queued turn applied,
    /// then one step on this board.
    pub open spec fn step(self, snake: SnakeView, wrap: bool) -> SnakeView {
        snake.apply_queued_input().update_movement(
            wrap,
            self.game_map.walls,
            self.game_map.border_min,
            self.game_map.border_max,
        )
    }

    /// The game after both snakes took their step. In a game for two, a
    /// snake whose head then lies on the other's body is dead.
    pub open spec fn moved(self, wrap: bool) -> GameView {
        let first = self.step(self.snake1, wrap);
        match self.snake2 {
            None => GameView { snake1: first, ..self },
            Some(snake) => {
                let second = self.step(snake, wrap);
                GameView {
                    snake1: SnakeView {
                        is_dead: first.is_dead || second.parts.contains(first.head),
                        ..first
                    },
                    snake2: Some(
                        SnakeView {
                            is_dead: second.is_dead || first.parts.contains(second.head),
                            ..second
                        },
                    ),
                    ..self
                }
            },
        }
    }

    /// Whether `food` may be what the search for a new food cell came back
    /// with: nothing where the food was not eaten; else a free cell of the
    /// play area, or nothing where there is none.
    pub open spec fn legal_food(self, food: Option<Position>) -> bool {
        if self.snake1.food_eaten {
            match food {
                Some(cell) => self.game_map.in_border(cell) && self.game_map.free_for_food(
                    self.snake1,
                    cell,
                ),
                None => forall|cell: Position|
                    self.game_map.in_border(cell) ==> !#[trigger] self.game_map.free_for_food(
                        self.snake1,
                        cell,
                    ),
            }
        } else {
            food is None
        }
    }

    /// The game with eaten food replaced by new food on `food`.
    pub open spec fn fed(self, food: Option<Position>) -> GameView {
        match food {
            Some(cell) => GameView {
                snake1: SnakeView { food: cell, food_eaten: false, ..self.snake1 },
                ..self
            },
            None => self,
        }
    }

    /// Whether `bonus` may be where a new bonus appears: nowhere, or on a
    /// free cell of the play area while the board has no bonus.
    pub open spec fn legal_bonus(self, bonus: Option<Position>) -> bool {
        bonus matches Some(cell) ==> {
            &&& self.game_map.bonus_food is None
            &&& self.game_map.in_border(cell)
            &&& self.game_map.free(self.snake1, cell)
        }
    }

    /// The game with a new bonus on `bonus`.
    pub open spec fn spawned(self, bonus: Option<Position>) -> GameView {
        match bonus {
            Some(cell) => GameView {
                game_map: GameMapView {
                    bonus_food: Some(BonusFood { pos: cell, lifetime: BONUS_FOOD_LIFETIME }),
                    ..self.game_map
                },
                ..self
            },
            None => self,
        }
    }

    /// The game with its bonus one tick older.
    pub open spec fn aged(self) -> GameView {
        GameView { game_map: self.game_map.tick_bonus(), ..self }
    }

    /// The game after the first snake ate the bonus, if its head is on it:
    /// three points and one more cell of length, and the bonus is gone.
    pub open spec fn bonus_taken(self) -> GameView {
        if self.game_map.bonus_at(self.snake1.head) {
            GameView {
                snake1: SnakeView {
                    score: self.snake1.score + BONUS_FOOD_SCORE as nat,
                    length: self.snake1.length + 1,
                    ..self.snake1
                },
                game_map: GameMapView { bonus_food: None, ..self.game_map },
                ..self
            }
        } else {
            self
        }
    }

    /// The game after the border's tick, where the border shrinks: the
    /// first snake is dead if its head is left outside.
    pub open spec fn closed_in(self, shrinking: bool) -> GameView {
        if shrinking {
            let map = self.game_map.update_shrinking_border();
            GameView {
                game_map: map,
                snake1: SnakeView {
                    is_dead: self.snake1.is_dead || !map.in_border(self.snake1.head),
                    ..self.snake1
                },
                ..self
            }
        } else {
            self
        }
    }

    /// The game with the tick counted, unless the first snake is dead.
    pub open spec fn counted(self) -> GameView {
        if self.snake1.is_dead {
            self
        } else {
            GameView { frame_count: self.frame_count + 1, ..self }
        }
    }

    /// What follows the snakes' step in a tick that nobody died in: new
    /// food for eaten food, perhaps a new bonus, the bonus ages and may be
    /// eaten, the border closes in, and the tick is counted.
    pub open spec fn settled(
        self,
        shrinking: bool,
        food: Option<Position>,
        bonus: Option<Position>,
    ) -> GameView {
        self.fed(food).spawned(bonus).aged().bonus_taken().closed_in(shrinking).counted()
    }

    /// One tick, given what the random placements came back with. Where a
    /// snake dies in its step the tick ends there.
    pub open spec fn tick(
        self,
        wrap: bool,
        shrinking: bool,
        food: Option<Position>,
        bonus: Option<Position>,
    ) -> GameView {
        if self.moved(wrap).any_dead() {
            self.moved(wrap)
        } else {
            self.moved(wrap).settled(shrinking, food, bonus)
        }
    }

    /// Whether `food` and `bonus` may be what the random placements of a
    /// tick came back with.
    pub open spec fn legal_draws(
        self,
        wrap: bool,
        food: Option<Position>,
        bonus: Option<Position>,
    ) -> bool {
        if self.moved(wrap).any_dead() {
            food is None && bonus is None
        } else {
            &&& self.moved(wrap).legal_food(food)
            &&& self.moved(wrap).fed(food).legal_bonus(bonus)
        }
    }

    /// What a tick reports.
    pub open spec fn events(
        self,
        wrap: bool,
        shrinking: bool,
        food: Option<Position>,
        bonus: Option<Position>,
    ) -> TickEvents {
        let moved = self.moved(wrap);
        TickEvents {
            died: self.tick(wrap, shrinking, food, bonus).any_dead(),
            food_eaten: !moved.any_dead() && moved.snake1.food_eaten,
            bonus_eaten: !moved.any_dead() && moved.fed(food).spawned(bonus).aged().game_map.bonus_at(
                moved.snake1.head,
            ),
        }
    }

    /// The game after a player's input: a move is queued with the snake it
    /// is for, and a pause is switched on or off.
    pub open spec fn handle_input(self, input: GameInput) -> GameView {
        match input {
            GameInput::Move(dir) => GameView { snake1: self.snake1.queue_direction(dir), ..self },
            GameInput::MoveP2(dir) => match self.snake2 {
                Some(snake) => GameView { snake2: Some(snake.queue_direction(dir)), ..self },
                None => self,
            },
            GameInput::Pause => GameView { paused: !self.paused, ..self },
            _ => self,
        }
    }

    /// One tick of a played-back game, given where new food landed: the
    /// recorded turn, if any, is queued with the first snake, the snakes
    /// take their step, and if nobody died eaten food is replaced and the
    /// tick is counted. Bonus and border stay as they are.
    pub open spec fn replay_tick(
        self,
        wrap: bool,
        frame: Option<Direction>,
        food: Option<Position>,
    ) -> GameView {
        let queued = match frame {
            Some(dir) => self.handle_input(GameInput::Move(dir)),
            None => self,
        };
        if queued.moved(wrap).any_dead() {
            queued.moved(wrap)
        } else {
            queued.moved(wrap).fed(food).counted()
        }
    }

    /// Whether `food` may be what the search for a new food cell of a
    /// played-back tick came back with.
    pub open spec fn legal_replay_draw(
        self,
        wrap: bool,
        frame: Option<Direction>,
        food: Option<Position>,
    ) -> bool {
        let queued = match frame {
            Some(dir) => self.handle_input(GameInput::Move(dir)),
            None => self,
        };
        if queued.moved(wrap).any_dead() {
            food is None
        } else {
            queued.moved(wrap).legal_food(food)
        }
    }

    /// Whether `food` may be what the search for a food cell of a restart
    /// came back with: a cell of the play area that is free once the first
    /// snake is back on its starting cells, or nothing where there is none.
    pub open spec fn legal_restart_draw(self, food: Option<Position>) -> bool {
        match food {
            Some(cell) => self.game_map.in_border(cell) && self.game_map.free_for_food(
                self.snake1.reset(),
                cell,
            ),
            None => forall|cell: Position|
                self.game_map.in_border(cell) ==> !#[trigger] self.game_map.free_for_food(
                    self.snake1.reset(),
                    cell,
                ),
        }
    }

    /// The game started over on the same board: new snakes, the whole
    /// board as play area, the border's timer and the tick count at zero,
    /// and the first snake's food on `food` where a cell was found for it.
    /// The walls stay, and so does the bonus unless it is cleared.
    pub open spec fn restarted(self, food: Option<Position>, clear_bonus: bool) -> GameView {
        GameView {
            snake1: match food {
                Some(cell) => SnakeView { food: cell, ..self.snake1.reset() },
                None => self.snake1.reset(),
            },
            snake2: match self.snake2 {
                Some(snake) => Some(snake.reset_rival()),
                None => None,
            },
            game_map: GameMapView {
                border_min: (0, 0),
                border_max: (self.game_map.height, self.game_map.width),
                shrink_timer: 0,
                bonus_food: if clear_bonus {
                    None
                } else {
                    self.game_map.bonus_food
                },
                ..self.game_map
            },
            frame_count: 0,
            ..self
        }
    }

    /// A tick in which a snake dies in its step changes nothing but the
    /// snakes, and is not counted.
    pub proof fn lemma_death_ends_tick(
        self,
        wrap: bool,
        shrinking: bool,
        food: Option<Position>,
        bonus: Option<Position>,
    )
        requires
            self.moved(wrap).any_dead(),
        ensures
            self.tick(wrap, shrinking, food, bonus).game_map == self.game_map,
            self.tick(wrap, shrinking, food, bonus).frame_count == self.frame_count,
            self.events(wrap, shrinking, food, bonus) == (TickEvents {
                died: true,
                food_eaten: false,
                bonus_eaten: false,
            }),
    {
    }

    /// A tick is counted exactly when it reports no death.
    pub proof fn lemma_tick_counted(
        self,
        wrap: bool,
        shrinking: bool,
        food: Option<Position>,
        bonus: Option<Position>,
    )
        ensures
            self.tick(wrap, shrinking, food, bonus).frame_count == if self.events(
                wrap,
                shrinking,
                food,
                bonus,
            ).died {
                self.frame_count
            } else {
                self.frame_count + 1
            },
    {
    }

    /// Eating the bonus is worth three points and one cell of length on top
    /// of what the step brought; a tick without it leaves the score and the
    /// length as the step left them.
    pub proof fn lemma_bonus_score(
        self,
        wrap: bool,
        shrinking: bool,
        food: Option<Position>,
        bonus: Option<Position>,
    )
        ensures
            self.tick(wrap, shrinking, food, bonus).snake1.score == self.moved(wrap).snake1.score
                + (if self.events(wrap, shrinking, food, bonus).bonus_eaten {
                BONUS_FOOD_SCORE as nat
            } else {
                0
            }),
            self.tick(wrap, shrinking, food, bonus).snake1.length == self.moved(
                wrap,
            ).snake1.length + (if self.events(wrap, shrinking, food, bonus).bonus_eaten {
                1nat
            } else {
                0
            }),
    {
    }
}

impl Game {
    /// The game's invariant: snakes and board are well formed, and the
    /// snakes know the board's size.
    pub open spec fn wf(&self) -> bool {
        &&& self.snake1.wf()
        &&& self.game_map@.wf()
        &&& self.snake1.map_width == self.game_map.width
        &&& self.snake1.map_height == self.game_map.height
        &&& self.snake2 matches Some(snake) ==> {
            &&& snake.wf()
            &&& snake.map_width == self.game_map.width
            &&& snake.map_height == self.game_map.height
            &&& Snake::fits_rival(snake.map_width, snake.map_height)
        }
    }

    /// Whether the game's invariant holds, found out by looking.
    pub fn check(&self) -> (ok: bool)
        ensures
            ok == self.wf(),
    {
        let second: bool = match &self.snake2 {
            Some(snake) => snake.check() && snake.map_width == self.game_map.width
                && snake.map_height == self.game_map.height && snake.map_width >= 5,
            None => true,
        };
        self.snake1.check() && self.game_map.check() && self.snake1.map_width
            == self.game_map.width && self.snake1.map_height == self.game_map.height && second
    }

    /// Whether a game can be started with these settings: the board has
    /// room for the snakes.
    pub open spec fn spec_playable(settings: &Settings) -> bool {
        if settings.multiplayer {
            Snake::fits_rival(settings.map_width, settings.map_height)
        } else {
            Snake::fits(settings.map_width, settings.map_height)
        }
    }

    /// Whether a game can be started with these settings.
    #[verifier::when_used_as_spec(spec_playable)]
    pub fn playable(settings: &Settings) -> (ok: bool)
        ensures
            ok == Game::spec_playable(settings),
    {
        if settings.multiplayer {
            settings.map_width >= 5 && settings.map_height >= 1
        } else {
            settings.map_width >= 3 && settings.map_height >= 1
        }
    }

    /// Whether a new snake's food lies where a new game puts it: on a cell
    /// of the board off the snake, or still in the corner where the snake
    /// fills the board.
    pub open spec fn food_laid(snake: SnakeView) -> bool {
        let board = GameMapView::initial(snake.map_width, snake.map_height);
        if exists|cell: Position| board.in_border(cell) && #[trigger] board.free_for_food(snake, cell) {
            board.in_border(snake.food) && board.free_for_food(snake, snake.food)
        } else {
            snake.food == (0usize, 0usize)
        }
    }

    /// Starts a game: a new snake for each player, a board without bonus
    /// and with the whole board as play area, food on a free cell, and as
    /// many walls as the settings ask for and the board has room for.
    pub fn new(settings: &Settings, rng: &mut StdRng) -> (game: Game)
        requires
            Game::playable(settings),
        ensures
            game.wf(),
            game.snake1@ == (SnakeView {
                food: game.snake1.food,
                ..SnakeView::initial(settings.map_width, settings.map_height)
            }),
            Game::food_laid(game.snake1@),
            game@.snake2 == (if settings.multiplayer {
                Some(SnakeView::initial_rival(settings.map_width, settings.map_height))
            } else {
                None
            }),
            game.game_map@ == (GameMapView {
                walls: game.game_map.walls@,
                ..GameMapView::initial(settings.map_width, settings.map_height)
            }),
            game.game_map.walls_placed(&game.snake1),
            game.game_map.walls@.len() <= settings.obstacles,
            game.game_map.walls@.len() < settings.obstacles ==> forall|cell: Position|
                game.game_map@.on_board(cell) ==> !#[trigger] game.game_map@.free(
                    game.snake1@,
                    cell,
                ),
            !game.paused,
            game.frame_count == 0,
    {
        let w: usize = settings.map_width;
        let h: usize = settings.map_height;
        let mut snake1 = Snake::new(w, h);
        let snake2: Option<Snake> = if settings.multiplayer {
            Some(Snake::new_rival(w, h))
        } else {
            None
        };
        let mut game_map = GameMap::new(w, h);
        let ghost bare = snake1@;
        let _ = game_map.place_food(&mut snake1, rng);
        proof {
            let board = GameMapView::initial(w, h);
            assert(game_map@ == board);
            assert forall|cell: Position|
                board.free_for_food(bare, cell) == #[trigger] board.free_for_food(
                    snake1@,
                    cell,
                ) by {}
            assert(Game::food_laid(snake1@));
        }
        if settings.obstacles > 0 {
            let _ = game_map.place_walls(settings.obstacles, &snake1, rng);
        }
        Game { snake1, snake2, game_map, paused: false, frame_count: 0 }
    }

    /// Takes a player's input: a move is queued with the snake it is for,
    /// a pause is switched on or off. The result says whether the player
    /// asked to quit.
    pub fn handle_input(&mut self, input: &GameInput) -> (quit: bool)
        ensures
            final(self)@ == old(self)@.handle_input(*input),
            quit == (*input is Quit),
            old(self).wf() ==> final(self).wf(),
            old(self).can_tick() ==> final(self).can_tick(),
    {
        match input {
            GameInput::Move(dir) => {
                self.snake1.queue_direction(*dir);
                false
            },
            GameInput::MoveP2(dir) => {
                match &mut self.snake2 {
                    Some(snake) => {
                        snake.queue_direction(*dir);
                    },
                    None => {},
                }
                false
            },
            GameInput::Pause => {
                self.paused = !self.paused;
                false
            },
            GameInput::Quit => true,
            GameInput::Nothing => false,
        }
    }

    /// Whether a tick can run: the game is well formed, its snakes are
    /// alive, and the counters have room to grow.
    pub open spec fn can_tick(&self) -> bool {
        &&& self.wf()
        &&& !self.snake1.is_dead
        &&& self.snake1.length + 2 <= usize::MAX
        &&& self.snake1.score + 1 + BONUS_FOOD_SCORE <= usize::MAX
        &&& self.snake2 matches Some(snake) ==> {
            &&& !snake.is_dead
            &&& snake.length < usize::MAX
            &&& snake.score < usize::MAX
        }
        &&& self.game_map.shrink_timer < usize::MAX
        &&& self.frame_count < usize::MAX
    }

    /// Whether a tick can run, found out by looking.
    pub fn ready(&self) -> (ok: bool)
        ensures
            ok == self.can_tick(),
    {
        let second: bool = match &self.snake2 {
            Some(snake) => !snake.is_dead && snake.length < usize::MAX && snake.score
                < usize::MAX,
            None => true,
        };
        !self.snake1.is_dead && self.snake1.length <= usize::MAX - 2 && self.snake1.score
            <= usize::MAX - 1 - BONUS_FOOD_SCORE && second && self.game_map.shrink_timer
            < usize::MAX && self.frame_count < usize::MAX && self.check()
    }

    /// Lets both snakes take their step: each applies its oldest queued
    /// turn and moves by one cell. In a game for two, a snake whose head
    /// then lies on the other's body dies. The result says whether a snake
    /// died.
    pub fn move_snakes(&mut self, settings: &Settings) -> (died: bool)
        requires
            old(self).can_tick(),
        ensures
            final(self)@ == old(self)@.moved(settings.disable_borders),
            died == final(self)@.any_dead(),
            final(self).wf(),
            !died ==> final(self).game_map@.in_border(final(self).snake1.head),
            final(self).snake1.length <= old(self).snake1.length + 1,
            final(self).snake1.score <= old(self).snake1.score + 1,
    {
        self.snake1.apply_queued_input();
        self.snake1.update_movement(
            settings,
            self.game_map.walls.as_slice(),
            self.game_map.border_min,
            self.game_map.border_max,
        );
        match &mut self.snake2 {
            Some(snake) => {
                snake.apply_queued_input();
                snake.update_movement(
                    settings,
                    self.game_map.walls.as_slice(),
                    self.game_map.border_min,
                    self.game_map.border_max,
                );
                if deque_contains(&self.snake1.parts, snake.head) {
                    snake.is_dead = true;
                }
                if deque_contains(&snake.parts, self.snake1.head) {
                    self.snake1.is_dead = true;
                }
                self.snake1.is_dead || snake.is_dead
            },
            None => self.snake1.is_dead,
        }
    }

    /// Replaces eaten food by new food on a free cell of the play area,
    /// where there is one.
    fn feed(&mut self, rng: &mut StdRng) -> (food: Ghost<Option<Position>>)
        requires
            old(self).wf(),
        ensures
            final(self).wf(),
            old(self)@.legal_food(food@),
            final(self)@ == old(self)@.fed(food@),
    {
        let ghost mut food: Option<Position> = None;
        if self.snake1.food_eaten {
            let placed: bool = self.game_map.place_food(&mut self.snake1, rng);
            proof {
                if placed {
                    food = Some(self.snake1.food);
                }
            }
        }
        Ghost(food)
    }

    /// Lets a bonus appear, perhaps.
    fn spawn(&mut self, rng: &mut StdRng) -> (bonus: Ghost<Option<Position>>)
        requires
            old(self).wf(),
        ensures
            final(self).wf(),
            old(self)@.legal_bonus(bonus@),
            final(self)@ == old(self)@.spawned(bonus@),
    {
        let ghost before = self.game_map@;
        let draws = self.game_map.maybe_spawn_bonus(&self.snake1, rng);
        proof {
            if draws.roll is Some {
                before.lemma_bonus_drawn(self.snake1@, draws.roll->0, draws.cells@);
            }
        }
        let ghost bonus: Option<Position> = if self.game_map@ == before {
            None
        } else {
            Some(self.game_map.bonus_food->0.pos)
        };
        Ghost(bonus)
    }

    /// Ages the bonus and lets the first snake eat it if its head is on
    /// it. The result says whether it did.
    fn take_bonus(&mut self) -> (eaten: bool)
        requires
            old(self).wf(),
            old(self).snake1.length < usize::MAX,
            old(self).snake1.score + BONUS_FOOD_SCORE <= usize::MAX,
        ensures
            final(self).wf(),
            final(self)@ == old(self)@.aged().bonus_taken(),
            eaten == old(self)@.aged().game_map.bonus_at(old(self).snake1.head),
            final(self).snake1.is_dead == old(self).snake1.is_dead,
    {
        self.game_map.tick_bonus();
        self.game_map.check_bonus_eaten(&mut self.snake1)
    }

    /// Lets the border close in where the settings say so, kills the first
    /// snake if its head is left outside, and counts the tick unless that
    /// happened. The result says whether the snake died.
    fn close_in(&mut self, settings: &Settings) -> (died: bool)
        requires
            old(self).wf(),
            !old(self).snake1.is_dead,
            old(self).game_map.shrink_timer < usize::MAX,
            old(self).frame_count < usize::MAX,
        ensures
            final(self).wf(),
            final(self)@ == old(self)@.closed_in(settings.shrinking_border).counted(),
            died == final(self).snake1.is_dead,
    {
        if settings.shrinking_border {
            self.game_map.update_shrinking_border(&self.snake1);
            if !in_rectangle(self.snake1.head, self.game_map.border_min, self.game_map.border_max) {
                self.snake1.is_dead = true;
                return true;
            }
        }
        self.frame_count += 1;
        false
    }

    /// Plays one tick. Both snakes take their step; where one dies, the
    /// tick ends there. Otherwise eaten food is replaced, a bonus may
    /// appear, the bonus ages and is eaten if the first snake's head is on
    /// it, the border closes in where the settings say so and kills the
    /// first snake if its head is left outside, and the tick is counted
    /// unless that happened. The result says what happened.
    ///
    /// Where new food and a new bonus land is drawn at random; everything
    /// else follows from the game before the tick and from those two cells.
    pub fn tick(&mut self, settings: &Settings, rng: &mut StdRng) -> (events: TickEvents)
        requires
            old(self).can_tick(),
        ensures
            final(self).wf(),
            exists|food: Option<Position>, bonus: Option<Position>|
                {
                    &&& #[trigger] old(self)@.legal_draws(settings.disable_borders, food, bonus)
                    &&& final(self)@ == old(self)@.tick(
                        settings.disable_borders,
                        settings.shrinking_border,
                        food,
                        bonus,
                    )
                    &&& events == old(self)@.events(
                        settings.disable_borders,
                        settings.shrinking_border,
                        food,
                        bonus,
                    )
                },
    {
        let ghost wrap = settings.disable_borders;
        let ghost start = self@;
        if self.move_snakes(settings) {
            proof {
                assert(start.legal_draws(wrap, None, None));
            }
            return TickEvents { died: true, food_eaten: false, bonus_eaten: false };
        }
        let food_eaten: bool = self.snake1.food_eaten;
        let Ghost(food) = self.feed(rng);
        let Ghost(bonus) = self.spawn(rng);
        let bonus_eaten: bool = self.take_bonus();
        let died: bool = self.close_in(settings);
        proof {
            assert(start.legal_draws(wrap, food, bonus));
        }
        TickEvents { died, food_eaten, bonus_eaten }
    }

    /// Plays one tick of a recorded game: the recorded turn, if any, is
    /// queued with the first snake, the snakes take their step, and if
    /// nobody died eaten food is replaced and the tick is counted. The
    /// result says whether a snake died.
    pub fn replay_tick(&mut self, settings: &Settings, frame: Option<Direction>, rng: &mut StdRng) -> (died: bool)
        requires
            old(self).can_tick(),
        ensures
            final(self).wf(),
            died == final(self)@.any_dead(),
            exists|food: Option<Position>|
                {
                    &&& #[trigger] old(self)@.legal_replay_draw(
                        settings.disable_borders,
                        frame,
                        food,
                    )
                    &&& final(self)@ == old(self)@.replay_tick(
                        settings.disable_borders,
                        frame,
                        food,
                    )
                },
    {
        let ghost wrap = settings.disable_borders;
        let ghost start = self@;
        match frame {
            Some(dir) => {
                self.snake1.queue_direction(dir);
            },
            None => {},
        }
        if self.move_snakes(settings) {
            proof {
                assert(start.legal_replay_draw(wrap, frame, None));
            }
            return true;
        }
        let Ghost(food) = self.feed(rng);
        self.frame_count += 1;
        proof {
            assert(start.legal_replay_draw(wrap, frame, food));
        }
        false
    }

    /// Starts the game over on the same board. The snakes go back to their
    /// starting cells, new food is put on a free cell of the play area as
    /// it was left, then the whole board becomes play area again and the
    /// border's timer and the tick count go back to zero. The walls stay;
    /// the bonus stays unless `clear_bonus` is set.
    pub fn restart(&mut self, rng: &mut StdRng, clear_bonus: bool)
        requires
            old(self).wf(),
        ensures
            final(self).wf(),
            exists|food: Option<Position>|
                {
                    &&& #[trigger] old(self)@.legal_restart_draw(food)
                    &&& final(self)@ == old(self)@.restarted(food, clear_bonus)
                },
    {
        let ghost start = self@;
        self.snake1.reset();
        let placed: bool = self.game_map.place_food(&mut self.snake1, rng);
        let ghost food: Option<Position> = if placed {
            Some(self.snake1.food)
        } else {
            None
        };
        self.game_map.border_min = (0, 0);
        self.game_map.border_max = (self.game_map.height, self.game_map.width);
        self.game_map.shrink_timer = 0;
        if clear_bonus {
            self.game_map.bonus_food = None;
        }
        match &mut self.snake2 {
            Some(snake) => {
                snake.reset_rival();
            },
            None => {},
        }
        self.frame_count = 0;
        proof {
            assert(start.legal_restart_draw(food));
            assert forall|i: int| 0 <= i < self.game_map@.walls.len() implies inside(
                as_cell(#[trigger] self.game_map@.walls[i]),
                (0, 0),
                (self.game_map@.height, self.game_map@.width),
            ) by {
                assert(self.game_map@.walls[i] == old(self).game_map@.walls[i]);
            }
        }
    }

    /// The better of the players' scores.
    pub fn best_score(&self) -> (best: usize)
        ensures
            best >= self.snake1.score,
            self.snake2 matches Some(snake) ==> best >= snake.score,
            best == self.snake1.score || (self.snake2 matches Some(snake) && best == snake.score),
    {
        match &self.snake2 {
            Some(snake) => if snake.score > self.snake1.score {
                snake.score
            } else {
                self.snake1.score
            },
            None => self.snake1.score,
        }
    }
}

} // verus!
