use rand::rngs::StdRng;
use rand::SeedableRng;
use snake_term::config::{Settings, BONUS_FOOD_LIFETIME, BONUS_FOOD_SCORE};
use snake_term::game_map::{BonusFood, GameMap};
use snake_term::snake::Snake;

fn on_snake(snake: &Snake, cell: (usize, usize)) -> bool {
    snake.parts.iter().any(|p| *p == cell)
}

#[test]
fn new_board_is_all_play_area() {
    let map = GameMap::new(20, 15);
    assert_eq!(map.width, 20);
    assert_eq!(map.height, 15);
    assert!(map.walls.is_empty());
    assert!(map.bonus_food.is_none());
    assert_eq!(map.border_min, (0, 0));
    assert_eq!(map.border_max, (15, 20));
    assert_eq!(map.shrink_timer, 0);
}

#[test]
fn bonus_ages_and_goes_away() {
    let mut map = GameMap::new(20, 20);
    map.tick_bonus();
    assert!(map.bonus_food.is_none());
    map.bonus_food = Some(BonusFood { pos: (1, 2), lifetime: BONUS_FOOD_LIFETIME });
    map.tick_bonus();
    let bonus = map.bonus_food.as_ref().unwrap();
    assert_eq!(bonus.pos, (1, 2));
    assert_eq!(bonus.lifetime, 29);
    map.bonus_food = Some(BonusFood { pos: (1, 2), lifetime: 2 });
    map.tick_bonus();
    assert_eq!(map.bonus_food.as_ref().unwrap().lifetime, 1);
    map.tick_bonus();
    assert!(map.bonus_food.is_none());
    map.bonus_food = Some(BonusFood { pos: (1, 2), lifetime: 0 });
    map.tick_bonus();
    assert!(map.bonus_food.is_none());
}

#[test]
fn bonus_lives_thirty_ticks() {
    let mut map = GameMap::new(20, 20);
    map.bonus_food = Some(BonusFood { pos: (1, 2), lifetime: BONUS_FOOD_LIFETIME });
    for _ in 0..29 {
        map.tick_bonus();
        assert!(map.bonus_food.is_some());
    }
    map.tick_bonus();
    assert!(map.bonus_food.is_none());
}

#[test]
fn eating_the_bonus_scores_three() {
    let mut map = GameMap::new(20, 20);
    let mut snake = Snake::new(20, 20);
    assert!(!map.check_bonus_eaten(&mut snake));
    map.bonus_food = Some(BonusFood { pos: (10, 12), lifetime: 5 });
    assert!(!map.check_bonus_eaten(&mut snake));
    assert!(map.bonus_food.is_some());
    assert_eq!(snake.score, 0);
    map.bonus_food = Some(BonusFood { pos: snake.head, lifetime: 5 });
    assert!(map.check_bonus_eaten(&mut snake));
    assert!(map.bonus_food.is_none());
    assert_eq!(snake.score, BONUS_FOOD_SCORE);
    assert_eq!(snake.score, 3);
    assert_eq!(snake.length, 4);
    assert_eq!(snake.parts.len(), 3);
    assert!(!map.check_bonus_eaten(&mut snake));
    assert_eq!(snake.score, 3);
}

#[test]
fn border_shrinks_every_fifty_ticks_edge_by_edge() {
    let mut map = GameMap::new(20, 20);
    let snake = Snake::new(20, 20);
    for _ in 0..49 {
        map.update_shrinking_border(&snake);
    }
    assert_eq!((map.border_min, map.border_max), ((0, 0), (20, 20)));
    // first row, last column, last row, first column, and round again
    map.update_shrinking_border(&snake);
    assert_eq!(map.shrink_timer, 50);
    assert_eq!((map.border_min, map.border_max), ((1, 0), (20, 20)));
    for _ in 0..50 {
        map.update_shrinking_border(&snake);
    }
    assert_eq!((map.border_min, map.border_max), ((1, 0), (20, 19)));
    for _ in 0..50 {
        map.update_shrinking_border(&snake);
    }
    assert_eq!((map.border_min, map.border_max), ((1, 0), (19, 19)));
    for _ in 0..50 {
        map.update_shrinking_border(&snake);
    }
    assert_eq!((map.border_min, map.border_max), ((1, 1), (19, 19)));
    for _ in 0..50 {
        map.update_shrinking_border(&snake);
    }
    assert_eq!((map.border_min, map.border_max), ((2, 1), (19, 19)));
    assert_eq!(map.shrink_timer, 250);
}

#[test]
fn border_never_shrinks_below_six() {
    let mut map = GameMap::new(7, 9);
    let snake = Snake::new(7, 9);
    for _ in 0..50 {
        map.update_shrinking_border(&snake);
    }
    assert_eq!((map.border_min, map.border_max), ((1, 0), (9, 7)));
    for _ in 0..50 {
        map.update_shrinking_border(&snake);
    }
    assert_eq!((map.border_min, map.border_max), ((1, 0), (9, 6)));
    for _ in 0..1000 {
        map.update_shrinking_border(&snake);
    }
    assert_eq!((map.border_min, map.border_max), ((1, 0), (9, 6)));
    assert_eq!(map.shrink_timer, 1100);
}

#[test]
fn border_of_six_rows_does_not_shrink_at_all() {
    let mut map = GameMap::new(20, 6);
    let snake = Snake::new(20, 6);
    for _ in 0..500 {
        map.update_shrinking_border(&snake);
    }
    assert_eq!((map.border_min, map.border_max), ((0, 0), (6, 20)));
}

#[test]
fn shrinking_drops_walls_left_outside() {
    let mut map = GameMap::new(20, 20);
    let snake = Snake::new(20, 20);
    map.walls = vec![(0, 19), (5, 5), (19, 19), (3, 18), (19, 0)];
    for _ in 0..50 {
        map.update_shrinking_border(&snake);
    }
    assert_eq!(map.walls, vec![(5, 5), (19, 19), (3, 18), (19, 0)]);
    for _ in 0..50 {
        map.update_shrinking_border(&snake);
    }
    assert_eq!(map.walls, vec![(5, 5), (3, 18), (19, 0)]);
    for _ in 0..50 {
        map.update_shrinking_border(&snake);
    }
    assert_eq!(map.walls, vec![(5, 5), (3, 18)]);
}

#[test]
fn free_cells_are_told_apart() {
    let mut map = GameMap::new(20, 20);
    let mut snake = Snake::new(20, 20);
    snake.food = (2, 2);
    map.walls = vec![(4, 4)];
    assert!(!map.is_free_for_food(&snake, (10, 10)));
    assert!(!map.is_free_for_food(&snake, (4, 4)));
    assert!(map.is_free_for_food(&snake, (2, 2)));
    assert!(map.is_free_for_food(&snake, (0, 0)));
    assert!(!map.is_free(&snake, (10, 10)));
    assert!(!map.is_free(&snake, (4, 4)));
    assert!(!map.is_free(&snake, (2, 2)));
    assert!(map.is_free(&snake, (0, 0)));
}

#[test]
fn try_place_food_takes_free_cells_of_the_play_area_only() {
    let mut map = GameMap::new(20, 20);
    let mut snake = Snake::new(20, 20);
    snake.food_eaten = true;
    map.walls = vec![(4, 4)];
    map.border_min = (2, 2);
    map.border_max = (18, 18);
    assert!(!map.try_place_food(&mut snake, (10, 11)));
    assert!(!map.try_place_food(&mut snake, (4, 4)));
    assert!(!map.try_place_food(&mut snake, (1, 5)));
    assert!(!map.try_place_food(&mut snake, (5, 18)));
    assert_eq!(snake.food, (0, 0));
    assert!(snake.food_eaten);
    assert!(map.try_place_food(&mut snake, (17, 2)));
    assert_eq!(snake.food, (17, 2));
    assert!(!snake.food_eaten);
}

#[test]
fn place_food_finds_a_free_cell_in_the_play_area() {
    for seed in 1..40u64 {
        let mut rng = StdRng::seed_from_u64(seed);
        let mut map = GameMap::new(20, 20);
        map.border_min = (8, 8);
        map.border_max = (13, 14);
        map.walls = vec![(8, 8), (9, 9)];
        let mut snake = Snake::new(20, 20);
        snake.food_eaten = true;
        assert!(map.place_food(&mut snake, &mut rng));
        assert!(!snake.food_eaten);
        let (r, c) = snake.food;
        assert!((8..13).contains(&r) && (8..14).contains(&c));
        assert!(!on_snake(&snake, snake.food));
        assert!(!map.walls.contains(&snake.food));
    }
}

#[test]
fn place_food_draws_different_cells() {
    let mut cells = Vec::new();
    for seed in 1..30u64 {
        let mut rng = StdRng::seed_from_u64(seed);
        let map = GameMap::new(20, 20);
        let mut snake = Snake::new(20, 20);
        assert!(map.place_food(&mut snake, &mut rng));
        if !cells.contains(&snake.food) {
            cells.push(snake.food);
        }
    }
    assert!(cells.len() > 5);
}

#[test]
fn place_food_is_the_same_for_the_same_seed() {
    let map = GameMap::new(20, 20);
    let mut first = Snake::new(20, 20);
    let mut second = Snake::new(20, 20);
    assert!(map.place_food(&mut first, &mut StdRng::seed_from_u64(42)));
    assert!(map.place_food(&mut second, &mut StdRng::seed_from_u64(42)));
    assert_eq!(first.food, second.food);
}

#[test]
fn place_food_finds_the_last_free_cell() {
    let mut rng = StdRng::seed_from_u64(7);
    let mut map = GameMap::new(40, 30);
    let mut snake = Snake::new(40, 30);
    for r in 0..30 {
        for c in 0..40 {
            if (r, c) != (29, 39) && !on_snake(&snake, (r, c)) {
                map.walls.push((r, c));
            }
        }
    }
    assert!(map.place_food(&mut snake, &mut rng));
    assert_eq!(snake.food, (29, 39));
}

#[test]
fn place_food_gives_up_on_a_full_board() {
    let mut rng = StdRng::seed_from_u64(7);
    let map = GameMap::new(3, 1);
    let mut snake = Snake::new(3, 1);
    snake.food = (0, 1);
    snake.food_eaten = true;
    assert!(!map.place_food(&mut snake, &mut rng));
    assert_eq!(snake.food, (0, 1));
    assert!(snake.food_eaten);
}

#[test]
fn place_walls_puts_distinct_walls_on_free_cells() {
    for seed in 1..20u64 {
        let mut rng = StdRng::seed_from_u64(seed);
        let mut map = GameMap::new(20, 20);
        let mut snake = Snake::new(20, 20);
        snake.food = (10, 13);
        map.walls = vec![(0, 0), (0, 0)];
        assert_eq!(map.place_walls(30, &snake, &mut rng), 30);
        assert_eq!(map.walls.len(), 30);
        for (i, wall) in map.walls.iter().enumerate() {
            assert!(wall.0 < 20 && wall.1 < 20);
            assert!(!on_snake(&snake, *wall));
            assert_ne!(*wall, snake.food);
            assert!(!map.walls[..i].contains(wall));
        }
    }
}

#[test]
fn place_walls_stops_when_the_board_is_full() {
    let mut rng = StdRng::seed_from_u64(3);
    let mut map = GameMap::new(4, 2);
    let mut snake = Snake::new(4, 2);
    snake.food = (0, 0);
    // eight cells, three of the snake, one of the food
    assert_eq!(map.place_walls(10, &snake, &mut rng), 4);
    let mut walls = map.walls.clone();
    walls.sort();
    assert_eq!(walls, vec![(0, 1), (0, 2), (0, 3), (1, 0)]);
}

#[test]
fn place_walls_with_zero_clears_the_walls() {
    let mut rng = StdRng::seed_from_u64(3);
    let mut map = GameMap::new(20, 20);
    let snake = Snake::new(20, 20);
    map.walls = vec![(1, 1)];
    assert_eq!(map.place_walls(0, &snake, &mut rng), 0);
    assert!(map.walls.is_empty());
}

#[test]
fn try_add_wall_takes_free_cells_of_the_board_only() {
    let mut map = GameMap::new(20, 20);
    let mut snake = Snake::new(20, 20);
    snake.food = (2, 2);
    assert!(!map.try_add_wall(&snake, (2, 2)));
    assert!(!map.try_add_wall(&snake, (10, 9)));
    assert!(!map.try_add_wall(&snake, (20, 0)));
    assert!(!map.try_add_wall(&snake, (0, 20)));
    assert!(map.try_add_wall(&snake, (19, 19)));
    assert!(!map.try_add_wall(&snake, (19, 19)));
    assert_eq!(map.walls, vec![(19, 19)]);
}

#[test]
fn try_spawn_bonus_takes_free_cells_of_the_play_area_only() {
    let mut map = GameMap::new(20, 20);
    let mut snake = Snake::new(20, 20);
    snake.food = (2, 2);
    map.walls = vec![(3, 3)];
    map.border_max = (20, 15);
    assert!(!map.try_spawn_bonus(&snake, (2, 2)));
    assert!(!map.try_spawn_bonus(&snake, (3, 3)));
    assert!(!map.try_spawn_bonus(&snake, (10, 10)));
    assert!(!map.try_spawn_bonus(&snake, (5, 15)));
    assert!(map.bonus_food.is_none());
    assert!(map.try_spawn_bonus(&snake, (5, 14)));
    let bonus = map.bonus_food.as_ref().unwrap();
    assert_eq!(bonus.pos, (5, 14));
    assert_eq!(bonus.lifetime, 30);
    assert!(!map.try_spawn_bonus(&snake, (6, 6)));
    assert_eq!(map.bonus_food.as_ref().unwrap().pos, (5, 14));
}

#[test]
fn bonus_spawns_now_and_then_on_a_free_cell() {
    let mut rng = StdRng::seed_from_u64(11);
    let mut snake = Snake::new(20, 20);
    snake.food = (10, 13);
    let mut spawned = 0;
    for _ in 0..2000 {
        let mut map = GameMap::new(20, 20);
        map.border_min = (5, 5);
        map.border_max = (15, 15);
        map.walls = vec![(6, 6)];
        map.maybe_spawn_bonus(&snake, &mut rng);
        if let Some(bonus) = &map.bonus_food {
            spawned += 1;
            assert_eq!(bonus.lifetime, BONUS_FOOD_LIFETIME);
            assert!((5..15).contains(&bonus.pos.0) && (5..15).contains(&bonus.pos.1));
            assert!(!on_snake(&snake, bonus.pos));
            assert_ne!(bonus.pos, (6, 6));
            assert_ne!(bonus.pos, snake.food);
        }
        assert_eq!(map.walls, vec![(6, 6)]);
    }
    // one tick in twenty on average
    assert!(spawned > 40 && spawned < 200);
}

#[test]
fn bonus_is_not_replaced_while_it_lives() {
    let mut rng = StdRng::seed_from_u64(11);
    let snake = Snake::new(20, 20);
    let mut map = GameMap::new(20, 20);
    map.bonus_food = Some(BonusFood { pos: (1, 1), lifetime: 7 });
    for _ in 0..500 {
        map.maybe_spawn_bonus(&snake, &mut rng);
    }
    let bonus = map.bonus_food.as_ref().unwrap();
    assert_eq!((bonus.pos, bonus.lifetime), ((1, 1), 7));
}

#[test]
fn bonus_spawn_tolerates_a_full_play_area() {
    let mut rng = StdRng::seed_from_u64(5);
    let mut snake = Snake::new(3, 1);
    snake.food = (0, 0);
    let mut map = GameMap::new(3, 1);
    for _ in 0..500 {
        map.maybe_spawn_bonus(&snake, &mut rng);
    }
    assert!(map.bonus_food.is_none());
    let _ = Settings::default();
}

#[test]
fn bonus_is_due_on_one_side_of_the_die_only() {
    let mut map = GameMap::new(20, 20);
    assert!(map.bonus_due(0));
    for roll in 1..20 {
        assert!(!map.bonus_due(roll));
    }
    assert!(!map.bonus_due(-1));
    map.bonus_food = Some(BonusFood { pos: (1, 1), lifetime: 7 });
    assert!(!map.bonus_due(0));
}

#[test]
fn bonus_goes_to_the_first_free_cell_drawn() {
    let mut snake = Snake::new(20, 20);
    snake.food = (2, 2);
    let mut map = GameMap::new(20, 20);
    map.walls = vec![(3, 3)];
    map.border_max = (20, 15);
    // on the snake, on a wall, on the food, outside the play area, free, free
    let cells = [(10, 10), (3, 3), (2, 2), (5, 15), (7, 8), (9, 9)];
    for roll in 1..20 {
        assert!(!map.spawn_bonus_from(&snake, roll, &cells));
        assert!(map.bonus_food.is_none());
    }
    assert!(map.spawn_bonus_from(&snake, 0, &cells));
    let bonus = map.bonus_food.as_ref().unwrap();
    assert_eq!((bonus.pos, bonus.lifetime), ((7, 8), 30));
    assert_eq!(map.walls, vec![(3, 3)]);
    assert_eq!((map.border_min, map.border_max), ((0, 0), (20, 15)));
    // at most one bonus at a time
    assert!(!map.spawn_bonus_from(&snake, 0, &[(9, 9)]));
    assert_eq!(map.bonus_food.as_ref().unwrap().pos, (7, 8));
}

#[test]
fn bonus_is_given_up_after_fifty_cells() {
    let snake = Snake::new(20, 20);
    let mut map = GameMap::new(20, 20);
    let mut cells = vec![(10, 10); 50];
    cells.push((1, 1));
    assert!(!map.spawn_bonus_from(&snake, 0, &cells));
    assert!(map.bonus_food.is_none());
    cells[49] = (2, 2);
    assert!(map.spawn_bonus_from(&snake, 0, &cells));
    assert_eq!(map.bonus_food.as_ref().unwrap().pos, (2, 2));
    let mut map = GameMap::new(20, 20);
    assert!(!map.spawn_bonus_from(&snake, 0, &[]));
    assert!(map.bonus_food.is_none());
}

#[test]
fn bonus_follows_from_what_was_drawn() {
    let mut rng = StdRng::seed_from_u64(23);
    let mut snake = Snake::new(12, 9);
    snake.food = (4, 7);
    let mut rolls = Vec::new();
    for round in 0..3000 {
        let mut map = GameMap::new(12, 9);
        map.border_min = (3, 4);
        map.border_max = (6, 9);
        // a play area that is nearly full, so that draws miss
        for r in 3..6 {
            for c in 4..9 {
                if (r, c) != (5, 8) && !on_snake(&snake, (r, c)) && round % 2 == 0 {
                    map.walls.push((r, c));
                }
            }
        }
        let walls = map.walls.clone();
        let draws = map.maybe_spawn_bonus(&snake, &mut rng);
        let roll = draws.roll.unwrap();
        assert!((0..20).contains(&roll));
        if !rolls.contains(&roll) {
            rolls.push(roll);
        }
        assert!(draws.cells.len() <= 50);
        for cell in &draws.cells {
            assert!((3..6).contains(&cell.0) && (4..9).contains(&cell.1));
        }
        if roll != 0 {
            assert!(draws.cells.is_empty());
            assert!(map.bonus_food.is_none());
        } else {
            assert!(!draws.cells.is_empty());
            let (last, before) = draws.cells.split_last().unwrap();
            for cell in before {
                assert!(!map.is_free(&snake, *cell));
            }
            match &map.bonus_food {
                Some(bonus) => {
                    assert_eq!(bonus.pos, *last);
                    assert_eq!(bonus.lifetime, 30);
                    assert!(map.is_free(&snake, *last));
                }
                None => {
                    assert_eq!(draws.cells.len(), 50);
                    assert!(!map.is_free(&snake, *last));
                }
            }
        }
        // the same draws give the same board
        let mut again = GameMap::new(12, 9);
        again.border_min = (3, 4);
        again.border_max = (6, 9);
        again.walls = walls;
        let spawned = again.spawn_bonus_from(&snake, roll, &draws.cells);
        assert_eq!(spawned, map.bonus_food.is_some());
        assert_eq!(
            again.bonus_food.as_ref().map(|b| (b.pos, b.lifetime)),
            map.bonus_food.as_ref().map(|b| (b.pos, b.lifetime))
        );
    }
    assert_eq!(rolls.len(), 20);
}

#[test]
fn no_die_is_rolled_while_a_bonus_lives() {
    let mut rng = StdRng::seed_from_u64(23);
    let snake = Snake::new(20, 20);
    let mut map = GameMap::new(20, 20);
    map.bonus_food = Some(BonusFood { pos: (1, 1), lifetime: 7 });
    for _ in 0..200 {
        let draws = map.maybe_spawn_bonus(&snake, &mut rng);
        assert!(draws.roll.is_none());
        assert!(draws.cells.is_empty());
    }
}

#[test]
fn bonus_check_needs_no_room_without_a_bonus() {
    let mut map = GameMap::new(20, 20);
    let mut snake = Snake::new(20, 20);
    snake.score = usize::MAX;
    snake.length = usize::MAX;
    assert!(!map.check_bonus_eaten(&mut snake));
    map.bonus_food = Some(BonusFood { pos: (0, 0), lifetime: 5 });
    assert!(!map.check_bonus_eaten(&mut snake));
    assert_eq!(snake.score, usize::MAX);
}
