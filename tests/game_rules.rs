use snake::{turn_for, Cell, Direction, Food, Game, Pixels, Snake, Turn};
use snake::{FRAME_TIME_MS, GRID_HEIGHT, GRID_WIDTH, TICK_TIME_MS};

fn cell(x: u8, y: u8) -> Cell {
    Cell { x, y }
}

fn snake_at(head: Cell, tail: &[Cell], direction: Direction, dead: bool) -> Snake {
    Snake::from_parts(head, &tail.to_vec(), direction, dead).expect("well-formed parts")
}

fn food_at(c: Cell) -> Food {
    Food { cell: c }
}

#[test]
fn cell_new_wraps_negative_offsets() {
    assert_eq!(Cell::new(-1, -1), cell(4, 4));
    assert_eq!(Cell::new(-5, -6), cell(0, 4));
    assert_eq!(Cell::new(-128, 127), cell(2, 2));
}

#[test]
fn cell_new_wraps_large_offsets() {
    assert_eq!(Cell::new(7, 12), cell(2, 2));
    assert_eq!(Cell::new(5, 5), cell(0, 0));
    assert_eq!(Cell::new(4, 3), cell(4, 3));
}

#[test]
fn cell_new_is_periodic_in_grid_size() {
    for x in -20i8..=20 {
        for y in -20i8..=20 {
            let c = Cell::new(x, y);
            assert!(c.x < GRID_WIDTH && c.y < GRID_HEIGHT);
            for k in -3i8..=3 {
                let shifted = Cell::new(x + k * GRID_WIDTH as i8, y + k * GRID_HEIGHT as i8);
                assert_eq!(c, shifted);
            }
        }
    }
}

#[test]
fn with_direction_wraps_at_every_edge() {
    assert_eq!(cell(0, 0).with_direction(Direction::West), cell(4, 0));
    assert_eq!(cell(0, 0).with_direction(Direction::North), cell(0, 4));
    assert_eq!(cell(4, 4).with_direction(Direction::East), cell(0, 4));
    assert_eq!(cell(4, 4).with_direction(Direction::South), cell(4, 0));
    assert_eq!(cell(2, 2).with_direction(Direction::North), cell(2, 1));
    assert_eq!(cell(2, 2).with_direction(Direction::East), cell(3, 2));
}

#[test]
fn with_turn_table() {
    assert_eq!(Direction::North.with_turn(Turn::Left), Direction::West);
    assert_eq!(Direction::West.with_turn(Turn::Left), Direction::South);
    assert_eq!(Direction::South.with_turn(Turn::Left), Direction::East);
    assert_eq!(Direction::East.with_turn(Turn::Left), Direction::North);
    assert_eq!(Direction::North.with_turn(Turn::Right), Direction::East);
    assert_eq!(Direction::East.with_turn(Turn::Right), Direction::South);
    assert_eq!(Direction::South.with_turn(Turn::Right), Direction::West);
    assert_eq!(Direction::West.with_turn(Turn::Right), Direction::North);
}

#[test]
fn with_turn_is_a_bijection_and_left_right_cancel() {
    let all = [Direction::North, Direction::South, Direction::East, Direction::West];
    for t in [Turn::Left, Turn::Right] {
        let images: Vec<Direction> = all.iter().map(|d| d.with_turn(t)).collect();
        for d in all {
            assert_eq!(images.iter().filter(|&&i| i == d).count(), 1);
        }
    }
    for d in all {
        assert_eq!(d.with_turn(Turn::Left).with_turn(Turn::Right), d);
        assert_eq!(d.with_turn(Turn::Right).with_turn(Turn::Left), d);
    }
}

#[test]
fn new_snake_starts_in_the_middle_facing_east() {
    let s = Snake::new();
    assert_eq!(s.head, cell(2, 2));
    assert_eq!(s.direction, Direction::East);
    assert!(!s.dead);
    assert!(s.tail_cells().is_empty());
}

#[test]
fn first_slither_moves_one_step_east() {
    let mut s = Snake::new();
    s.slither(&Food::new());
    assert_eq!(s.head, cell(3, 2));
    assert!(s.tail_cells().is_empty());
    assert!(!s.dead);
}

#[test]
fn slither_east_wraps_around_the_edge() {
    let mut s = snake_at(cell(4, 2), &[cell(2, 2), cell(3, 2)], Direction::East, false);
    s.slither(&Food::new());
    assert_eq!(s.head, cell(0, 2));
    assert_eq!(s.tail_cells(), vec![cell(3, 2), cell(4, 2)]);
}

#[test]
fn scenario_slither_without_turn() {
    let mut s = snake_at(cell(2, 2), &[cell(0, 2), cell(1, 2)], Direction::East, false);
    s.slither(&Food::new());
    assert_eq!(s.head, cell(3, 2));
    assert_eq!(s.tail_cells(), vec![cell(1, 2), cell(2, 2)]);
    assert!(!s.dead);
}

#[test]
fn scenario_turn_left_then_slither() {
    let mut s = snake_at(cell(2, 2), &[cell(0, 2), cell(1, 2)], Direction::East, false);
    s.turn(Turn::Left);
    assert_eq!(s.direction, Direction::North);
    s.slither(&Food::new());
    assert_eq!(s.head, cell(2, 1));
    assert_eq!(s.tail_cells(), vec![cell(1, 2), cell(2, 2)]);
}

#[test]
fn self_collision_kills_without_moving() {
    let tail = [cell(4, 2), cell(3, 2), cell(1, 2)];
    let mut s = snake_at(cell(2, 2), &tail, Direction::East, false);
    s.slither(&Food::new());
    assert!(s.dead);
    assert_eq!(s.head, cell(2, 2));
    assert_eq!(s.tail_cells(), tail.to_vec());
    assert_eq!(s.direction, Direction::East);
}

#[test]
fn reversal_into_newest_tail_cell_kills() {
    let mut s = snake_at(cell(2, 2), &[cell(0, 2), cell(1, 2)], Direction::West, false);
    s.slither(&Food::new());
    assert!(s.dead);
    assert_eq!(s.head, cell(2, 2));
}

#[test]
fn moving_into_oldest_tail_cell_is_no_collision() {
    let tail = [cell(3, 2), cell(3, 1), cell(2, 1)];
    let mut s = snake_at(cell(2, 2), &tail, Direction::East, false);
    s.slither(&Food::new());
    assert!(!s.dead);
    assert_eq!(s.head, cell(3, 2));
    assert_eq!(s.tail_cells(), vec![cell(3, 1), cell(2, 1), cell(2, 2)]);
}

#[test]
fn eating_food_grows_the_tail_by_one() {
    let mut s = snake_at(cell(2, 2), &[cell(0, 2), cell(1, 2)], Direction::East, false);
    s.slither(&food_at(cell(3, 2)));
    assert_eq!(s.head, cell(3, 2));
    assert_eq!(s.tail_cells(), vec![cell(0, 2), cell(1, 2), cell(2, 2)]);
}

#[test]
fn eating_from_the_start_grows_an_empty_tail() {
    let mut s = Snake::new();
    s.slither(&food_at(cell(3, 2)));
    assert_eq!(s.head, cell(3, 2));
    assert_eq!(s.tail_cells(), vec![cell(2, 2)]);
}

#[test]
fn dead_snake_never_changes() {
    let tail = [cell(0, 2), cell(1, 2)];
    let mut s = snake_at(cell(2, 2), &tail, Direction::East, true);
    for _ in 0..5 {
        s.turn(Turn::Left);
        s.slither(&food_at(cell(3, 2)));
        s.turn(Turn::Right);
        s.slither(&Food::new());
    }
    assert!(s.dead);
    assert_eq!(s.head, cell(2, 2));
    assert_eq!(s.direction, Direction::East);
    assert_eq!(s.tail_cells(), tail.to_vec());
}

#[test]
fn from_parts_refuses_malformed_parts() {
    assert!(Snake::from_parts(cell(5, 0), &vec![], Direction::East, false).is_none());
    assert!(Snake::from_parts(cell(0, 0), &vec![cell(0, 7)], Direction::East, false).is_none());
    let repeated = vec![cell(0, 2), cell(1, 2), cell(1, 2)];
    assert!(Snake::from_parts(cell(2, 2), &repeated, Direction::East, false).is_none());
    let head_in_body = vec![cell(0, 2), cell(2, 2)];
    assert!(Snake::from_parts(cell(2, 2), &head_in_body, Direction::East, false).is_none());
    let head_on_oldest = vec![cell(2, 2), cell(1, 2)];
    assert!(Snake::from_parts(cell(2, 2), &head_on_oldest, Direction::East, false).is_some());
}

#[test]
fn snake_fills_the_whole_grid_without_overflow() {
    // The oldest tail cell is the one the head moves into next; every other
    // cell of the grid is covered.
    let mut tail = vec![cell(0, 4)];
    for y in 0..4u8 {
        for x in 0..5u8 {
            tail.push(cell(x, y));
        }
    }
    tail.extend([cell(1, 4), cell(2, 4), cell(3, 4)]);
    let mut s = snake_at(cell(4, 4), &tail, Direction::East, false);
    assert_eq!(s.tail_cells().len(), 24);
    s.slither(&food_at(cell(0, 4)));
    assert!(!s.dead);
    assert_eq!(s.head, cell(0, 4));
    assert_eq!(s.tail_cells().len(), 25);
    s.slither(&food_at(cell(0, 4)));
    assert!(s.dead);
    assert_eq!(s.tail_cells().len(), 25);
}

#[test]
fn food_starts_in_the_corner() {
    assert_eq!(Food::new().cell, cell(0, 0));
}

#[test]
fn turn_for_maps_button_edges() {
    assert_eq!(turn_for(false, false), None);
    assert_eq!(turn_for(true, false), Some(Turn::Left));
    assert_eq!(turn_for(false, true), Some(Turn::Right));
    assert_eq!(turn_for(true, true), None);
}

#[test]
fn game_update_turns_then_slithers() {
    let mut g = Game::new();
    g.update(true, false);
    assert_eq!(g.snake.direction, Direction::North);
    assert_eq!(g.snake.head, cell(2, 1));
    g.update(true, true);
    assert_eq!(g.snake.direction, Direction::North);
    assert_eq!(g.snake.head, cell(2, 0));
    g.update(false, true);
    assert_eq!(g.snake.direction, Direction::East);
    assert_eq!(g.snake.head, cell(3, 0));
    assert_eq!(g.food.cell, cell(0, 0));
}

#[test]
fn game_eats_the_food_once() {
    let mut g = Game::new();
    g.update(true, false); // North to (2, 1)
    g.update(false, false); // (2, 0)
    g.update(true, false); // West to (1, 0)
    g.update(false, false); // (0, 0): food
    assert_eq!(g.snake.head, cell(0, 0));
    assert_eq!(g.snake.tail_cells(), vec![cell(1, 0)]);
    g.update(false, false); // (4, 0): no more growth
    assert_eq!(g.snake.head, cell(4, 0));
    assert_eq!(g.snake.tail_cells(), vec![cell(0, 0)]);
}

#[test]
fn pixels_new_is_blank() {
    assert_eq!(Pixels::new().data, [[0u8; 5]; 5]);
}

#[test]
fn pixels_merge_turns_on_the_union() {
    let mut a = [[0u8; 5]; 5];
    a[0][1] = 1;
    a[4][4] = 1;
    let mut b = [[0u8; 5]; 5];
    b[0][1] = 1;
    b[2][3] = 1;
    let merged = Pixels::with_array(a).merge(&Pixels::with_array(b));
    let mut expected = [[0u8; 5]; 5];
    expected[0][1] = 1;
    expected[4][4] = 1;
    expected[2][3] = 1;
    assert_eq!(merged.data, expected);
}

#[test]
fn live_game_frames_pulse_the_food() {
    let g = Game {
        snake: snake_at(cell(2, 2), &[cell(0, 2), cell(1, 2)], Direction::East, false),
        food: food_at(cell(4, 4)),
    };
    let frames = g.frames();
    assert_eq!(TICK_TIME_MS / FRAME_TIME_MS, 5);
    assert_eq!(frames.len(), 4);
    let mut snake_only = [[0u8; 5]; 5];
    snake_only[2][0] = 1;
    snake_only[2][1] = 1;
    snake_only[2][2] = 1;
    let mut with_food = snake_only;
    with_food[4][4] = 1;
    assert_eq!(frames[0].data, snake_only);
    assert_eq!(frames[1].data, with_food);
    assert_eq!(frames[2].data, snake_only);
    assert_eq!(frames[3].data, with_food);
}

#[test]
fn dead_game_frames_flash_the_snake() {
    let g = Game {
        snake: snake_at(cell(1, 1), &[cell(1, 3), cell(1, 2)], Direction::North, true),
        food: Food::new(),
    };
    let frames = g.frames();
    assert_eq!(frames.len(), 4);
    let mut snake_only = [[0u8; 5]; 5];
    snake_only[1][1] = 1;
    snake_only[2][1] = 1;
    snake_only[3][1] = 1;
    assert_eq!(frames[0].data, [[0u8; 5]; 5]);
    assert_eq!(frames[1].data, snake_only);
    assert_eq!(frames[2].data, [[0u8; 5]; 5]);
    assert_eq!(frames[3].data, snake_only);
}
