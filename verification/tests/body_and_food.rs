use snake::body::{Segment, Snake, MAX_SEGMENTS, SNAKE_STARTING_LENGTH};
use snake::food::{accept, first_free_cell, random_cell, spawn_food};
use snake::grid::{Direction, Position};

fn cells(snake: &Snake) -> Vec<(i32, i32)> {
    snake.segments.iter().map(|s| (s.position.x, s.position.y)).collect()
}

fn headings(snake: &Snake) -> Vec<Direction> {
    snake.segments.iter().map(|s| s.direction).collect()
}

#[test]
fn segment_new_keeps_its_parts() {
    let s = Segment::new(3, Position::new(1, 2), Direction::Down);
    assert_eq!(s, Segment { id: 3, position: Position { x: 1, y: 2 }, direction: Direction::Down });
}

#[test]
fn starting_snake_is_a_row_of_four() {
    let snake = Snake::new();
    assert_eq!(SNAKE_STARTING_LENGTH, 4);
    assert_eq!(snake.len(), 4);
    assert_eq!(cells(&snake), vec![(0, 0), (-1, 0), (-2, 0), (-3, 0)]);
    assert_eq!(headings(&snake), vec![Direction::Right; 4]);
    for (i, s) in snake.segments.iter().enumerate() {
        assert_eq!(s.id as usize, i);
    }
    assert_eq!(snake.head().position, Position::new(0, 0));
    assert_eq!(snake.tail().position, Position::new(-3, 0));
}

#[test]
fn get_is_none_past_the_tail() {
    let snake = Snake::new();
    assert_eq!(snake.get(3), Some(Segment::new(3, Position::new(-3, 0), Direction::Right)));
    assert_eq!(snake.get(4), None);
}

#[test]
fn occupies_finds_every_segment() {
    let snake = Snake::new();
    for x in -5..=2 {
        assert_eq!(snake.occupies(Position::new(x, 0)), (-3..=0).contains(&x));
        assert!(!snake.occupies(Position::new(x, 1)));
    }
}

#[test]
fn advance_straight_shifts_every_segment() {
    let mut snake = Snake::new();
    snake.advance();
    assert_eq!(cells(&snake), vec![(1, 0), (0, 0), (-1, 0), (-2, 0)]);
    assert_eq!(headings(&snake), vec![Direction::Right; 4]);
    assert_eq!(snake.len(), 4);
}

#[test]
fn turn_changes_the_head_only() {
    let mut snake = Snake::new();
    snake.turn(Direction::Up);
    assert_eq!(cells(&snake), vec![(0, 0), (-1, 0), (-2, 0), (-3, 0)]);
    assert_eq!(
        headings(&snake),
        vec![Direction::Up, Direction::Right, Direction::Right, Direction::Right]
    );
}

#[test]
fn headings_travel_down_the_chain() {
    let mut snake = Snake::new();
    snake.turn(Direction::Up);
    let before = headings(&snake);
    snake.advance();
    assert_eq!(cells(&snake), vec![(0, 1), (0, 0), (-1, 0), (-2, 0)]);
    let after = headings(&snake);
    assert_eq!(after[0], before[0]);
    for i in 1..4 {
        assert_eq!(after[i], before[i - 1]);
    }
    snake.turn(Direction::Left);
    snake.advance();
    assert_eq!(cells(&snake), vec![(-1, 1), (0, 1), (0, 0), (-1, 0)]);
    assert_eq!(
        headings(&snake),
        vec![Direction::Left, Direction::Left, Direction::Up, Direction::Right]
    );
    snake.advance();
    assert_eq!(cells(&snake), vec![(-2, 1), (-1, 1), (0, 1), (0, 0)]);
    assert_eq!(
        headings(&snake),
        vec![Direction::Left, Direction::Left, Direction::Left, Direction::Up]
    );
}

#[test]
fn grow_appends_behind_the_tail() {
    let mut snake = Snake::new();
    snake.grow();
    assert_eq!(snake.len(), 5);
    assert_eq!(snake.tail(), Segment::new(4, Position::new(-4, 0), Direction::Right));
    assert_eq!(cells(&snake), vec![(0, 0), (-1, 0), (-2, 0), (-3, 0), (-4, 0)]);
}

#[test]
fn grow_goes_against_the_tails_heading() {
    let mut snake = Snake::new();
    snake.turn(Direction::Up);
    for _ in 0..4 {
        snake.advance();
    }
    assert_eq!(cells(&snake), vec![(0, 4), (0, 3), (0, 2), (0, 1)]);
    assert_eq!(snake.tail().direction, Direction::Up);
    snake.grow();
    assert_eq!(snake.tail(), Segment::new(4, Position::new(0, 0), Direction::Up));
    snake.advance();
    assert_eq!(cells(&snake), vec![(0, 5), (0, 4), (0, 3), (0, 2), (0, 1)]);
}

#[test]
fn largest_length_is_far_above_the_field() {
    assert!(MAX_SEGMENTS > 39 * 21);
}

#[test]
fn random_cells_lie_in_the_field() {
    for _ in 0..2000 {
        let p = random_cell();
        assert!(p.x >= -19 && p.x <= 19, "{p:?}");
        assert!(p.y >= -10 && p.y <= 10, "{p:?}");
    }
}

#[test]
fn random_cells_vary() {
    let first = random_cell();
    let mut columns_differ = false;
    let mut rows_differ = false;
    for _ in 0..500 {
        let p = random_cell();
        columns_differ = columns_differ || p.x != first.x;
        rows_differ = rows_differ || p.y != first.y;
    }
    assert!(columns_differ && rows_differ);
}

#[test]
fn random_cells_reach_both_ends_of_each_axis() {
    let (mut left, mut right, mut bottom, mut top) = (false, false, false, false);
    for _ in 0..20000 {
        let p = random_cell();
        left = left || p.x == -19;
        right = right || p.x == 19;
        bottom = bottom || p.y == -10;
        top = top || p.y == 10;
    }
    assert!(left && right && bottom && top);
}

#[test]
fn first_free_cell_is_the_bottom_left_corner() {
    let snake = Snake::new();
    assert_eq!(first_free_cell(&snake), Some(Position::new(-19, -10)));
}

#[test]
fn first_free_cell_skips_what_the_snake_covers() {
    let mut segments = Vec::new();
    let mut id = 0;
    for y in -10..=10 {
        segments.push(Segment::new(id, Position::new(-19, y), Direction::Down));
        id += 1;
    }
    segments.push(Segment::new(id, Position::new(-18, -10), Direction::Left));
    let snake = Snake { segments };
    assert_eq!(first_free_cell(&snake), Some(Position::new(-18, -9)));
}

fn covering_snake(skip: Option<(i32, i32)>) -> Snake {
    let mut segments = Vec::new();
    let mut id = 0;
    for x in -19..=19 {
        for y in -10..=10 {
            if Some((x, y)) != skip {
                segments.push(Segment::new(id, Position::new(x, y), Direction::Up));
                id += 1;
            }
        }
    }
    Snake { segments }
}

#[test]
fn no_free_cell_on_a_covered_field() {
    let snake = covering_snake(None);
    assert_eq!(snake.len(), 819);
    assert_eq!(first_free_cell(&snake), None);
    assert_eq!(spawn_food(&snake), None);
}

#[test]
fn the_last_free_cell_is_found() {
    let snake = covering_snake(Some((7, -3)));
    assert_eq!(first_free_cell(&snake), Some(Position::new(7, -3)));
    assert_eq!(spawn_food(&snake), Some(Position::new(7, -3)));
}

#[test]
fn spawned_food_avoids_the_snake() {
    let snake = Snake::new();
    for _ in 0..2000 {
        let p = spawn_food(&snake).unwrap();
        assert!(!snake.occupies(p));
        assert!(p.x >= -19 && p.x <= 19 && p.y >= -10 && p.y <= 10);
    }
}

#[test]
fn accept_takes_a_free_cell_of_the_field() {
    let snake = Snake::new();
    assert_eq!(accept(&snake, Position::new(1, 0)), Some(Position::new(1, 0)));
    assert_eq!(accept(&snake, Position::new(-19, -10)), Some(Position::new(-19, -10)));
    assert_eq!(accept(&snake, Position::new(19, 10)), Some(Position::new(19, 10)));
}

#[test]
fn accept_turns_down_a_cell_under_the_snake() {
    let snake = Snake::new();
    for x in -3..=0 {
        assert_eq!(accept(&snake, Position::new(x, 0)), None);
    }
    assert_eq!(accept(&snake, Position::new(-4, 0)), Some(Position::new(-4, 0)));
}

#[test]
fn accept_turns_down_a_cell_outside_the_field() {
    let snake = Snake::new();
    for p in [
        Position::new(20, 0),
        Position::new(-20, 0),
        Position::new(0, 11),
        Position::new(0, -11),
        Position::new(i32::MAX, i32::MIN),
    ] {
        assert_eq!(accept(&snake, p), None);
    }
}
