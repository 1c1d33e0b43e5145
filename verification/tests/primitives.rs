use snake::screen_buffer::Coordinate;
use snake::snake::{
    check_border_and_ego_collision, get_random_food_pos, grow_snake, move_snake,
    snake_item_collision, snake_snake_collision, Direction, Snake,
};

fn coord(row: usize, col: usize) -> Coordinate {
    Coordinate { row, col }
}

#[test]
fn move_up_shifts_every_cell() {
    let mut body = vec![coord(5, 5), coord(6, 5), coord(7, 5)];
    move_snake(&mut body, Direction::Up);
    assert_eq!(body, vec![coord(4, 5), coord(5, 5), coord(6, 5)]);
}

#[test]
fn move_right_shifts_every_cell() {
    let mut body = vec![coord(5, 5), coord(6, 5), coord(7, 5)];
    move_snake(&mut body, Direction::Right);
    assert_eq!(body, vec![coord(5, 6), coord(5, 5), coord(6, 5)]);
}

#[test]
fn move_down_shifts_every_cell() {
    let mut body = vec![coord(5, 5), coord(5, 6)];
    move_snake(&mut body, Direction::Down);
    assert_eq!(body, vec![coord(6, 5), coord(5, 5)]);
}

#[test]
fn move_left_shifts_every_cell() {
    let mut body = vec![coord(5, 5), coord(5, 6)];
    move_snake(&mut body, Direction::Left);
    assert_eq!(body, vec![coord(5, 4), coord(5, 5)]);
}

#[test]
fn move_preserves_length_for_all_directions() {
    for direction in [Direction::Up, Direction::Down, Direction::Left, Direction::Right] {
        let mut body = vec![coord(10, 10), coord(11, 10), coord(12, 10)];
        move_snake(&mut body, direction);
        assert_eq!(body.len(), 3);
    }
}

#[test]
fn growth_takes_effect_once_after_the_next_move() {
    let mut body = vec![coord(5, 5), coord(6, 5), coord(7, 5)];
    grow_snake(&mut body, 3);
    assert_eq!(body.len(), 6);
    assert_eq!(body[3], coord(7, 5));
    assert_eq!(body[4], coord(7, 5));
    assert_eq!(body[5], coord(7, 5));
    move_snake(&mut body, Direction::Up);
    assert_eq!(body.len(), 6);
    assert_eq!(body[0], coord(4, 5));
}

#[test]
fn single_cell_on_top_row_collides() {
    for col in [0, 1, 3, 6] {
        let body = vec![coord(0, col)];
        assert!(check_border_and_ego_collision(&body, 7, 2));
        assert!(check_border_and_ego_collision(&body, 7, 9));
    }
}

#[test]
fn straight_inner_body_does_not_collide() {
    let body = vec![coord(4, 5), coord(5, 5), coord(6, 5)];
    assert!(!check_border_and_ego_collision(&body, 10, 10));
}

#[test]
fn border_collisions_on_every_edge() {
    assert!(check_border_and_ego_collision(&[coord(0, 4)], 10, 10));
    assert!(check_border_and_ego_collision(&[coord(9, 4)], 10, 10));
    assert!(check_border_and_ego_collision(&[coord(4, 0)], 10, 10));
    assert!(check_border_and_ego_collision(&[coord(4, 9)], 10, 10));
}

#[test]
fn head_meeting_own_body_collides() {
    // head equals the third cell
    let body = vec![coord(5, 5), coord(5, 6), coord(5, 5), coord(6, 5)];
    assert!(check_border_and_ego_collision(&body, 10, 10));
}

#[test]
fn item_collision_checks_every_cell() {
    let body = vec![coord(5, 5), coord(6, 5), coord(7, 5)];
    assert!(snake_item_collision(&body, &coord(6, 5)));
    assert!(!snake_item_collision(&body, &coord(6, 6)));
    assert!(!snake_item_collision(&[], &coord(0, 0)));
}

#[test]
fn pairwise_collision_blames_the_head_that_ran_in() {
    // snake A's head at (5,5) lies on a non-head cell of snake B
    let snake_a = vec![coord(5, 5), coord(5, 4), coord(5, 3)];
    let snake_b = vec![coord(4, 5), coord(5, 5), coord(6, 5)];
    assert_eq!(snake_snake_collision(&snake_a, &snake_b), 0);
    // the symmetric case blames snake B
    assert_eq!(snake_snake_collision(&snake_b, &snake_a), 1);
    // disjoint bodies blame nobody
    let snake_c = vec![coord(1, 1), coord(1, 2)];
    assert_eq!(snake_snake_collision(&snake_a, &snake_c), -1);
}

#[test]
fn random_food_lies_strictly_inside_the_border() {
    for _ in 0..200 {
        let food = get_random_food_pos(10, 10);
        assert!(food.row >= 1 && food.row <= 8);
        assert!(food.col >= 1 && food.col <= 8);
    }
}

#[test]
fn new_snake_spawns_three_cells_heading_up() {
    let snake = Snake::new(0);
    assert_eq!(snake.direction, Direction::Up);
    assert_eq!(snake.body_pos, vec![coord(18, 10), coord(19, 10), coord(20, 10)]);
    let second = Snake::new(1);
    assert_eq!(second.body_pos, vec![coord(18, 15), coord(19, 15), coord(20, 15)]);
}
