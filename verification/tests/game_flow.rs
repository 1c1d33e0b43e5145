use snake::events::KeyPress;
use snake::game::{round_winner, GameRound};
use snake::screen_buffer::{Coordinate, GameContent, ScreenBuffer};
use snake::snake::{Direction, Player, Snake};

fn coord(row: usize, col: usize) -> Coordinate {
    Coordinate { row, col }
}

fn arrow_player(body: Vec<Coordinate>, direction: Direction, player_idx: usize) -> Player {
    Player {
        left_key: KeyPress::Left,
        right_key: KeyPress::Right,
        up_key: KeyPress::Up,
        down_key: KeyPress::Down,
        snake: Snake { body_pos: body, direction },
        player_idx,
        has_crashed: false,
    }
}

fn letter_player(body: Vec<Coordinate>, direction: Direction, player_idx: usize) -> Player {
    Player {
        left_key: KeyPress::Char('a'),
        right_key: KeyPress::Char('d'),
        up_key: KeyPress::Char('w'),
        down_key: KeyPress::Char('s'),
        snake: Snake { body_pos: body, direction },
        player_idx,
        has_crashed: false,
    }
}

fn single_player_round() -> GameRound {
    GameRound {
        players: vec![arrow_player(
            vec![coord(5, 5), coord(6, 5), coord(7, 5)],
            Direction::Up,
            0,
        )],
        food_pos: coord(3, 3),
        score: 0,
        screen_width: 10,
        screen_height: 10,
        is_four_key_steering: true,
        round_over: false,
        must_exit: false,
    }
}

#[test]
fn one_quiet_tick_moves_the_snake_up() {
    let mut round = single_player_round();
    let mut buffer = ScreenBuffer::new(10, 10, GameContent::Empty);
    round.tick(&vec![], &mut buffer);
    assert_eq!(
        round.players[0].snake.body_pos,
        vec![coord(4, 5), coord(5, 5), coord(6, 5)]
    );
    assert_eq!(round.score, 0);
    assert!(!round.round_over);
    assert!(!round.players[0].has_crashed);
    // the frame shows the snake, the food, and the border
    assert_eq!(buffer.get_at(4, 5), GameContent::SnakeHead(0));
    assert_eq!(buffer.get_at(5, 5), GameContent::SnakeBody(0));
    assert_eq!(buffer.get_at(3, 3), GameContent::Food);
    assert_eq!(buffer.get_at(9, 0), GameContent::Border);
    assert_eq!(buffer.get_at(5, 9), GameContent::Border);
}

#[test]
fn running_into_the_top_border_ends_the_round() {
    let mut round = single_player_round();
    let mut buffer = ScreenBuffer::new(10, 10, GameContent::Empty);
    // head goes (4,5), (3,5), (2,5), (1,5): still running after each tick
    for expected_row in [4, 3, 2, 1] {
        round.tick(&vec![], &mut buffer);
        assert_eq!(round.players[0].snake.body_pos[0], coord(expected_row, 5));
        assert!(!round.round_over);
        assert!(!round.players[0].has_crashed);
        assert_eq!(round.score, 0);
    }
    // the next move puts the head on row 0: border collision
    round.tick(&vec![], &mut buffer);
    assert_eq!(round.players[0].snake.body_pos[0], coord(0, 5));
    assert!(round.round_over);
    assert!(round.players[0].has_crashed);
    assert!(!round.must_exit);
}

#[test]
fn head_in_the_other_snakes_body_blames_the_runner() {
    // player 0's head moves right into (5,5); player 1's body holds (5,5)
    // as a non-head cell after its own move up
    let mut round = GameRound {
        players: vec![
            arrow_player(vec![coord(5, 4), coord(5, 3), coord(5, 2)], Direction::Right, 0),
            letter_player(vec![coord(4, 5), coord(5, 5), coord(6, 5)], Direction::Up, 1),
        ],
        food_pos: coord(8, 8),
        score: 0,
        screen_width: 10,
        screen_height: 10,
        is_four_key_steering: true,
        round_over: false,
        must_exit: false,
    };
    let mut buffer = ScreenBuffer::new(10, 10, GameContent::Empty);
    round.tick(&vec![], &mut buffer);
    assert!(round.round_over);
    assert!(round.players[0].has_crashed);
    assert!(!round.players[1].has_crashed);
}

#[test]
fn two_key_steering_turns_relative_and_opposite_turns_cancel() {
    let mut player = arrow_player(vec![coord(5, 5)], Direction::Up, 0);
    player.update_snake_direction(KeyPress::Left, false);
    assert_eq!(player.snake.direction, Direction::Left);
    player.update_snake_direction(KeyPress::Right, false);
    assert_eq!(player.snake.direction, Direction::Up);
}

#[test]
fn two_key_steering_cycles_clockwise_on_right() {
    let mut player = arrow_player(vec![coord(5, 5)], Direction::Up, 0);
    for expected in [Direction::Right, Direction::Down, Direction::Left, Direction::Up] {
        player.update_snake_direction(KeyPress::Right, false);
        assert_eq!(player.snake.direction, expected);
    }
}

#[test]
fn four_key_steering_blocks_reversal() {
    let mut player = arrow_player(vec![coord(5, 5)], Direction::Up, 0);
    player.update_snake_direction(KeyPress::Down, true);
    assert_eq!(player.snake.direction, Direction::Up);
    player.update_snake_direction(KeyPress::Left, true);
    assert_eq!(player.snake.direction, Direction::Left);
    player.update_snake_direction(KeyPress::Right, true);
    assert_eq!(player.snake.direction, Direction::Left);
    player.update_snake_direction(KeyPress::Up, true);
    assert_eq!(player.snake.direction, Direction::Up);
}

#[test]
fn the_last_keystroke_of_a_tick_wins() {
    let mut round = single_player_round();
    let mut buffer = ScreenBuffer::new(10, 10, GameContent::Empty);
    round.tick(&vec![KeyPress::Left, KeyPress::Right], &mut buffer);
    assert_eq!(round.players[0].snake.direction, Direction::Right);
    assert_eq!(round.players[0].snake.body_pos[0], coord(5, 6));
}

#[test]
fn a_quit_key_ends_the_round_and_changes_nothing_else() {
    let mut round = single_player_round();
    let mut buffer = ScreenBuffer::new(10, 10, GameContent::Empty);
    round.tick(&vec![KeyPress::Up, KeyPress::Char('q')], &mut buffer);
    assert!(round.round_over);
    assert!(round.must_exit);
    assert_eq!(
        round.players[0].snake.body_pos,
        vec![coord(5, 5), coord(6, 5), coord(7, 5)]
    );
    assert_eq!(round.score, 0);
    assert!(!round.players[0].has_crashed);
}

#[test]
fn eating_food_raises_the_score_grows_the_snake_and_moves_the_food() {
    let mut round = single_player_round();
    round.food_pos = coord(4, 5);
    let mut buffer = ScreenBuffer::new(10, 10, GameContent::Empty);
    round.tick(&vec![], &mut buffer);
    assert_eq!(round.score, 1);
    assert_eq!(round.players[0].snake.body_pos.len(), 6);
    assert!(!round.round_over);
    // the food reappears strictly inside the border, off every snake cell
    let food = round.food_pos;
    assert!(food.row >= 1 && food.row <= 8);
    assert!(food.col >= 1 && food.col <= 8);
    assert!(!round.players[0].snake.body_pos.contains(&food));
}

#[test]
fn a_fresh_round_spawns_the_standard_setup() {
    let round = GameRound::new(2, 40, 40, true);
    assert_eq!(round.players.len(), 2);
    assert_eq!(round.food_pos, coord(10, 15));
    assert_eq!(round.score, 0);
    assert!(!round.round_over);
    assert!(!round.must_exit);
    assert_eq!(
        round.players[0].snake.body_pos,
        vec![coord(18, 10), coord(19, 10), coord(20, 10)]
    );
    assert_eq!(
        round.players[1].snake.body_pos,
        vec![coord(18, 15), coord(19, 15), coord(20, 15)]
    );
    assert_eq!(round.players[1].left_key, KeyPress::Char('a'));
    assert_eq!(round.players[0].left_key, KeyPress::Left);
}

#[test]
fn the_winner_is_the_player_who_did_not_crash() {
    let mut round = GameRound {
        players: vec![
            arrow_player(vec![coord(5, 4), coord(5, 3), coord(5, 2)], Direction::Right, 0),
            letter_player(vec![coord(4, 5), coord(5, 5), coord(6, 5)], Direction::Up, 1),
        ],
        food_pos: coord(8, 8),
        score: 0,
        screen_width: 10,
        screen_height: 10,
        is_four_key_steering: true,
        round_over: false,
        must_exit: false,
    };
    let mut buffer = ScreenBuffer::new(10, 10, GameContent::Empty);
    round.tick(&vec![], &mut buffer);
    assert_eq!(round_winner(&round.players), Some(1));
    // nobody crashed: no winner to announce
    let running = single_player_round();
    assert_eq!(round_winner(&running.players), None);
}

#[test]
fn the_score_header_is_drawn_centered_on_the_top_row() {
    let mut round = single_player_round();
    let mut buffer = ScreenBuffer::new(10, 10, GameContent::Empty);
    round.tick(&vec![], &mut buffer);
    // "Score: 0" has length 8; on width 10 it starts at column 1
    let expected = ['S', 'c', 'o', 'r', 'e', ':', ' ', '0'];
    for (i, glyph) in expected.iter().enumerate() {
        assert_eq!(buffer.get_at(0, 1 + i), GameContent::CharacterOnBorder(*glyph));
    }
    assert_eq!(buffer.get_at(0, 0), GameContent::Border);
    assert_eq!(buffer.get_at(0, 9), GameContent::Border);
}
