use rand::Rng;
use vstd::prelude::*;
use vstd::slice::slice_subrange;

use crate::events::KeyPress;
use crate::screen_buffer::{on_border, Coordinate, GameContent, ScreenBuffer};

verus! {

/// A snake's heading. Two-key steering turns through the cyclic order
/// Up, Right, Down, Left; four-key steering sets a heading directly.
#[derive(PartialEq, Eq, Structural, Clone, Copy, Debug)]
pub enum Direction {
    Up,
    Down,
    Left,
    Right,
}

/// The next heading counter-clockwise in the cyclic order
/// Up, Right, Down, Left.
pub open spec fn turn_left(direction: Direction) -> Direction {
    match direction {
        Direction::Up => Direction::Left,
        Direction::Left => Direction::Down,
        Direction::Down => Direction::Right,
        Direction::Right => Direction::Up,
    }
}

/// The next heading clockwise in the cyclic order Up, Right, Down, Left.
pub open spec fn turn_right(direction: Direction) -> Direction {
    match direction {
        Direction::Up => Direction::Right,
        Direction::Right => Direction::Down,
        Direction::Down => Direction::Left,
        Direction::Left => Direction::Up,
    }
}

/// A left turn followed by a right turn restores the original heading,
/// and the other way round: opposite turns always cancel.
pub proof fn lemma_opposite_turns_cancel(direction: Direction)
    ensures
        turn_right(turn_left(direction)) == direction,
        turn_left(turn_right(direction)) == direction,
{
}

/// The head cell translated one step in `direction`: Up decrements the
/// row, Down increments it, Left decrements the column, Right increments
/// it.
pub open spec fn moved_head(head: Coordinate, direction: Direction) -> Coordinate {
    match direction {
        Direction::Up => (Coordinate { row: (head.row - 1) as usize, col: head.col }),
        Direction::Down => (Coordinate { row: (head.row + 1) as usize, col: head.col }),
        Direction::Left => (Coordinate { row: head.row, col: (head.col - 1) as usize }),
        Direction::Right => (Coordinate { row: head.row, col: (head.col + 1) as usize }),
    }
}

/// A body advanced one cell: the translated head is prepended and the old
/// tail cell dropped, so every cell shifts one position down the body.
pub open spec fn moved_body(body: Seq<Coordinate>, direction: Direction) -> Seq<Coordinate> {
    seq![moved_head(body[0], direction)] + body.drop_last()
}

/// A body grown by `amount` cells: copies of the current tail cell are
/// appended. The copies coincide with the tail until later moves separate
/// them.
pub open spec fn grown_body(body: Seq<Coordinate>, amount: nat) -> Seq<Coordinate> {
    body + Seq::new(amount, |i: int| body.last())
}

/// Growth is realized exactly once: a body grown by `amount` and then
/// moved (the move still drops one cell) is longer than the original body
/// by exactly `amount`.
pub proof fn lemma_growth_persists_through_move(
    body: Seq<Coordinate>,
    direction: Direction,
    amount: nat,
)
    requires
        body.len() > 0,
    ensures
        moved_body(grown_body(body, amount), direction).len() == body.len() + amount,
{
}

/// Advances the body one cell in `direction`: the new head is the old head
/// translated one step, every other cell takes its predecessor's place,
/// and the old tail cell disappears. The length never changes. Headings
/// that would step off the coordinate space are excluded by the caller.
pub fn move_snake(snake: &mut Vec<Coordinate>, snake_direction: Direction)
    requires
        old(snake)@.len() > 0,
        snake_direction == Direction::Up ==> old(snake)@[0].row >= 1,
        snake_direction == Direction::Down ==> old(snake)@[0].row + 1 <= usize::MAX,
        snake_direction == Direction::Left ==> old(snake)@[0].col >= 1,
        snake_direction == Direction::Right ==> old(snake)@[0].col + 1 <= usize::MAX,
    ensures
        final(snake)@.len() == old(snake)@.len(),
        final(snake)@[0] == moved_head(old(snake)@[0], snake_direction),
        forall|i: int| 1 <= i < final(snake)@.len() ==> final(snake)@[i] == old(snake)@[i - 1],
        final(snake)@ == moved_body(old(snake)@, snake_direction),
{
    let head = snake[0];
    let new_head = match snake_direction {
        Direction::Up => Coordinate { row: head.row - 1, col: head.col },
        Direction::Down => Coordinate { row: head.row + 1, col: head.col },
        Direction::Left => Coordinate { row: head.row, col: head.col - 1 },
        Direction::Right => Coordinate { row: head.row, col: head.col + 1 },
    };
    snake.insert(0, new_head);
    snake.pop();
    proof {
        assert(final(snake)@ =~= moved_body(old(snake)@, snake_direction));
    }
}

/// Appends `amount` copies of the tail cell, growing the body at once;
/// the next moves separate the copies one per tick.
pub fn grow_snake(snake: &mut Vec<Coordinate>, amount: usize)
    requires
        old(snake)@.len() > 0,
    ensures
        final(snake)@ == grown_body(old(snake)@, amount as nat),
{
    let tail = snake[snake.len() - 1];
    let mut added: usize = 0;
    while added < amount
        invariant
            added <= amount,
            old(snake)@.len() > 0,
            tail == old(snake)@.last(),
            snake@ == grown_body(old(snake)@, added as nat),
        decreases amount - added,
    {
        snake.push(tail);
        added = added + 1;
        proof {
            assert(snake@ =~= grown_body(old(snake)@, added as nat));
        }
    }
    proof {
        assert(final(snake)@ =~= grown_body(old(snake)@, amount as nat));
    }
}

/// True exactly when some cell of `snake` equals `item`.
pub fn snake_item_collision(snake: &[Coordinate], item: &Coordinate) -> (collides: bool)
    ensures
        collides == snake@.contains(*item),
{
    let mut i: usize = 0;
    while i < snake.len()
        invariant
            i <= snake@.len(),
            forall|j: int| 0 <= j < i ==> snake@[j] != *item,
        decreases snake@.len() - i,
    {
        if snake[i] == *item {
            assert(snake@[i as int] == *item);
            return true;
        }
        i = i + 1;
    }
    false
}

/// The head touches the outer edge of the grid, or coincides with one of
/// the body's non-head cells.
pub open spec fn border_or_self_collision(
    body: Seq<Coordinate>,
    width: int,
    height: int,
) -> bool {
    on_border(body[0].row as int, body[0].col as int, width, height) || body.drop_first().contains(
        body[0],
    )
}

/// A single-cell body whose head lies on the top row always collides,
/// whatever its column and whatever the grid dimensions.
pub proof fn lemma_top_row_head_collides(body: Seq<Coordinate>, width: int, height: int)
    requires
        body.len() == 1,
        body[0].row == 0,
        width >= 2,
        height >= 2,
    ensures
        border_or_self_collision(body, width, height),
{
}

/// A straight vertical three-cell body lying strictly inside the grid
/// collides with neither the border nor itself.
pub proof fn lemma_straight_inner_body_is_safe(body: Seq<Coordinate>, width: int, height: int)
    requires
        body.len() == 3,
        forall|i: int|
            0 <= i < 3 ==> 1 <= #[trigger] body[i].row < height - 1 && 1 <= body[i].col < width
                - 1,
        body[1].row == body[0].row + 1,
        body[1].col == body[0].col,
        body[2].row == body[1].row + 1,
        body[2].col == body[1].col,
    ensures
        !border_or_self_collision(body, width, height),
{
    assert(body[0].row >= 1 && body[0].col >= 1);
    let rest = body.drop_first();
    assert(rest.len() == 2);
    assert(rest[0] == body[1]);
    assert(rest[1] == body[2]);
    if rest.contains(body[0]) {
        let i = choose|i: int| 0 <= i < rest.len() && rest[i] == body[0];
        assert(rest[i].row != body[0].row);
    }
}

/// True exactly when the head touches the border or a non-head cell of
/// the body; the first cell is the head.
pub fn check_border_and_ego_collision(
    snake_body: &[Coordinate],
    screen_width: usize,
    screen_height: usize,
) -> (collides: bool)
    requires
        snake_body@.len() > 0,
        screen_width >= 1,
        screen_height >= 1,
    ensures
        collides == border_or_self_collision(
            snake_body@,
            screen_width as int,
            screen_height as int,
        ),
{
    let head = snake_body[0];
    if head.row == 0 || head.row == screen_height - 1 || head.col == 0 || head.col
        == screen_width - 1 {
        return true;
    }
    let rest = slice_subrange(snake_body, 1, snake_body.len());
    assert(rest@ =~= snake_body@.drop_first());
    snake_item_collision(rest, &head)
}

/// Which snake is at fault in a pairwise collision: 0 when snake A's head
/// overlaps a non-head cell of snake B (checked first, the documented
/// tie-break), 1 in the symmetric case, -1 when neither holds.
pub open spec fn pairwise_fault(snake_a: Seq<Coordinate>, snake_b: Seq<Coordinate>) -> int {
    if snake_b.drop_first().contains(snake_a[0]) {
        0
    } else if snake_a.drop_first().contains(snake_b[0]) {
        1
    } else {
        -1
    }
}

/// Attributes fault for a collision between two snakes: the index (0 for
/// A, 1 for B) of the snake whose head ran into the other's body, or -1
/// when the snakes are disjoint. When each head lies in the other's body,
/// fault goes to snake A, the first one checked.
pub fn snake_snake_collision(snake_a: &[Coordinate], snake_b: &[Coordinate]) -> (collider: i64)
    requires
        snake_a@.len() > 0,
        snake_b@.len() > 0,
    ensures
        collider == pairwise_fault(snake_a@, snake_b@),
{
    let rest_b = slice_subrange(snake_b, 1, snake_b.len());
    assert(rest_b@ =~= snake_b@.drop_first());
    if snake_item_collision(rest_b, &snake_a[0]) {
        return 0;
    }
    let rest_a = slice_subrange(snake_a, 1, snake_a.len());
    assert(rest_a@ =~= snake_a@.drop_first());
    if snake_item_collision(rest_a, &snake_b[0]) {
        return 1;
    }
    -1
}

/// Relies on rand::Rng::gen_range over a half-open range of usize: the
/// sample always lies within the range. rand panics only on an empty
/// range, which the precondition rules out.
#[verifier::external_body]
fn sample_usize_in(low: usize, high: usize) -> (sample: usize)
    requires
        low < high,
    ensures
        low <= sample < high,
{
    rand::thread_rng().gen_range(low..high)
}

/// A uniformly random cell strictly inside the border: row and column
/// both lie between 1 and the respective dimension minus 2, inclusive.
/// The caller re-rolls until the cell is free of every snake.
pub fn get_random_food_pos(screen_height: usize, screen_width: usize) -> (food_pos: Coordinate)
    requires
        screen_height >= 3,
        screen_width >= 3,
    ensures
        1 <= food_pos.row <= screen_height - 2,
        1 <= food_pos.col <= screen_width - 2,
{
    let row = sample_usize_in(1, screen_height - 1);
    let col = sample_usize_in(1, screen_width - 1);
    Coordinate { row, col }
}

/// One player's snake: the body cells, head first, and the current
/// heading. The body is never empty.
#[derive(PartialEq, Clone, Debug)]
pub struct Snake {
    pub body_pos: Vec<Coordinate>,
    pub direction: Direction,
}

/// The column a player's snake spawns in: offset right by five columns
/// per player index so the snakes never overlap.
pub open spec fn spawn_col(player_idx: int) -> int {
    10 + player_idx * 5
}

/// A fresh snake for `player_idx`: three cells stacked vertically at rows
/// 18 to 20, head on top.
pub open spec fn spawn_body(player_idx: int) -> Seq<Coordinate> {
    seq![
        (Coordinate { row: 18, col: spawn_col(player_idx) as usize }),
        (Coordinate { row: 19, col: spawn_col(player_idx) as usize }),
        (Coordinate { row: 20, col: spawn_col(player_idx) as usize }),
    ]
}

impl Snake {
    /// A fresh three-cell snake for `player_idx`, heading up.
    pub fn new(player_idx: usize) -> (snake: Snake)
        requires
            player_idx <= 1,
        ensures
            snake.direction == Direction::Up,
            snake.body_pos@ == spawn_body(player_idx as int),
    {
        let col = 10 + player_idx * 5;
        let mut body_pos: Vec<Coordinate> = Vec::new();
        body_pos.push(Coordinate { row: 18, col });
        body_pos.push(Coordinate { row: 19, col });
        body_pos.push(Coordinate { row: 20, col });
        proof {
            assert(body_pos@ =~= spawn_body(player_idx as int));
        }
        Snake { body_pos, direction: Direction::Up }
    }
}

/// One player: the key bindings the player steers with, the snake, the
/// player's index (0 or 1, used for spawn offset and colour), and whether
/// this player's snake ended the round.
#[derive(PartialEq, Clone, Debug)]
pub struct Player {
    pub left_key: KeyPress,
    pub right_key: KeyPress,
    pub up_key: KeyPress,
    pub down_key: KeyPress,
    pub snake: Snake,
    pub player_idx: usize,
    pub has_crashed: bool,
}

/// The heading after a four-key steering event: the key's direction is
/// taken unless it lies on the axis the snake already moves along, which
/// blocks instant reversal into the snake's own neck.
pub open spec fn four_key_steered(player: Player, key: KeyPress) -> Direction {
    let current = player.snake.direction;
    if key == player.up_key && current != Direction::Up && current != Direction::Down {
        Direction::Up
    } else if key == player.down_key && current != Direction::Up && current
        != Direction::Down {
        Direction::Down
    } else if key == player.left_key && current != Direction::Right && current
        != Direction::Left {
        Direction::Left
    } else if key == player.right_key && current != Direction::Right && current
        != Direction::Left {
        Direction::Right
    } else {
        current
    }
}

/// The heading after a two-key steering event: the left key turns
/// counter-clockwise, the right key clockwise, any other key leaves the
/// heading alone.
pub open spec fn two_key_steered(player: Player, key: KeyPress) -> Direction {
    if key == player.left_key {
        turn_left(player.snake.direction)
    } else if key == player.right_key {
        turn_right(player.snake.direction)
    } else {
        player.snake.direction
    }
}

/// The heading after one steering event under the chosen steering mode.
pub open spec fn steered_direction(player: Player, key: KeyPress, four_key: bool) -> Direction {
    if four_key {
        four_key_steered(player, key)
    } else {
        two_key_steered(player, key)
    }
}

/// Everything but the heading is unchanged between the two player states.
pub open spec fn only_direction_updated(before: Player, after: Player) -> bool {
    &&& after.left_key == before.left_key
    &&& after.right_key == before.right_key
    &&& after.up_key == before.up_key
    &&& after.down_key == before.down_key
    &&& after.snake.body_pos == before.snake.body_pos
    &&& after.player_idx == before.player_idx
    &&& after.has_crashed == before.has_crashed
}

impl Player {
    /// A fresh player with the given key bindings and a newly spawned
    /// snake; no crash yet.
    pub fn new(
        left_key: KeyPress,
        right_key: KeyPress,
        up_key: KeyPress,
        down_key: KeyPress,
        player_idx: usize,
    ) -> (player: Player)
        requires
            player_idx <= 1,
        ensures
            player.left_key == left_key,
            player.right_key == right_key,
            player.up_key == up_key,
            player.down_key == down_key,
            player.player_idx == player_idx,
            player.has_crashed == false,
            player.snake.direction == Direction::Up,
            player.snake.body_pos@ == spawn_body(player_idx as int),
    {
        Player {
            snake: Snake::new(player_idx),
            left_key,
            right_key,
            up_key,
            down_key,
            player_idx,
            has_crashed: false,
        }
    }

    /// Applies one steering event to the snake's heading under the chosen
    /// steering mode; nothing else about the player changes.
    pub fn update_snake_direction(&mut self, key_event: KeyPress, is_four_key_steering: bool)
        ensures
            final(self).snake.direction == steered_direction(
                *old(self),
                key_event,
                is_four_key_steering,
            ),
            only_direction_updated(*old(self), *final(self)),
    {
        if is_four_key_steering {
            self.update_direction_four_keys(key_event);
        } else {
            self.update_direction_two_keys(key_event);
        }
    }

    /// Four-key steering: take the key's heading unless it lies on the
    /// current axis of motion.
    fn update_direction_four_keys(&mut self, key_event: KeyPress)
        ensures
            final(self).snake.direction == four_key_steered(*old(self), key_event),
            only_direction_updated(*old(self), *final(self)),
    {
        if key_event == self.up_key && self.snake.direction != Direction::Up
            && self.snake.direction != Direction::Down {
            self.snake.direction = Direction::Up;
        } else if key_event == self.down_key && self.snake.direction != Direction::Up
            && self.snake.direction != Direction::Down {
            self.snake.direction = Direction::Down;
        } else if key_event == self.left_key && self.snake.direction != Direction::Right
            && self.snake.direction != Direction::Left {
            self.snake.direction = Direction::Left;
        } else if key_event == self.right_key && self.snake.direction != Direction::Right
            && self.snake.direction != Direction::Left {
            self.snake.direction = Direction::Right;
        }
    }

    /// Two-key steering: the left key turns counter-clockwise, the right
    /// key clockwise.
    fn update_direction_two_keys(&mut self, key_event: KeyPress)
        ensures
            final(self).snake.direction == two_key_steered(*old(self), key_event),
            only_direction_updated(*old(self), *final(self)),
    {
        if key_event == self.left_key {
            self.snake.direction = match self.snake.direction {
                Direction::Up => Direction::Left,
                Direction::Left => Direction::Down,
                Direction::Down => Direction::Right,
                Direction::Right => Direction::Up,
            };
        } else if key_event == self.right_key {
            self.snake.direction = match self.snake.direction {
                Direction::Up => Direction::Right,
                Direction::Right => Direction::Down,
                Direction::Down => Direction::Left,
                Direction::Left => Direction::Up,
            };
        }
    }
}

/// What a buffer cell shows after one snake is drawn over it: a non-head
/// body cell wins over the head (the body is drawn second), the head over
/// the previous content.
pub open spec fn snake_overlay(
    base: GameContent,
    body: Seq<Coordinate>,
    player_idx: usize,
    row: int,
    col: int,
) -> GameContent {
    if exists|i: int| 1 <= i < body.len() && body[i].row == row && body[i].col == col {
        GameContent::SnakeBody(player_idx)
    } else if body[0].row == row && body[0].col == col {
        GameContent::SnakeHead(player_idx)
    } else {
        base
    }
}

/// Draws one snake into the buffer: the head cell as `SnakeHead`, every
/// other cell as `SnakeBody`, both tagged with the player's index. All
/// body cells must lie on the grid.
pub fn add_snake_to_buffer(
    screen_buffer: &mut ScreenBuffer,
    snake: &[Coordinate],
    player_idx: usize,
)
    requires
        old(screen_buffer).wf(),
        snake@.len() > 0,
        forall|i: int|
            0 <= i < snake@.len() ==> (#[trigger] snake@[i]).row < old(screen_buffer).height()
                && snake@[i].col < old(screen_buffer).width(),
    ensures
        final(screen_buffer).wf(),
        final(screen_buffer).same_dimensions(old(screen_buffer)),
        forall|r: int, c: int|
            0 <= r < final(screen_buffer).height() && 0 <= c < final(screen_buffer).width()
                ==> final(screen_buffer).cell(r, c) == snake_overlay(
                old(screen_buffer).cell(r, c),
                snake@,
                player_idx,
                r,
                c,
            ),
{
    let head = snake[0];
    screen_buffer.set_at(head.row, head.col, GameContent::SnakeHead(player_idx));
    let mut i: usize = 1;
    while i < snake.len()
        invariant
            1 <= i <= snake@.len(),
            screen_buffer.wf(),
            screen_buffer.same_dimensions(old(screen_buffer)),
            forall|k: int|
                0 <= k < snake@.len() ==> (#[trigger] snake@[k]).row < screen_buffer.height()
                    && snake@[k].col < screen_buffer.width(),
            forall|r: int, c: int|
                0 <= r < screen_buffer.height() && 0 <= c < screen_buffer.width()
                    ==> screen_buffer.cell(r, c) == (if exists|k: int|
                    1 <= k < i && snake@[k].row == r && snake@[k].col == c {
                    GameContent::SnakeBody(player_idx)
                } else if snake@[0].row == r && snake@[0].col == c {
                    GameContent::SnakeHead(player_idx)
                } else {
                    old(screen_buffer).cell(r, c)
                }),
        decreases snake@.len() - i,
    {
        let cell = snake[i];
        screen_buffer.set_at(cell.row, cell.col, GameContent::SnakeBody(player_idx));
        proof {
            assert(snake@[i as int].row == cell.row && snake@[i as int].col == cell.col);
        }
        i = i + 1;
    }
}

} // verus!
