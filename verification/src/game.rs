use vstd::arithmetic::div_mod::lemma_div_is_ordered;
use vstd::prelude::*;
use vstd::std_specs::cmp::PartialEqSpec;

use crate::events::{lemma_matches_of_key_nonempty, matches_of_key, matches_of_keys, KeyPress};
use crate::screen_buffer::{centered_start, on_border, Coordinate, GameContent, ScreenBuffer};
use crate::snake::{
    add_snake_to_buffer, border_or_self_collision, check_border_and_ego_collision,
    get_random_food_pos, grow_snake, grown_body, move_snake, moved_body, pairwise_fault,
    snake_item_collision, snake_overlay, snake_snake_collision, steered_direction, Direction,
    Player,
};

verus! {

/// How many cells a snake gains from one piece of food.
pub const GROWTH_PER_FOOD: usize = 3;

/// How often a fresh food cell is sampled before giving up for the tick;
/// at the grid sizes used, free cells always exist and the cap is never
/// reached in practice, but it bounds the loop.
pub const FOOD_PLACEMENT_TRIES: usize = 10000;

/// The decimal digit `d` (0 to 9) as a character.
pub open spec fn digit_char(d: nat) -> char {
    ((48 + d) as u8) as char
}

/// The decimal digits of `n`, most significant first.
pub open spec fn decimal_digits(n: nat) -> Seq<char>
    decreases n,
{
    if n < 10 {
        seq![digit_char(n)]
    } else {
        decimal_digits(n / 10).push(digit_char(n % 10))
    }
}

/// A smaller number never takes more decimal digits.
pub proof fn lemma_decimal_digits_monotone(a: nat, b: nat)
    requires
        a <= b,
    ensures
        decimal_digits(a).len() <= decimal_digits(b).len(),
    decreases b,
{
    if b >= 10 && a >= 10 {
        lemma_div_is_ordered(a as int, b as int, 10);
        assert(b / 10 < b) by (nonlinear_arith)
            requires
                b >= 10,
        ;
        lemma_decimal_digits_monotone(a / 10, b / 10);
    }
}

/// The text of the score header: `Score: ` followed by the decimal score.
pub open spec fn score_text(score: nat) -> Seq<char> {
    seq!['S', 'c', 'o', 'r', 'e', ':', ' '] + decimal_digits(score)
}

/// Appends the decimal digits of `n`, most significant first.
fn push_decimal_digits(n: u64, out: &mut Vec<char>)
    ensures
        final(out)@ == old(out)@ + decimal_digits(n as nat),
    decreases n,
{
    if n >= 10 {
        push_decimal_digits(n / 10, out);
    }
    let digit = (n % 10) as u8;
    out.push((48 + digit) as char);
    proof {
        assert(final(out)@ =~= old(out)@ + decimal_digits(n as nat));
    }
}

/// The score header line, `Score: ` followed by the decimal score.
pub fn score_line(score: u64) -> (line: Vec<char>)
    ensures
        line@ == score_text(score as nat),
{
    let mut line: Vec<char> = Vec::new();
    line.push('S');
    line.push('c');
    line.push('o');
    line.push('r');
    line.push('e');
    line.push(':');
    line.push(' ');
    push_decimal_digits(score, &mut line);
    proof {
        assert(line@ =~= score_text(score as nat));
    }
    line
}

/// Every cell of `body` lies strictly inside the border of a
/// `width x height` grid.
pub open spec fn body_inside(body: Seq<Coordinate>, width: int, height: int) -> bool {
    forall|i: int|
        0 <= i < body.len() ==> 1 <= (#[trigger] body[i]).row <= height - 2 && 1 <= body[i].col
            <= width - 2
}

/// The total number of body cells over all players.
pub open spec fn total_body_cells(players: Seq<Player>) -> nat
    decreases players.len(),
{
    if players.len() == 0 {
        0
    } else {
        total_body_cells(players.drop_last()) + players.last().snake.body_pos@.len()
    }
}

/// The state of one round in play: the players with their snakes, the
/// shared food cell, the round score, the grid dimensions and steering
/// mode, and the two controller flags — `round_over` once a collision or
/// a quit request ends the round, `must_exit` once quitting was requested.
pub struct GameRound {
    pub players: Vec<Player>,
    pub food_pos: Coordinate,
    pub score: u64,
    pub screen_width: usize,
    pub screen_height: usize,
    pub is_four_key_steering: bool,
    pub round_over: bool,
    pub must_exit: bool,
}

impl GameRound {
    /// The round invariant: the grid is large enough to have an inside,
    /// there are one or two players, every snake has at least one cell,
    /// the food lies strictly inside the border, every snake lies strictly
    /// inside while the round is running and nobody has crashed yet, and
    /// the score counts exactly the food eaten — each piece grew some
    /// snake by `GROWTH_PER_FOOD` cells.
    pub open spec fn wf(&self) -> bool {
        &&& 3 <= self.screen_width
        &&& 3 <= self.screen_height
        &&& 1 <= self.players@.len() <= 2
        &&& forall|k: int|
            0 <= k < self.players@.len() ==> (#[trigger] self.players@[k]).snake.body_pos@.len()
                > 0
        &&& 1 <= self.food_pos.row <= self.screen_height - 2
        &&& 1 <= self.food_pos.col <= self.screen_width - 2
        &&& !self.round_over ==> forall|k: int|
            0 <= k < self.players@.len() ==> body_inside(
                (#[trigger] self.players@[k]).snake.body_pos@,
                self.screen_width as int,
                self.screen_height as int,
            )
        &&& !self.round_over ==> forall|k: int|
            0 <= k < self.players@.len() ==> !(#[trigger] self.players@[k]).has_crashed
        &&& 3 * self.score + 3 * self.players@.len() == total_body_cells(self.players@)
    }

    /// A fresh round: one or two players with the standard key bindings
    /// (arrow keys for the first player, the a/d/w/s keys for the second),
    /// freshly spawned snakes, the food at its fixed starting cell, and a
    /// zero score.
    pub fn new(
        num_players: usize,
        screen_width: usize,
        screen_height: usize,
        is_four_key_steering: bool,
    ) -> (round: GameRound)
        requires
            1 <= num_players <= 2,
            screen_width >= 17,
            screen_height >= 22,
        ensures
            round.wf(),
            round.players@.len() == num_players,
            round.screen_width == screen_width,
            round.screen_height == screen_height,
            round.is_four_key_steering == is_four_key_steering,
            round.score == 0,
            !round.round_over,
            !round.must_exit,
            round.food_pos == (Coordinate { row: 10, col: 15 }),
            forall|k: int|
                0 <= k < num_players ==> (#[trigger] round.players@[k]).player_idx == k
                    && round.players@[k].snake.direction == Direction::Up
                    && round.players@[k].snake.body_pos@ == crate::snake::spawn_body(k)
                    && !round.players@[k].has_crashed,
            round.players@[0].left_key == KeyPress::Left,
            round.players@[0].right_key == KeyPress::Right,
            round.players@[0].up_key == KeyPress::Up,
            round.players@[0].down_key == KeyPress::Down,
            num_players == 2 ==> round.players@[1].left_key == (KeyPress::Char('a'))
                && round.players@[1].right_key == (KeyPress::Char('d'))
                && round.players@[1].up_key == (KeyPress::Char('w'))
                && round.players@[1].down_key == (KeyPress::Char('s')),
    {
        let mut players: Vec<Player> = Vec::new();
        players.push(
            Player::new(KeyPress::Left, KeyPress::Right, KeyPress::Up, KeyPress::Down, 0),
        );
        if num_players == 2 {
            players.push(
                Player::new(
                    KeyPress::Char('a'),
                    KeyPress::Char('d'),
                    KeyPress::Char('w'),
                    KeyPress::Char('s'),
                    1,
                ),
            );
        }
        proof {
            if players@.len() == 1 {
                assert(players@.drop_last().len() == 0);
                assert(total_body_cells(players@.drop_last()) == 0);
                assert(players@.last().snake.body_pos@.len() == 3);
            } else {
                let first_only = players@.drop_last();
                assert(first_only.drop_last().len() == 0);
                assert(total_body_cells(first_only.drop_last()) == 0);
                assert(first_only.last() == players@[0]);
                assert(first_only.last().snake.body_pos@.len() == 3);
                assert(players@.last().snake.body_pos@.len() == 3);
                assert(total_body_cells(first_only) == total_body_cells(first_only.drop_last())
                    + first_only.last().snake.body_pos@.len());
            }
            assert(total_body_cells(players@) == 3 * players@.len());
        }
        GameRound {
            players,
            food_pos: Coordinate { row: 10, col: 15 },
            score: 0,
            screen_width,
            screen_height,
            is_four_key_steering,
            round_over: false,
            must_exit: false,
        }
    }
}

/// The keys that request quitting the game: Escape and the letter q.
pub open spec fn quit_requested(events: Seq<KeyPress>) -> bool {
    events.contains(KeyPress::Esc) || events.contains(KeyPress::Char('q'))
}

/// Whether `key` is one of the four keys bound to this player.
pub open spec fn is_bound_key(player: Player, key: KeyPress) -> bool {
    key == player.left_key || key == player.right_key || key == player.up_key || key
        == player.down_key
}

/// The last event of the batch that matches one of the player's bound
/// keys: within one tick, later keystrokes override earlier ones.
pub open spec fn last_bound_key(events: Seq<KeyPress>, player: Player) -> Option<KeyPress>
    decreases events.len(),
{
    if events.len() == 0 {
        None::<KeyPress>
    } else if is_bound_key(player, events.last()) {
        Some(events.last())
    } else {
        last_bound_key(events.drop_last(), player)
    }
}

/// The heading a player holds after one tick's input batch: the last
/// matching event steers, under the given steering mode; no matching
/// event leaves the heading alone.
pub open spec fn steered_dir_of(
    player: Player,
    events: Seq<KeyPress>,
    four_key: bool,
) -> Direction {
    match last_bound_key(events, player) {
        Option::Some(key) => steered_direction(player, key, four_key),
        Option::None => player.snake.direction,
    }
}

/// A player's body after steering and the tick's one-cell move.
pub open spec fn post_move_body(
    player: Player,
    events: Seq<KeyPress>,
    four_key: bool,
) -> Seq<Coordinate> {
    moved_body(player.snake.body_pos@, steered_dir_of(player, events, four_key))
}

/// Whether the player's head lands on the food cell this tick.
pub open spec fn eats_food(
    player: Player,
    events: Seq<KeyPress>,
    four_key: bool,
    food_pos: Coordinate,
) -> bool {
    post_move_body(player, events, four_key)[0] == food_pos
}

/// A player's body at the end of the tick: moved, and grown by
/// `GROWTH_PER_FOOD` tail copies when the head landed on the food.
pub open spec fn post_tick_body(
    player: Player,
    events: Seq<KeyPress>,
    four_key: bool,
    food_pos: Coordinate,
) -> Seq<Coordinate> {
    if eats_food(player, events, four_key, food_pos) {
        grown_body(post_move_body(player, events, four_key), GROWTH_PER_FOOD as nat)
    } else {
        post_move_body(player, events, four_key)
    }
}

/// How many players' heads land on the food cell this tick.
pub open spec fn eaten_count(
    players: Seq<Player>,
    events: Seq<KeyPress>,
    four_key: bool,
    food_pos: Coordinate,
) -> nat
    decreases players.len(),
{
    if players.len() == 0 {
        0
    } else {
        eaten_count(players.drop_last(), events, four_key, food_pos) + (
        if eats_food(players.last(), events, four_key, food_pos) {
            1 as nat
        } else {
            0 as nat
        })
    }
}

/// Whether this player's end-of-tick body hits the border or itself.
pub open spec fn hits_border_or_self(
    player: Player,
    events: Seq<KeyPress>,
    four_key: bool,
    food_pos: Coordinate,
    width: int,
    height: int,
) -> bool {
    border_or_self_collision(post_tick_body(player, events, four_key, food_pos), width, height)
}

/// Whether any player's end-of-tick body hits the border or itself.
pub open spec fn any_border_crash(
    players: Seq<Player>,
    events: Seq<KeyPress>,
    four_key: bool,
    food_pos: Coordinate,
    width: int,
    height: int,
) -> bool {
    exists|k: int|
        0 <= k < players.len() && hits_border_or_self(
            #[trigger] players[k],
            events,
            four_key,
            food_pos,
            width,
            height,
        )
}

/// The key bindings and player index are unchanged between the two
/// player states.
pub open spec fn same_player_identity(before: Player, after: Player) -> bool {
    &&& after.left_key == before.left_key
    &&& after.right_key == before.right_key
    &&& after.up_key == before.up_key
    &&& after.down_key == before.down_key
    &&& after.player_idx == before.player_idx
}

/// Scans the batch from the end for the last event bound to this player.
fn last_bound_event(events: &Vec<KeyPress>, player: &Player) -> (found: Option<KeyPress>)
    ensures
        found == last_bound_key(events@, *player),
{
    proof {
        assert(events@.subrange(0, events@.len() as int) =~= events@);
    }
    let mut i: usize = events.len();
    while i > 0
        invariant
            i <= events@.len(),
            last_bound_key(events@, *player) == last_bound_key(
                events@.subrange(0, i as int),
                *player,
            ),
        decreases i,
    {
        let key = events[i - 1];
        proof {
            assert(events@.subrange(0, i as int).last() == events@[i - 1]);
            assert(events@.subrange(0, i as int).drop_last() =~= events@.subrange(0, i - 1));
        }
        if key == player.left_key || key == player.right_key || key == player.up_key || key
            == player.down_key {
            return Some(key);
        }
        i = i - 1;
    }
    None
}

/// Carries one player through a tick: applies the last matching steering
/// event, moves the snake one cell, and, when the head lands on the food,
/// grows the snake and reports the consumption.
fn advance_player(
    player: &mut Player,
    events: &Vec<KeyPress>,
    is_four_key_steering: bool,
    food_pos: Coordinate,
    screen_width: usize,
    screen_height: usize,
) -> (ate: bool)
    requires
        old(player).snake.body_pos@.len() > 0,
        body_inside(old(player).snake.body_pos@, screen_width as int, screen_height as int),
        3 <= screen_width,
        3 <= screen_height,
    ensures
        same_player_identity(*old(player), *final(player)),
        final(player).has_crashed == old(player).has_crashed,
        final(player).snake.direction == steered_dir_of(
            *old(player),
            events@,
            is_four_key_steering,
        ),
        final(player).snake.body_pos@ == post_tick_body(
            *old(player),
            events@,
            is_four_key_steering,
            food_pos,
        ),
        ate == eats_food(*old(player), events@, is_four_key_steering, food_pos),
{
    match last_bound_event(events, player) {
        Some(key) => player.update_snake_direction(key, is_four_key_steering),
        None => {},
    }
    proof {
        assert(player.snake.body_pos@[0] == old(player).snake.body_pos@[0]);
    }
    move_snake(&mut player.snake.body_pos, player.snake.direction);
    if player.snake.body_pos[0] == food_pos {
        grow_snake(&mut player.snake.body_pos, GROWTH_PER_FOOD);
        true
    } else {
        false
    }
}

/// Samples food cells until one is free of every snake's body, giving up
/// after a fixed number of tries. A returned cell always lies strictly
/// inside the border and on no snake.
pub fn place_food(
    players: &Vec<Player>,
    screen_height: usize,
    screen_width: usize,
) -> (food: Option<Coordinate>)
    requires
        screen_height >= 3,
        screen_width >= 3,
    ensures
        food matches Some(pos) ==> 1 <= pos.row <= screen_height - 2 && 1 <= pos.col
            <= screen_width - 2 && forall|k: int|
            0 <= k < players@.len() ==> !(#[trigger] players@[k]).snake.body_pos@.contains(pos),
{
    let mut tries: usize = 0;
    while tries < FOOD_PLACEMENT_TRIES
        invariant
            screen_height >= 3,
            screen_width >= 3,
        decreases FOOD_PLACEMENT_TRIES - tries,
    {
        let candidate = get_random_food_pos(screen_height, screen_width);
        let mut occupied = false;
        let mut k: usize = 0;
        while k < players.len()
            invariant
                k <= players@.len(),
                occupied == exists|j: int|
                    0 <= j < k && (#[trigger] players@[j]).snake.body_pos@.contains(candidate),
            decreases players@.len() - k,
        {
            if snake_item_collision(players[k].snake.body_pos.as_slice(), &candidate) {
                occupied = true;
            }
            k = k + 1;
        }
        if !occupied {
            return Some(candidate);
        }
        tries = tries + 1;
    }
    None
}

/// The index of the round's winner: in a two-player round where exactly
/// one player crashed, the other player wins; every other outcome has no
/// winner to announce.
pub open spec fn winner_index(players: Seq<Player>) -> Option<usize> {
    if players.len() == 2 && players[0].has_crashed && !players[1].has_crashed {
        Some(1usize)
    } else if players.len() == 2 && players[1].has_crashed && !players[0].has_crashed {
        Some(0usize)
    } else {
        None
    }
}

/// The winner to announce when a round ends: the non-crashed player of a
/// two-player round in which exactly one crashed, else nobody.
pub fn round_winner(players: &Vec<Player>) -> (winner: Option<usize>)
    ensures
        winner == winner_index(players@),
{
    if players.len() == 2 {
        let first_crashed = players[0].has_crashed;
        let second_crashed = players[1].has_crashed;
        if first_crashed && !second_crashed {
            return Some(1);
        }
        if second_crashed && !first_crashed {
            return Some(0);
        }
    }
    None
}

/// What the snake layer of a frame shows at `(row, col)`: players are
/// drawn in index order, so a later player's snake wins over an earlier
/// one's, and within one snake a non-head cell wins over the head.
/// `Empty` where no snake cell lies.
pub open spec fn snakes_cell(players: Seq<Player>, row: int, col: int) -> GameContent
    decreases players.len(),
{
    if players.len() == 0 {
        GameContent::Empty
    } else {
        let body = players.last().snake.body_pos@;
        if exists|i: int|
            1 <= i < body.len() && (#[trigger] body[i]).row == row && body[i].col == col {
            GameContent::SnakeBody((players.len() - 1) as usize)
        } else if body.len() > 0 && body[0].row == row && body[0].col == col {
            GameContent::SnakeHead((players.len() - 1) as usize)
        } else {
            snakes_cell(players.drop_last(), row, col)
        }
    }
}

/// What a composed frame shows at `(row, col)`: the centered score header
/// on the top row wins over everything, then the border, then the food,
/// then the snakes, and `Empty` below them all.
pub open spec fn frame_cell(
    players: Seq<Player>,
    food_pos: Coordinate,
    score: nat,
    width: int,
    height: int,
    row: int,
    col: int,
) -> GameContent {
    let text = score_text(score);
    let start = centered_start(width, text.len() as int);
    if row == 0 && start <= col < start + text.len() {
        GameContent::CharacterOnBorder(text[col - start])
    } else if on_border(row, col, width, height) {
        GameContent::Border
    } else if food_pos.row == row && food_pos.col == col {
        GameContent::Food
    } else {
        snakes_cell(players, row, col)
    }
}

/// Collecting the matches of the Escape and q keys over an input batch
/// finds one exactly when the batch holds a quit key.
proof fn lemma_quit_scan(events: Seq<KeyPress>)
    ensures
        matches_of_keys(events, seq![KeyPress::Esc, KeyPress::Char('q')]).len() > 0
            <==> quit_requested(events),
{
    let keys = seq![KeyPress::Esc, KeyPress::Char('q')];
    let esc_only = seq![KeyPress::Esc];
    let none: Seq<KeyPress> = Seq::<KeyPress>::empty();
    assert(keys.drop_last() =~= esc_only);
    assert(esc_only.drop_last() =~= none);
    assert(esc_only.last() == KeyPress::Esc);
    assert(keys.last() == (KeyPress::Char('q')));
    assert(matches_of_keys(events, keys) == matches_of_keys(events, esc_only) + matches_of_key(
        events,
        KeyPress::Char('q'),
    ));
    assert(matches_of_keys(events, esc_only) == matches_of_keys(events, none) + matches_of_key(
        events,
        KeyPress::Esc,
    ));
    assert(matches_of_keys(events, none).len() == 0);
    lemma_matches_of_key_nonempty(events, KeyPress::Esc);
    lemma_matches_of_key_nonempty(events, KeyPress::Char('q'));
    if events.contains(KeyPress::Esc) {
        let i = choose|i: int| 0 <= i < events.len() && events[i] == KeyPress::Esc;
        assert((KeyPress::Esc).eq_spec(&(events[i])));
    }
    if events.contains(KeyPress::Char('q')) {
        let i = choose|i: int| 0 <= i < events.len() && events[i] == (KeyPress::Char('q'));
        assert((KeyPress::Char('q')).eq_spec(&(events[i])));
    }
    if exists|i: int| 0 <= i < events.len() && (KeyPress::Esc).eq_spec(&(#[trigger] events[i])) {
        let i = choose|i: int|
            0 <= i < events.len() && (KeyPress::Esc).eq_spec(&(#[trigger] events[i]));
        assert(events[i] == KeyPress::Esc);
        assert(events.contains(KeyPress::Esc));
    }
    if exists|i: int|
        0 <= i < events.len() && (KeyPress::Char('q')).eq_spec(&(#[trigger] events[i])) {
        let i = choose|i: int|
            0 <= i < events.len() && (KeyPress::Char('q')).eq_spec(&(#[trigger] events[i]));
        assert(events[i] == (KeyPress::Char('q')));
        assert(events.contains(KeyPress::Char('q')));
    }
}

/// A snake that lay strictly inside the grid and did not crash this tick
/// still lies strictly inside at the end of the tick.
proof fn lemma_post_body_inside(
    player: Player,
    events: Seq<KeyPress>,
    four_key: bool,
    food_pos: Coordinate,
    width: int,
    height: int,
)
    requires
        player.snake.body_pos@.len() > 0,
        body_inside(player.snake.body_pos@, width, height),
        3 <= width <= usize::MAX,
        3 <= height <= usize::MAX,
        !hits_border_or_self(player, events, four_key, food_pos, width, height),
    ensures
        body_inside(post_tick_body(player, events, four_key, food_pos), width, height),
{
    let body = player.snake.body_pos@;
    let moved = post_move_body(player, events, four_key);
    let post = post_tick_body(player, events, four_key, food_pos);
    let head = moved[0];
    assert(1 <= body[0].row <= height - 2 && 1 <= body[0].col <= width - 2);
    assert(0 <= head.row <= height - 1 && 0 <= head.col <= width - 1);
    assert(post[0] == head);
    assert(!on_border(post[0].row as int, post[0].col as int, width, height));
    assert(1 <= head.row <= height - 2 && 1 <= head.col <= width - 2);
    assert(forall|i: int| 1 <= i < moved.len() ==> #[trigger] moved[i] == body[i - 1]);
    assert(moved.len() == body.len());
    if body.len() >= 2 {
        assert(moved.last() == body[body.len() - 2]);
    } else {
        assert(moved.last() == head);
    }
    assert(1 <= moved.last().row <= height - 2 && 1 <= moved.last().col <= width - 2);
    if eats_food(player, events, four_key, food_pos) {
        assert(post == grown_body(moved, GROWTH_PER_FOOD as nat));
        assert(forall|i: int|
            moved.len() <= i < post.len() ==> #[trigger] post[i] == moved.last());
        assert(forall|i: int| 0 <= i < moved.len() ==> #[trigger] post[i] == moved[i]);
    }
    assert forall|i: int| 0 <= i < post.len() implies 1 <= (#[trigger] post[i]).row <= height - 2
        && 1 <= post[i].col <= width - 2 by {
        if 1 <= i < moved.len() {
            assert(post[i] == body[i - 1]);
        }
    }
}

/// The end-of-tick bodies hold exactly the cells of the old bodies plus
/// `GROWTH_PER_FOOD` cells for every piece of food eaten.
proof fn lemma_total_cells_post_tick(
    prev: Seq<Player>,
    cur: Seq<Player>,
    events: Seq<KeyPress>,
    four_key: bool,
    food_pos: Coordinate,
)
    requires
        cur.len() == prev.len(),
        forall|k: int| 0 <= k < prev.len() ==> (#[trigger] prev[k]).snake.body_pos@.len() > 0,
        forall|k: int|
            0 <= k < cur.len() ==> (#[trigger] cur[k]).snake.body_pos@ == post_tick_body(
                prev[k],
                events,
                four_key,
                food_pos,
            ),
    ensures
        total_body_cells(cur) == total_body_cells(prev) + 3 * eaten_count(
            prev,
            events,
            four_key,
            food_pos,
        ),
    decreases prev.len(),
{
    if prev.len() > 0 {
        let prev_rest = prev.drop_last();
        let cur_rest = cur.drop_last();
        assert(forall|k: int| 0 <= k < prev_rest.len() ==> #[trigger] prev_rest[k] == prev[k]);
        assert(forall|k: int| 0 <= k < cur_rest.len() ==> #[trigger] cur_rest[k] == cur[k]);
        lemma_total_cells_post_tick(prev_rest, cur_rest, events, four_key, food_pos);
        let last_prev = prev.last();
        let last_cur = cur.last();
        assert(last_cur.snake.body_pos@ == post_tick_body(last_prev, events, four_key, food_pos));
        assert(post_move_body(last_prev, events, four_key).len()
            == last_prev.snake.body_pos@.len());
        if eats_food(last_prev, events, four_key, food_pos) {
            assert(last_cur.snake.body_pos@.len() == last_prev.snake.body_pos@.len() + 3);
        } else {
            assert(last_cur.snake.body_pos@.len() == last_prev.snake.body_pos@.len());
        }
    }
}

/// With at most two players the total cell count is bounded by the
/// lengths of at most two vectors.
proof fn lemma_total_cells_bound(players: Seq<Player>)
    requires
        players.len() <= 2,
    ensures
        total_body_cells(players) <= 2 * (usize::MAX as nat),
{
    if players.len() == 0 {
    } else if players.len() == 1 {
        assert(players.drop_last().len() == 0);
        assert(total_body_cells(players.drop_last()) == 0);
        vstd::std_specs::vec::axiom_spec_len(&players.last().snake.body_pos);
    } else {
        let rest = players.drop_last();
        assert(rest.drop_last().len() == 0);
        assert(total_body_cells(rest.drop_last()) == 0);
        vstd::std_specs::vec::axiom_spec_len(&rest.last().snake.body_pos);
        vstd::std_specs::vec::axiom_spec_len(&players.last().snake.body_pos);
        assert(total_body_cells(rest) == rest.last().snake.body_pos@.len());
    }
}

/// The end-of-tick body keeps the old length, plus the growth amount
/// when the player ate.
proof fn lemma_post_tick_body_len(
    player: Player,
    events: Seq<KeyPress>,
    four_key: bool,
    food_pos: Coordinate,
)
    requires
        player.snake.body_pos@.len() > 0,
    ensures
        post_tick_body(player, events, four_key, food_pos).len()
            == player.snake.body_pos@.len() + (if eats_food(player, events, four_key, food_pos) {
            GROWTH_PER_FOOD as int
        } else {
            0
        }),
{
    assert(post_move_body(player, events, four_key).len() == player.snake.body_pos@.len());
}

impl GameRound {
    /// The heading player `k` holds after this tick's input batch.
    pub open spec fn tick_steered(self, k: int, events: Seq<KeyPress>) -> Direction {
        steered_dir_of(self.players@[k], events, self.is_four_key_steering)
    }

    /// Player `k`'s body at the end of a tick fed with `events`.
    pub open spec fn tick_body(self, k: int, events: Seq<KeyPress>) -> Seq<Coordinate> {
        post_tick_body(self.players@[k], events, self.is_four_key_steering, self.food_pos)
    }

    /// How many players eat the food during a tick fed with `events`.
    pub open spec fn tick_eaten(self, events: Seq<KeyPress>) -> nat {
        eaten_count(self.players@, events, self.is_four_key_steering, self.food_pos)
    }

    /// Whether player `k` hits the border or itself during the tick.
    pub open spec fn tick_crash(self, k: int, events: Seq<KeyPress>) -> bool {
        hits_border_or_self(
            self.players@[k],
            events,
            self.is_four_key_steering,
            self.food_pos,
            self.screen_width as int,
            self.screen_height as int,
        )
    }

    /// Whether any player hits the border or itself during the tick.
    pub open spec fn tick_any_border_crash(self, events: Seq<KeyPress>) -> bool {
        any_border_crash(
            self.players@,
            events,
            self.is_four_key_steering,
            self.food_pos,
            self.screen_width as int,
            self.screen_height as int,
        )
    }

    /// The fault attribution of the two snakes' end-of-tick bodies.
    pub open spec fn tick_pair_fault(self, events: Seq<KeyPress>) -> int {
        pairwise_fault(self.tick_body(0, events), self.tick_body(1, events))
    }

    /// Clears the buffer and composes one frame of the running round:
    /// the snakes in player order, the food, the border on top of them,
    /// and the centered score header on the top row.
    fn compose_frame(&self, screen_buffer: &mut ScreenBuffer)
        requires
            self.wf(),
            !self.round_over,
            old(screen_buffer).wf(),
            old(screen_buffer).width() == self.screen_width,
            old(screen_buffer).height() == self.screen_height,
            score_text(self.score as nat).len() <= self.screen_width,
        ensures
            final(screen_buffer).wf(),
            final(screen_buffer).same_dimensions(old(screen_buffer)),
            forall|r: int, c: int|
                0 <= r < final(screen_buffer).height() && 0 <= c < final(screen_buffer).width()
                    ==> final(screen_buffer).cell(r, c) == frame_cell(
                    self.players@,
                    self.food_pos,
                    self.score as nat,
                    self.screen_width as int,
                    self.screen_height as int,
                    r,
                    c,
                ),
    {
        screen_buffer.set_all(GameContent::Empty);
        proof {
            assert(self.players@.subrange(0, 0) =~= Seq::<Player>::empty());
        }
        let mut k: usize = 0;
        while k < self.players.len()
            invariant
                k <= self.players@.len(),
                self.wf(),
                !self.round_over,
                screen_buffer.wf(),
                screen_buffer.width() == self.screen_width,
                screen_buffer.height() == self.screen_height,
                forall|r: int, c: int|
                    0 <= r < screen_buffer.height() && 0 <= c < screen_buffer.width()
                        ==> screen_buffer.cell(r, c) == snakes_cell(
                        self.players@.subrange(0, k as int),
                        r,
                        c,
                    ),
            decreases self.players@.len() - k,
        {
            let ghost before = screen_buffer;
            proof {
                assert(body_inside(
                    self.players@[k as int].snake.body_pos@,
                    self.screen_width as int,
                    self.screen_height as int,
                ));
            }
            add_snake_to_buffer(screen_buffer, self.players[k].snake.body_pos.as_slice(), k);
            proof {
                let prefix = self.players@.subrange(0, k as int);
                let prefix_next = self.players@.subrange(0, k + 1 as int);
                assert(prefix_next.drop_last() =~= prefix);
                assert(prefix_next.last() == self.players@[k as int]);
                let body = self.players@[k as int].snake.body_pos@;
                assert forall|r: int, c: int|
                    0 <= r < screen_buffer.height() && 0 <= c
                        < screen_buffer.width() implies screen_buffer.cell(r, c) == snakes_cell(
                    prefix_next,
                    r,
                    c,
                ) by {
                    assert(screen_buffer.cell(r, c) == snake_overlay(
                        before.cell(r, c),
                        body,
                        k,
                        r,
                        c,
                    ));
                    assert(before.cell(r, c) == snakes_cell(prefix, r, c));
                }
            }
            k = k + 1;
        }
        proof {
            assert(self.players@.subrange(0, self.players@.len() as int) =~= self.players@);
        }
        screen_buffer.set_at(self.food_pos.row, self.food_pos.col, GameContent::Food);
        screen_buffer.add_border(GameContent::Border);
        let ghost after_border = screen_buffer;
        let line = score_line(self.score);
        screen_buffer.set_centered_chars_at_row(0, &line);
        proof {
            let width = self.screen_width as int;
            let height = self.screen_height as int;
            let text = score_text(self.score as nat);
            let start = centered_start(width, text.len() as int);
            assert forall|r: int, c: int|
                0 <= r < screen_buffer.height() && 0 <= c
                    < screen_buffer.width() implies screen_buffer.cell(r, c) == frame_cell(
                self.players@,
                self.food_pos,
                self.score as nat,
                width,
                height,
                r,
                c,
            ) by {
                if r == 0 && start <= c < start + text.len() {
                    assert(screen_buffer.cell(r, c) == crate::screen_buffer::text_cell(
                        r,
                        height,
                        text[c - start],
                    ));
                } else {
                    assert(screen_buffer.cell(r, c) == after_border.cell(r, c));
                }
            }
        }
    }

    /// One simulation tick of a running round, fed the input events
    /// drained since the previous tick.
    ///
    /// A quit key anywhere in the batch ends the round at once, leaving
    /// everything else untouched. Otherwise every player steers by the
    /// last matching event, every snake moves one cell, food on a head
    /// raises the score and grows that snake, eaten food is re-placed on
    /// a cell free of every snake (kept in place only if the bounded
    /// re-roll gives up), and the round ends when a snake hits the border
    /// or itself — every such player is marked crashed — or, failing
    /// that, when the two snakes collide, which marks the player at
    /// fault. Only while the round continues is the frame composed into
    /// the buffer.
    #[verifier::rlimit(100)]
    pub fn tick(&mut self, events: &Vec<KeyPress>, screen_buffer: &mut ScreenBuffer)
        requires
            old(self).wf(),
            !old(self).round_over,
            !old(self).must_exit,
            old(screen_buffer).wf(),
            old(screen_buffer).width() == old(self).screen_width,
            old(screen_buffer).height() == old(self).screen_height,
            score_text((old(self).score + old(self).players@.len()) as nat).len() <= old(self).screen_width,
        ensures
            final(self).wf(),
            final(self).screen_width == old(self).screen_width,
            final(self).screen_height == old(self).screen_height,
            final(self).is_four_key_steering == old(self).is_four_key_steering,
            final(self).players@.len() == old(self).players@.len(),
            final(screen_buffer).wf(),
            final(screen_buffer).same_dimensions(old(screen_buffer)),
            final(self).must_exit == quit_requested(events@),
            final(self).round_over == (quit_requested(events@) || old(self).tick_any_border_crash(
                events@,
            ) || (old(self).players@.len() == 2 && old(self).tick_pair_fault(events@) != -1)),
            quit_requested(events@) ==> final(self).players == old(self).players && final(self).score == old(self).score && final(self).food_pos == old(self).food_pos,
            !quit_requested(events@) ==> forall|k: int|
                0 <= k < old(self).players@.len() ==> same_player_identity(
                    old(self).players@[k],
                    #[trigger] final(self).players@[k],
                ) && final(self).players@[k].snake.direction == old(self).tick_steered(k, events@)
                    && final(self).players@[k].snake.body_pos@ == old(self).tick_body(k, events@),
            !quit_requested(events@) ==> final(self).score == old(self).score + old(self).tick_eaten(events@),
            !quit_requested(events@) && old(self).tick_eaten(events@) == 0 ==> final(self).food_pos
                == old(self).food_pos,
            !quit_requested(events@) && old(self).tick_eaten(events@) > 0 ==> (final(self).food_pos
                == old(self).food_pos || forall|k: int|
                0 <= k < old(self).players@.len() ==> !old(self).tick_body(k, events@).contains(
                    final(self).food_pos,
                )),
            !quit_requested(events@) && old(self).tick_any_border_crash(events@) ==> forall|k: int|
                0 <= k < old(self).players@.len() ==> (#[trigger] final(self).players@[k]).has_crashed == old(self).tick_crash(k, events@),
            !quit_requested(events@) && !old(self).tick_any_border_crash(events@) && old(self).players@.len() == 2 && old(self).tick_pair_fault(events@) != -1 ==> final(self).players@[old(self).tick_pair_fault(events@)].has_crashed && !final(self).players@[1 - old(self).tick_pair_fault(events@)].has_crashed,
            final(self).round_over ==> *final(screen_buffer) == *old(screen_buffer),
            !final(self).round_over ==> forall|r: int, c: int|
                0 <= r < old(self).screen_height && 0 <= c < old(self).screen_width ==> final(screen_buffer).cell(r, c) == frame_cell(
                    final(self).players@,
                    final(self).food_pos,
                    final(self).score as nat,
                    old(self).screen_width as int,
                    old(self).screen_height as int,
                    r,
                    c,
                ),
    {
        let mut quit_bindings: Vec<KeyPress> = Vec::new();
        quit_bindings.push(KeyPress::Esc);
        quit_bindings.push(KeyPress::Char('q'));
        proof {
            assert(quit_bindings@ =~= seq![KeyPress::Esc, KeyPress::Char('q')]);
            lemma_quit_scan(events@);
        }
        let quit_matches = crate::events::find_matches(
            events.as_slice(),
            quit_bindings.as_slice(),
        );
        if quit_matches.len() > 0 {
            self.must_exit = true;
            self.round_over = true;
            return ;
        }

        // steer, move, and feed every snake
        let four_key = self.is_four_key_steering;
        let food_before = self.food_pos;
        let mut eaten: usize = 0;
        let mut k: usize = 0;
        while k < self.players.len()
            invariant
                k <= self.players@.len(),
                old(self).wf(),
                !old(self).round_over,
                self.players@.len() == old(self).players@.len(),
                self.screen_width == old(self).screen_width,
                self.screen_height == old(self).screen_height,
                self.is_four_key_steering == old(self).is_four_key_steering,
                self.food_pos == old(self).food_pos,
                self.score == old(self).score,
                self.round_over == old(self).round_over,
                self.must_exit == old(self).must_exit,
                four_key == old(self).is_four_key_steering,
                food_before == old(self).food_pos,
                forall|j: int|
                    k <= j < self.players@.len() ==> #[trigger] self.players@[j] == old(self).players@[j],
                forall|j: int|
                    0 <= j < k ==> same_player_identity(
                        old(self).players@[j],
                        #[trigger] self.players@[j],
                    ) && !self.players@[j].has_crashed && self.players@[j].snake.direction == old(self).tick_steered(j, events@) && self.players@[j].snake.body_pos@ == old(self).tick_body(j, events@),
                eaten == eaten_count(
                    old(self).players@.subrange(0, k as int),
                    events@,
                    old(self).is_four_key_steering,
                    old(self).food_pos,
                ),
                eaten <= k,
            decreases self.players@.len() - k,
        {
            let ghost players_before = self.players@;
            let mut player = self.players.remove(k);
            let ate = advance_player(
                &mut player,
                events,
                four_key,
                food_before,
                self.screen_width,
                self.screen_height,
            );
            if ate {
                eaten = eaten + 1;
            }
            self.players.insert(k, player);
            proof {
                assert(self.players@ =~= players_before.update(k as int, player));
                let prefix = old(self).players@.subrange(0, k as int);
                let prefix_next = old(self).players@.subrange(0, k + 1 as int);
                assert(prefix_next.drop_last() =~= prefix);
                assert(prefix_next.last() == old(self).players@[k as int]);
            }
            k = k + 1;
        }
        proof {
            assert(old(self).players@.subrange(0, old(self).players@.len() as int) =~= old(self).players@);
        }

        // count the food: the score tracks total body growth, which is
        // bounded by the vectors' lengths, so the sum cannot overflow
        proof {
            lemma_total_cells_post_tick(
                old(self).players@,
                self.players@,
                events@,
                old(self).is_four_key_steering,
                old(self).food_pos,
            );
            lemma_total_cells_bound(self.players@);
            assert(3 * old(self).score <= 2 * (usize::MAX as nat));
            assert(old(self).score + eaten <= u64::MAX);
        }
        self.score = self.score + (eaten as u64);

        // the eaten food reappears on a free cell strictly inside
        if eaten > 0 {
            match place_food(&self.players, self.screen_height, self.screen_width) {
                Some(new_food) => {
                    self.food_pos = new_food;
                    proof {
                        assert forall|j: int| 0 <= j < self.players@.len() implies !old(
                            self,
                        ).tick_body(j, events@).contains(self.food_pos) by {
                            assert(!self.players@[j].snake.body_pos@.contains(self.food_pos));
                        }
                    }
                },
                None => {},
            }
        }

        // border and self collisions end the round
        let mut any_crash = false;
        let mut k2: usize = 0;
        while k2 < self.players.len()
            invariant
                k2 <= self.players@.len(),
                old(self).wf(),
                !old(self).round_over,
                self.players@.len() == old(self).players@.len(),
                self.screen_width == old(self).screen_width,
                self.screen_height == old(self).screen_height,
                self.is_four_key_steering == old(self).is_four_key_steering,
                self.round_over == old(self).round_over,
                self.must_exit == old(self).must_exit,
                forall|j: int|
                    0 <= j < self.players@.len() ==> same_player_identity(
                        old(self).players@[j],
                        #[trigger] self.players@[j],
                    ) && self.players@[j].snake.direction == old(self).tick_steered(j, events@)
                        && self.players@[j].snake.body_pos@ == old(self).tick_body(j, events@),
                forall|j: int|
                    k2 <= j < self.players@.len() ==> !(#[trigger] self.players@[j]).has_crashed,
                forall|j: int|
                    0 <= j < k2 ==> (#[trigger] self.players@[j]).has_crashed == old(self).tick_crash(j, events@),
                any_crash == exists|j: int|
                    0 <= j < k2 && #[trigger] old(self).tick_crash(j, events@),
                self.score == old(self).score + eaten,
                eaten == old(self).tick_eaten(events@),
                1 <= self.food_pos.row <= self.screen_height - 2,
                1 <= self.food_pos.col <= self.screen_width - 2,
                old(self).tick_eaten(events@) == 0 ==> self.food_pos == old(self).food_pos,
                old(self).tick_eaten(events@) > 0 ==> (self.food_pos == old(self).food_pos
                    || forall|j: int|
                    0 <= j < self.players@.len() ==> !old(self).tick_body(j, events@).contains(
                        self.food_pos,
                    )),
            decreases self.players@.len() - k2,
        {
            let ghost players_before = self.players@;
            let collides = check_border_and_ego_collision(
                self.players[k2].snake.body_pos.as_slice(),
                self.screen_width,
                self.screen_height,
            );
            if collides {
                let mut player = self.players.remove(k2);
                player.has_crashed = true;
                self.players.insert(k2, player);
                any_crash = true;
                proof {
                    assert(self.players@ =~= players_before.update(k2 as int, player));
                    assert(old(self).tick_crash(k2 as int, events@));
                }
            } else {
                proof {
                    assert(!old(self).tick_crash(k2 as int, events@));
                }
            }
            k2 = k2 + 1;
        }
        proof {
            assert(any_crash == old(self).tick_any_border_crash(events@)) by {
                if any_crash {
                    let j = choose|j: int|
                        0 <= j < old(self).players@.len() && #[trigger] old(self).tick_crash(
                            j,
                            events@,
                        );
                    assert(hits_border_or_self(
                        old(self).players@[j],
                        events@,
                        old(self).is_four_key_steering,
                        old(self).food_pos,
                        old(self).screen_width as int,
                        old(self).screen_height as int,
                    ));
                }
                if old(self).tick_any_border_crash(events@) {
                    let j = choose|j: int|
                        0 <= j < old(self).players@.len() && hits_border_or_self(
                            #[trigger] old(self).players@[j],
                            events@,
                            old(self).is_four_key_steering,
                            old(self).food_pos,
                            old(self).screen_width as int,
                            old(self).screen_height as int,
                        );
                    assert(old(self).tick_crash(j, events@));
                }
            }
            lemma_total_cells_post_tick(
                old(self).players@,
                self.players@,
                events@,
                old(self).is_four_key_steering,
                old(self).food_pos,
            );
            assert forall|j: int|
                0 <= j < self.players@.len() implies (#[trigger] self.players@[j]).snake.body_pos@.len()
                > 0 by {
                lemma_post_tick_body_len(
                    old(self).players@[j],
                    events@,
                    old(self).is_four_key_steering,
                    old(self).food_pos,
                );
            }
        }
        if any_crash {
            self.round_over = true;
            return ;
        }

        // with two players, a snake running into the other ends the round
        if self.players.len() == 2 {
            let fault = snake_snake_collision(
                self.players[0].snake.body_pos.as_slice(),
                self.players[1].snake.body_pos.as_slice(),
            );
            if fault >= 0 {
                let ghost players_before = self.players@;
                let idx = fault as usize;
                let mut player = self.players.remove(idx);
                player.has_crashed = true;
                self.players.insert(idx, player);
                self.round_over = true;
                proof {
                    assert(self.players@ =~= players_before.update(idx as int, player));
                    lemma_total_cells_post_tick(
                        old(self).players@,
                        self.players@,
                        events@,
                        old(self).is_four_key_steering,
                        old(self).food_pos,
                    );
                    assert forall|j: int|
                        0 <= j < self.players@.len() implies (#[trigger] self.players@[j]).snake.body_pos@.len()
                        > 0 by {
                        lemma_post_tick_body_len(
                            old(self).players@[j],
                            events@,
                            old(self).is_four_key_steering,
                            old(self).food_pos,
                        );
                    }
                }
                return ;
            }
        }

        // the round goes on: every snake stayed strictly inside
        proof {
            assert forall|j: int| 0 <= j < self.players@.len() implies body_inside(
                (#[trigger] self.players@[j]).snake.body_pos@,
                self.screen_width as int,
                self.screen_height as int,
            ) by {
                assert(!old(self).tick_crash(j, events@));
                lemma_post_body_inside(
                    old(self).players@[j],
                    events@,
                    old(self).is_four_key_steering,
                    old(self).food_pos,
                    self.screen_width as int,
                    self.screen_height as int,
                );
            }
            assert forall|j: int| 0 <= j < self.players@.len() implies !(
            #[trigger] self.players@[j]).has_crashed by {
                assert(!old(self).tick_crash(j, events@));
            }
            lemma_decimal_digits_monotone(
                self.score as nat,
                (old(self).score + old(self).players@.len()) as nat,
            );
            assert(self.wf());
        }
        self.compose_frame(screen_buffer);
    }
}

} // verus!

