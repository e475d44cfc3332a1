use vstd::prelude::*;
use crate::screen::Screen;

verus! {

/// Whether the match is still on, and if not, who won it.
#[derive(Clone, Copy, Debug, PartialEq, Eq, Structural)]
pub enum GameState {
    Running,
    Won,
    Lost,
}

/// A paddle. `prev_y` is where it stood before the last update, which gives
/// its vertical speed.
#[derive(Clone, Copy, Debug)]
pub struct Block {
    pub x: isize,
    pub y: isize,
    pub prev_y: isize,
    pub width: isize,
    pub height: isize,
    pub color: u32,
}

/// The ball: its centre, its velocity per frame and its radius.
#[derive(Clone, Copy, Debug)]
pub struct Ball {
    pub x: isize,
    pub y: isize,
    pub vx: isize,
    pub vy: isize,
    pub radius: isize,
    pub color: u32,
}

/// The whole game: the player's paddle is `blocks[0]`, on the left, and the
/// computer's is `blocks[1]`, on the right.
pub struct Game {
    pub game_state: GameState,
    pub ball: Ball,
    pub blocks: [Block; 2],
}

/// Rust's integer division, which rounds toward zero.
pub open spec fn trunc_div(a: int, b: int) -> int
    recommends
        b > 0,
{
    if a >= 0 {
        a / b
    } else {
        -((-a) / b)
    }
}

/// `v` brought into `[lo, hi]`.
pub open spec fn clamp_int(v: int, lo: int, hi: int) -> int {
    if v < lo {
        lo
    } else if v > hi {
        hi
    } else {
        v
    }
}

/// The ball, centred at `(x, y)` with radius `r`, touches the paddle's box.
pub open spec fn touches(x: int, y: int, r: int, block: Block) -> bool {
    &&& x + r >= block.x
    &&& x - r <= block.x + block.width
    &&& y + r >= block.y
    &&& y - r <= block.y + block.height
}

/// The horizontal and vertical speed of a ball at `(x, y)` with radius `r`
/// after it has met the first `n` paddles: each paddle it touches sends it
/// back and passes on a fifth of the paddle's own vertical speed.
pub open spec fn after_paddles(
    vx: int,
    vy: int,
    x: int,
    y: int,
    r: int,
    blocks: Seq<Block>,
    n: nat,
) -> (int, int)
    decreases n,
{
    if n == 0 {
        (vx, vy)
    } else {
        let (vx0, vy0) = after_paddles(vx, vy, x, y, r, blocks, (n - 1) as nat);
        let b = blocks[n - 1];
        if touches(x, y, r, b) {
            (-vx0, vy0 + trunc_div(b.y - b.prev_y, 5))
        } else {
            (vx0, vy0)
        }
    }
}

/// The vertical speed once the ball has moved and bounced off the top or
/// bottom edge of a screen `height` pixels high.
pub open spec fn vy_after_walls(ball: Ball, height: int) -> int {
    let y = ball.y + ball.vy;
    if y - ball.radius <= 0 || y + ball.radius >= height {
        -ball.vy
    } else {
        ball.vy as int
    }
}

/// The horizontal and vertical speed of the ball after one frame, before the
/// vertical speed is held to `[-10, 10]`.
pub open spec fn bounced_speed(ball: Ball, blocks: Seq<Block>, height: int) -> (int, int) {
    after_paddles(
        ball.vx as int,
        vy_after_walls(ball, height),
        ball.x + ball.vx,
        ball.y + ball.vy,
        ball.radius as int,
        blocks,
        blocks.len(),
    )
}

/// The state of the match after the ball has moved to `x`: lost when the
/// ball has left the screen on the left, won when it has left on the right.
pub open spec fn state_after_move(state: GameState, x: int, r: int, width: int) -> GameState {
    if x + r < 0 {
        GameState::Lost
    } else if x - r > width {
        GameState::Won
    } else {
        state
    }
}

/// The ball, once moved, touches one of the paddles.
pub open spec fn ball_meets_paddle(ball: Ball, blocks: Seq<Block>) -> bool {
    exists|i: int|
        0 <= i < blocks.len() && touches(ball.x + ball.vx, ball.y + ball.vy, ball.radius as int, #[trigger] blocks[i])
}

/// The inputs on which moving the ball stays within `isize`: its new
/// position, and its horizontal speed sent back when it meets a paddle.
pub open spec fn ball_update_fits(ball: Ball, blocks: Seq<Block>) -> bool {
    &&& isize::MIN <= ball.x + ball.vx <= isize::MAX
    &&& isize::MIN <= ball.y + ball.vy <= isize::MAX
    &&& ball_meets_paddle(ball, blocks) ==> ball.vx != isize::MIN
}

/// Whether the ball centred at `(x, y)` with radius `r` touches `block`.
fn ball_touches(x: isize, y: isize, r: isize, block: &Block) -> (t: bool)
    ensures
        t == touches(x as int, y as int, r as int, *block),
{
    (x as i128) + (r as i128) >= block.x as i128
        && (x as i128) - (r as i128) <= (block.x as i128) + (block.width as i128)
        && (y as i128) + (r as i128) >= block.y as i128
        && (y as i128) - (r as i128) <= (block.y as i128) + (block.height as i128)
}

/// Moves the ball one frame, bounces it off the top and bottom edges and off
/// the paddles, holds its vertical speed to `[-10, 10]`, and ends the match
/// when it has left the screen on either side.
pub fn update_ball(screen: &Screen, game: &mut Game)
    requires
        ball_update_fits(old(game).ball, old(game).blocks@),
    ensures
        ({
            let b = old(game).ball;
            let (vx, vy) = bounced_speed(b, old(game).blocks@, screen.height as int);
            &&& final(game).ball.x == b.x + b.vx
            &&& final(game).ball.y == b.y + b.vy
            &&& final(game).ball.vx == vx
            &&& final(game).ball.vy == clamp_int(vy, -10, 10)
            &&& final(game).ball.radius == b.radius
            &&& final(game).ball.color == b.color
        }),
        final(game).blocks == old(game).blocks,
        final(game).game_state == state_after_move(
            old(game).game_state,
            old(game).ball.x + old(game).ball.vx,
            old(game).ball.radius as int,
            screen.width as int,
        ),
{
    let ghost b0 = game.ball;
    let x: isize = game.ball.x + game.ball.vx;
    let y: isize = game.ball.y + game.ball.vy;
    let radius: isize = game.ball.radius;
    let r: i128 = radius as i128;
    game.ball.x = x;
    game.ball.y = y;

    let mut vy: i128 = game.ball.vy as i128;
    if (y as i128) - r <= 0 || (y as i128) + r >= screen.height as i128 {
        vy = -vy;
    }

    // paddle collision
    let ghost blocks = game.blocks@;
    let ghost vx0 = game.ball.vx as int;
    let ghost vy0 = vy as int;
    let mut vx: isize = game.ball.vx;
    let mut i: usize = 0;
    while i < 2
        invariant
            0 <= i <= 2,
            blocks == game.blocks@,
            blocks.len() == 2,
            vx0 == b0.vx,
            x == b0.x + b0.vx,
            y == b0.y + b0.vy,
            radius == b0.radius,
            ball_meets_paddle(b0, blocks) ==> vx0 != isize::MIN,
            vx == vx0 || vx == -vx0,
            vx != vx0 ==> ball_meets_paddle(b0, blocks),
            -0x8000_0000_0000_0001 - 0x8000_0000_0000_0000 * i <= vy,
            vy <= 0x8000_0000_0000_0000 + 0x8000_0000_0000_0000 * i,
            (vx as int, vy as int) == after_paddles(vx0, vy0, x as int, y as int, radius as int, blocks, i as nat),
        decreases 2 - i,
    {
        let block = game.blocks[i];
        if ball_touches(x, y, radius, &block) {
            assert(ball_meets_paddle(b0, blocks)) by {
                assert(touches(b0.x + b0.vx, b0.y + b0.vy, b0.radius as int, blocks[i as int]));
            }
            vx = -vx;
            let paddle_vy: i128 = (block.y as i128) - (block.prev_y as i128);
            let fifth: i128 = div_toward_zero(paddle_vy, 5);
            vy = vy + fifth;
        }
        i = i + 1;
    }
    game.ball.vx = vx;
    game.ball.vy = if vy < -10 { -10 } else if vy > 10 { 10 } else { vy as isize };

    if (x as i128) + r < 0 {
        game.game_state = GameState::Lost;
    } else if (x as i128) - r > screen.width as i128 {
        game.game_state = GameState::Won;
    }
}

/// How many more frames the computer waits before it moves its paddle.
pub struct AIState {
    pub cooldown: usize,
}

/// The keys the player held during the last frame: `w` moves the paddle up,
/// `s` down.
pub struct InputState {
    pub w: bool,
    pub s: bool,
}

/// The keyboard character of a key press, as the game reads it: the low
/// byte of its UTF-16 code unit.
pub open spec fn key_byte(unicode_char: u16) -> u8 {
    (unicode_char % 256) as u8
}

/// The keys held during a frame, from the code units of the key presses
/// read in it: `w` is held when some press reads as `'w'`, `s` when some
/// press reads as `'s'`.
pub fn input_from_keys(keys: &[u16]) -> (input: InputState)
    ensures
        input.w == exists|i: int| 0 <= i < keys@.len() && key_byte(#[trigger] keys@[i]) == 0x77,
        input.s == exists|i: int| 0 <= i < keys@.len() && key_byte(#[trigger] keys@[i]) == 0x73,
{
    let mut input = InputState { w: false, s: false };
    let mut i: usize = 0;
    while i < keys.len()
        invariant
            i <= keys@.len(),
            input.w == exists|j: int| 0 <= j < i && key_byte(#[trigger] keys@[j]) == 0x77,
            input.s == exists|j: int| 0 <= j < i && key_byte(#[trigger] keys@[j]) == 0x73,
        decreases keys@.len() - i,
    {
        let byte: u8 = (keys[i] % 256) as u8;
        if byte == 0x77 {
            input.w = true;
        } else if byte == 0x73 {
            input.s = true;
        }
        i = i + 1;
    }
    input
}

/// `a - b` held to the range of `isize`, as `isize::saturating_sub` computes it.
pub open spec fn saturating_sub(a: int, b: int) -> int {
    if a - b < isize::MIN {
        isize::MIN as int
    } else if a - b > isize::MAX {
        isize::MAX as int
    } else {
        a - b
    }
}

pub open spec fn min_int(a: int, b: int) -> int {
    if a <= b {
        a
    } else {
        b
    }
}

/// Rust's `/` on integers, which rounds toward zero.
fn div_toward_zero(a: i128, d: i128) -> (q: i128)
    requires
        d > 0,
        a > i128::MIN,
    ensures
        q == trunc_div(a as int, d as int),
{
    if a >= 0 {
        a / d
    } else {
        -((-a) / d)
    }
}

fn saturating_sub_isize(a: isize, b: isize) -> (r: isize)
    ensures
        r == saturating_sub(a as int, b as int),
{
    let v: i128 = (a as i128) - (b as i128);
    if v < isize::MIN as i128 {
        isize::MIN
    } else if v > isize::MAX as i128 {
        isize::MAX
    } else {
        v as isize
    }
}

/// Where the player's paddle stands after one frame of input: 30 pixels up
/// while `w` is held (held to the range of `isize`), else 30 pixels down
/// while `s` is held, but no lower than where it touches the bottom edge.
pub open spec fn player_paddle_y(y: int, height: int, screen_height: int, input: InputState) -> int {
    if input.w {
        saturating_sub(y, 30)
    } else if input.s {
        min_int(y + 30, screen_height - height)
    } else {
        y
    }
}

/// The inputs on which the player's move stays within `isize`.
pub open spec fn paddle_update_fits(paddle: Block, screen_height: int, input: InputState) -> bool {
    !input.w && input.s ==> {
        &&& paddle.y + 30 <= isize::MAX
        &&& isize::MIN <= screen_height - paddle.height <= isize::MAX
    }
}

/// The player's paddle after one frame of `input`.
pub open spec fn moved_player(paddle: Block, screen_height: int, input: InputState) -> Block {
    Block {
        prev_y: paddle.y,
        y: player_paddle_y(paddle.y as int, paddle.height as int, screen_height, input) as isize,
        ..paddle
    }
}

fn player_paddle_next(paddle: Block, screen: &Screen, input: &InputState) -> (next: Block)
    requires
        paddle_update_fits(paddle, screen.height as int, *input),
    ensures
        next == moved_player(paddle, screen.height as int, *input),
{
    let mut next = paddle;
    next.prev_y = paddle.y;

    if input.w {
        next.y = saturating_sub_isize(paddle.y, 30);
    } else if input.s {
        let lower: isize = paddle.y + 30;
        let lowest: isize = screen.height - paddle.height;
        next.y = if lower <= lowest { lower } else { lowest };
    }
    next
}

/// Moves the player's paddle, `blocks[0]`, by the keys held in `input`, and
/// records where it stood before.
pub fn update_paddle(game: &mut Game, screen: &Screen, input: &InputState)
    requires
        paddle_update_fits(old(game).blocks[0], screen.height as int, *input),
    ensures
        final(game).blocks[0] == moved_player(old(game).blocks[0], screen.height as int, *input),
        final(game).blocks[1] == old(game).blocks[1],
        final(game).ball == old(game).ball,
        final(game).game_state == old(game).game_state,
{
    let next = player_paddle_next(game.blocks[0], screen, input);
    game.blocks[0] = next;
}

/// The computer follows the ball only while it comes toward its paddle and
/// has crossed the middle of the screen.
pub open spec fn ai_tracking(ball: Ball, screen_width: int) -> bool {
    ball.vx > 0 && ball.x > trunc_div(screen_width, 2)
}

/// The height the computer steers the centre of its `paddle` to: where the
/// ball will be five frames on, kept within reach of the paddle, while it
/// tracks the ball; else level with the centre of the `player`'s paddle.
pub open spec fn ai_target(player: Block, paddle: Block, ball: Ball, screen_width: int, screen_height: int) -> int {
    let half = trunc_div(paddle.height as int, 2);
    if ai_tracking(ball, screen_width) {
        clamp_int(ball.y + ball.vy * 5, half, screen_height - half)
    } else {
        player.y + trunc_div(player.height as int, 2)
    }
}

/// How far the target may be from the paddle's centre before the computer
/// moves, and how far it moves in one step.
pub open spec fn ai_dead_zone(tracking: bool) -> int {
    if tracking { 16 } else { 24 }
}

pub open spec fn ai_step(tracking: bool) -> int {
    if tracking { 16 } else { 10 }
}

/// The target lies above the paddle's dead zone: the paddle moves up.
pub open spec fn ai_moves_up(player: Block, paddle: Block, ball: Ball, screen_width: int, screen_height: int) -> bool {
    let tracking = ai_tracking(ball, screen_width);
    let center = paddle.y + trunc_div(paddle.height as int, 2);
    ai_target(player, paddle, ball, screen_width, screen_height) < center - ai_dead_zone(tracking)
}

/// The target lies below the paddle's dead zone: the paddle moves down.
pub open spec fn ai_moves_down(player: Block, paddle: Block, ball: Ball, screen_width: int, screen_height: int) -> bool {
    let tracking = ai_tracking(ball, screen_width);
    let center = paddle.y + trunc_div(paddle.height as int, 2);
    &&& !ai_moves_up(player, paddle, ball, screen_width, screen_height)
    &&& ai_target(player, paddle, ball, screen_width, screen_height) > center + ai_dead_zone(tracking)
}

/// Where the computer's paddle stands after a frame in which it may move.
pub open spec fn ai_paddle_y(player: Block, paddle: Block, ball: Ball, screen_width: int, screen_height: int) -> int {
    let tracking = ai_tracking(ball, screen_width);
    if ai_moves_up(player, paddle, ball, screen_width, screen_height) {
        saturating_sub(paddle.y as int, ai_step(tracking))
    } else if ai_moves_down(player, paddle, ball, screen_width, screen_height) {
        min_int(paddle.y + ai_step(tracking), screen_height - paddle.height)
    } else {
        paddle.y as int
    }
}

/// The inputs on which the computer's move stays within `isize` and its
/// target range is not empty (clamping to an empty range is a panic in
/// Rust's `clamp`).
pub open spec fn ai_update_fits(
    player: Block,
    paddle: Block,
    ball: Ball,
    cooldown: usize,
    screen_width: int,
    screen_height: int,
) -> bool {
    let half = trunc_div(paddle.height as int, 2);
    let tracking = ai_tracking(ball, screen_width);
    cooldown == 0 ==> {
        &&& tracking ==> half <= screen_height - half
        &&& ai_moves_down(player, paddle, ball, screen_width, screen_height) ==> {
            &&& paddle.y + ai_step(tracking) <= isize::MAX
            &&& isize::MIN <= screen_height - paddle.height <= isize::MAX
        }
    }
}

/// What the computer decides this frame: whether it tracks the ball, and
/// whether it moves up or down.
fn ai_plan(player: &Block, paddle: &Block, ball: &Ball, screen: &Screen) -> (plan: (bool, bool, bool))
    ensures
        plan.0 == ai_tracking(*ball, screen.width as int),
        plan.1 == ai_moves_up(*player, *paddle, *ball, screen.width as int, screen.height as int),
        plan.2 == ai_moves_down(*player, *paddle, *ball, screen.width as int, screen.height as int),
{
    let player_center: i128 = (player.y as i128) + div_toward_zero(player.height as i128, 2);
    let half: i128 = div_toward_zero(paddle.height as i128, 2);
    let paddle_center: i128 = (paddle.y as i128) + half;
    let tracking: bool = ball.vx > 0 && (ball.x as i128) > div_toward_zero(screen.width as i128, 2);

    let target: i128 = if tracking {
        let ahead: i128 = (ball.y as i128) + (ball.vy as i128) * 5;
        let top: i128 = half;
        let bottom: i128 = (screen.height as i128) - half;
        if ahead < top { top } else if ahead > bottom { bottom } else { ahead }
    } else {
        player_center
    };

    let dead_zone: i128 = if tracking { 16 } else { 24 };
    let up = target < paddle_center - dead_zone;
    let down = !up && target > paddle_center + dead_zone;
    (tracking, up, down)
}

/// The computer's paddle after one frame, given the cooldown it started with.
pub open spec fn moved_ai(
    player: Block,
    paddle: Block,
    ball: Ball,
    cooldown: usize,
    screen_width: int,
    screen_height: int,
) -> Block {
    if cooldown > 0 {
        Block { prev_y: paddle.y, ..paddle }
    } else {
        Block {
            prev_y: paddle.y,
            y: ai_paddle_y(player, paddle, ball, screen_width, screen_height) as isize,
            ..paddle
        }
    }
}

/// The computer's cooldown after one frame: one less while it runs, else two
/// frames after a move made while tracking the ball and three after any other.
pub open spec fn ai_cooldown_after(ball: Ball, cooldown: usize, screen_width: int) -> usize {
    if cooldown > 0 {
        (cooldown - 1) as usize
    } else if ai_tracking(ball, screen_width) {
        2
    } else {
        3
    }
}

/// The computer's paddle after one frame.
fn ai_paddle_next(player: &Block, paddle: &Block, ball: &Ball, cooldown: usize, screen: &Screen) -> (next: Block)
    requires
        ai_update_fits(*player, *paddle, *ball, cooldown, screen.width as int, screen.height as int),
    ensures
        next == moved_ai(*player, *paddle, *ball, cooldown, screen.width as int, screen.height as int),
{
    let mut next = *paddle;
    next.prev_y = paddle.y;

    if cooldown > 0 {
        return next;
    }

    let (tracking, up, down) = ai_plan(player, paddle, ball, screen);
    let step: isize = if tracking { 16 } else { 10 };

    if up {
        next.y = saturating_sub_isize(paddle.y, step);
    } else if down {
        let lower: isize = paddle.y + step;
        let lowest: isize = screen.height - paddle.height;
        next.y = if lower <= lowest { lower } else { lowest };
    }
    next
}

/// Moves the computer's paddle, `blocks[1]`. While its cooldown runs it
/// stays put and the cooldown counts down; otherwise it steps toward its
/// target and waits two frames (while tracking the ball) or three before it
/// moves again. Either way it records where it stood before.
pub fn ai_update_paddle(game: &mut Game, screen: &Screen, ai: &mut AIState)
    requires
        ai_update_fits(
            old(game).blocks[0],
            old(game).blocks[1],
            old(game).ball,
            old(ai).cooldown,
            screen.width as int,
            screen.height as int,
        ),
    ensures
        final(game).blocks[1] == moved_ai(
            old(game).blocks[0],
            old(game).blocks[1],
            old(game).ball,
            old(ai).cooldown,
            screen.width as int,
            screen.height as int,
        ),
        final(ai).cooldown == ai_cooldown_after(old(game).ball, old(ai).cooldown, screen.width as int),
        final(game).blocks[0] == old(game).blocks[0],
        final(game).ball == old(game).ball,
        final(game).game_state == old(game).game_state,
{
    let next = ai_paddle_next(&game.blocks[0], &game.blocks[1], &game.ball, ai.cooldown, screen);
    game.blocks[1] = next;

    if ai.cooldown > 0 {
        ai.cooldown = ai.cooldown - 1;
    } else {
        let tracking: bool = game.ball.vx > 0 && (game.ball.x as i128) > div_toward_zero(screen.width as i128, 2);
        ai.cooldown = if tracking { 2 } else { 3 };
    }
}

/// The inputs on which a whole frame runs: the player's move, then the
/// computer's (which sees the player's paddle where it now stands), then the
/// ball's (which meets both paddles where they now stand).
pub open spec fn frame_fits(game: Game, screen_width: int, screen_height: int, input: InputState, cooldown: usize) -> bool {
    let player = moved_player(game.blocks[0], screen_height, input);
    let computer = moved_ai(player, game.blocks[1], game.ball, cooldown, screen_width, screen_height);
    &&& paddle_update_fits(game.blocks[0], screen_height, input)
    &&& ai_update_fits(player, game.blocks[1], game.ball, cooldown, screen_width, screen_height)
    &&& ball_update_fits(game.ball, seq![player, computer])
}

/// Plays one frame: moves the player's paddle by `input`, then the
/// computer's, then the ball. Returns whether the match goes on, or `None`,
/// with nothing changed, on a frame whose arithmetic would leave `isize` or
/// whose computer target range would be empty: the frames on which the game
/// would otherwise panic.
pub fn play_frame(game: &mut Game, screen: &Screen, input: &InputState, ai: &mut AIState) -> (running: Option<bool>)
    ensures
        running is None <==> !frame_fits(
            *old(game),
            screen.width as int,
            screen.height as int,
            *input,
            old(ai).cooldown,
        ),
        running is None ==> *final(game) == *old(game) && final(ai).cooldown == old(ai).cooldown,
        running is Some ==> {
            let player = moved_player(old(game).blocks[0], screen.height as int, *input);
            let computer = moved_ai(
                player,
                old(game).blocks[1],
                old(game).ball,
                old(ai).cooldown,
                screen.width as int,
                screen.height as int,
            );
            let b = old(game).ball;
            let (vx, vy) = bounced_speed(b, seq![player, computer], screen.height as int);
            &&& final(game).blocks[0] == player
            &&& final(game).blocks[1] == computer
            &&& final(ai).cooldown == ai_cooldown_after(b, old(ai).cooldown, screen.width as int)
            &&& final(game).ball == Ball {
                x: (b.x + b.vx) as isize,
                y: (b.y + b.vy) as isize,
                vx: vx as isize,
                vy: clamp_int(vy, -10, 10) as isize,
                ..b
            }
            &&& final(game).game_state == state_after_move(
                old(game).game_state,
                b.x + b.vx,
                b.radius as int,
                screen.width as int,
            )
            &&& running == Some(final(game).game_state == GameState::Running)
        },
{
    // the player's move
    if !input.w && input.s {
        let p = game.blocks[0];
        let lowest: i128 = (screen.height as i128) - (p.height as i128);
        if (p.y as i128) + 30 > isize::MAX as i128 || lowest < isize::MIN as i128 || lowest > isize::MAX as i128 {
            return None;
        }
    }
    let player = player_paddle_next(game.blocks[0], screen, input);

    // the computer's move
    if ai.cooldown == 0 {
        let p = game.blocks[1];
        let (tracking, _up, down) = ai_plan(&player, &p, &game.ball, screen);
        let half: i128 = div_toward_zero(p.height as i128, 2);
        if tracking && half > (screen.height as i128) - half {
            return None;
        }
        let step: i128 = if tracking { 16 } else { 10 };
        let lowest: i128 = (screen.height as i128) - (p.height as i128);
        if down && ((p.y as i128) + step > isize::MAX as i128 || lowest < isize::MIN as i128
            || lowest > isize::MAX as i128) {
            return None;
        }
    }
    let computer = ai_paddle_next(&player, &game.blocks[1], &game.ball, ai.cooldown, screen);

    // the ball's move
    let b = game.ball;
    let x: i128 = (b.x as i128) + (b.vx as i128);
    let y: i128 = (b.y as i128) + (b.vy as i128);
    if x < isize::MIN as i128 || x > isize::MAX as i128 || y < isize::MIN as i128 || y > isize::MAX as i128 {
        return None;
    }
    if b.vx == isize::MIN {
        let meets_player = ball_touches(x as isize, y as isize, b.radius, &player);
        let meets_computer = ball_touches(x as isize, y as isize, b.radius, &computer);
        proof {
            let blocks = seq![player, computer];
            if ball_meets_paddle(b, blocks) {
                let i = choose|i: int|
                    0 <= i < blocks.len() && touches(b.x + b.vx, b.y + b.vy, b.radius as int, #[trigger] blocks[i]);
                assert(i == 0 || i == 1);
            }
            assert(meets_player ==> ball_meets_paddle(b, blocks)) by {
                assert(blocks[0] == player);
            }
            assert(meets_computer ==> ball_meets_paddle(b, blocks)) by {
                assert(blocks[1] == computer);
            }
        }
        if meets_player || meets_computer {
            return None;
        }
    }

    update_paddle(game, screen, input);
    ai_update_paddle(game, screen, ai);
    proof {
        assert(game.blocks@ =~= seq![game.blocks[0], game.blocks[1]]);
    }
    update_ball(screen, game);
    Some(game.game_state == GameState::Running)
}

impl Game {
    /// The opening position on a `width` by `height` screen: both paddles 15
    /// by 150 pixels at mid height against the left and right edges, the ball
    /// of radius 10 in the centre, moving 10 pixels right and 4 down a frame.
    pub fn new(width: isize, height: isize) -> (game: Game)
        requires
            width >= isize::MIN + 15,
        ensures
            game.game_state == GameState::Running,
            game.blocks[0] == (Block {
                x: 0,
                y: trunc_div(height as int, 2) as isize,
                prev_y: trunc_div(height as int, 2) as isize,
                width: 15,
                height: 150,
                color: 0x00ffffff,
            }),
            game.blocks[1] == (Block {
                x: (width - 15) as isize,
                y: trunc_div(height as int, 2) as isize,
                prev_y: trunc_div(height as int, 2) as isize,
                width: 15,
                height: 150,
                color: 0x00ffffff,
            }),
            game.ball == (Ball {
                x: trunc_div(width as int, 2) as isize,
                y: trunc_div(height as int, 2) as isize,
                vx: 10,
                vy: 4,
                radius: 10,
                color: 0x00ffffff,
            }),
    {
        let mid_y: isize = div_toward_zero(height as i128, 2) as isize;
        let mid_x: isize = div_toward_zero(width as i128, 2) as isize;
        let block_a = Block {
            x: 0,
            y: mid_y,
            prev_y: mid_y,
            width: 15,
            height: 150,
            color: 0x00ffffff,
        };

        let block_b = Block {
            x: width - 15,
            y: mid_y,
            prev_y: mid_y,
            width: 15,
            height: 150,
            color: 0x00ffffff,
        };

        let ball = Ball {
            x: mid_x,
            y: mid_y,
            vx: 10,
            vy: 4,
            radius: 10,
            color: 0x00ffffff,
        };

        Game { game_state: GameState::Running, ball, blocks: [block_a, block_b] }
    }
}

pub open spec fn result_byte(state: GameState) -> Option<u8> {
    match state {
        GameState::Won => Some(1u8),
        GameState::Lost => Some(0u8),
        GameState::Running => None::<u8>,
    }
}

/// The byte the game leaves for the bootloader once the match is over: 1 for
/// a win, 0 for a loss; nothing while it still runs.
pub fn pong_result_byte(state: &GameState) -> (byte: Option<u8>)
    ensures
        byte == result_byte(*state),
{
    match state {
        GameState::Won => Some(1),
        GameState::Lost => Some(0),
        GameState::Running => None,
    }
}


/// After every frame the ball's vertical speed is between -10 and 10.
pub proof fn lemma_vertical_speed_bounded(ball: Ball, blocks: Seq<Block>, screen_height: int)
    ensures
        -10 <= clamp_int(bounced_speed(ball, blocks, screen_height).1, -10, 10) <= 10,
{
}

proof fn lemma_paddles_keep_horizontal_speed(vx: int, vy: int, x: int, y: int, r: int, blocks: Seq<Block>, n: nat)
    ensures
        after_paddles(vx, vy, x, y, r, blocks, n).0 == vx || after_paddles(vx, vy, x, y, r, blocks, n).0 == -vx,
    decreases n,
{
    if n > 0 {
        lemma_paddles_keep_horizontal_speed(vx, vy, x, y, r, blocks, (n - 1) as nat);
    }
}

/// The ball's horizontal speed never changes in size: the paddles only send
/// it back.
pub proof fn lemma_horizontal_speed_kept(ball: Ball, blocks: Seq<Block>, screen_height: int)
    ensures
        bounced_speed(ball, blocks, screen_height).0 == ball.vx
            || bounced_speed(ball, blocks, screen_height).0 == -ball.vx,
{
    lemma_paddles_keep_horizontal_speed(
        ball.vx as int,
        vy_after_walls(ball, screen_height),
        ball.x + ball.vx,
        ball.y + ball.vy,
        ball.radius as int,
        blocks,
        blocks.len(),
    );
}

/// A paddle that does not reach below the bottom edge never will: neither
/// the player's moves nor the computer's take it lower than where it touches
/// the bottom.
pub proof fn lemma_paddles_stay_above_bottom(
    player: Block,
    computer: Block,
    ball: Ball,
    cooldown: usize,
    input: InputState,
    screen_width: int,
    screen_height: int,
)
    requires
        player.y <= screen_height - player.height,
        computer.y <= screen_height - computer.height,
    ensures
        player_paddle_y(player.y as int, player.height as int, screen_height, input)
            <= screen_height - player.height,
        cooldown > 0 ==> computer.y <= screen_height - computer.height,
        cooldown == 0 ==> ai_paddle_y(player, computer, ball, screen_width, screen_height)
            <= screen_height - computer.height,
{
}

/// While it stays above the bottom edge, the player's paddle moves at most
/// 30 pixels a frame and the computer's at most 16.
pub proof fn lemma_paddle_speed_bounded(
    player: Block,
    computer: Block,
    ball: Ball,
    input: InputState,
    screen_width: int,
    screen_height: int,
)
    requires
        player.y <= screen_height - player.height,
        computer.y <= screen_height - computer.height,
    ensures
        player.y - 30 <= player_paddle_y(player.y as int, player.height as int, screen_height, input)
            <= player.y + 30,
        computer.y - 16 <= ai_paddle_y(player, computer, ball, screen_width, screen_height)
            <= computer.y + 16,
{
}

/// The match is decided by the ball alone: lost once the ball has wholly
/// left the screen on the left, won once it has wholly left it on the
/// right, and unchanged while any of the ball is over the screen.
pub proof fn lemma_match_decided_by_ball(state: GameState, x: int, r: int, screen_width: int)
    ensures
        x + r < 0 ==> state_after_move(state, x, r, screen_width) == GameState::Lost,
        x + r >= 0 && x - r > screen_width ==> state_after_move(state, x, r, screen_width) == GameState::Won,
        x + r >= 0 && x - r <= screen_width ==> state_after_move(state, x, r, screen_width) == state,
{
}

/// Every paddle the moved ball touches sends it back and gives it a fifth
/// (rounded toward zero) of the paddle's own vertical speed; a paddle it
/// does not touch changes nothing. With both paddles: the horizontal speed
/// is reversed when exactly one of them is touched, and the vertical speed
/// (after the bounce off the top or bottom edge) gains the share of each
/// paddle touched.
pub proof fn lemma_each_touched_paddle_returns_ball(ball: Ball, blocks: Seq<Block>, screen_height: int)
    requires
        blocks.len() == 2,
    ensures
        ({
            let x = ball.x + ball.vx;
            let y = ball.y + ball.vy;
            let r = ball.radius as int;
            let p = blocks[0];
            let c = blocks[1];
            let hits_p = x + r >= p.x && x - r <= p.x + p.width && y + r >= p.y && y - r <= p.y + p.height;
            let hits_c = x + r >= c.x && x - r <= c.x + c.width && y + r >= c.y && y - r <= c.y + c.height;
            let dp = p.y - p.prev_y;
            let dc = c.y - c.prev_y;
            let share_p = if dp >= 0 { dp / 5 } else { -((-dp) / 5) };
            let share_c = if dc >= 0 { dc / 5 } else { -((-dc) / 5) };
            let walls = if y - r <= 0 || y + r >= screen_height { -ball.vy } else { ball.vy as int };
            let (vx, vy) = bounced_speed(ball, blocks, screen_height);
            &&& vx == (if hits_p != hits_c { -ball.vx } else { ball.vx as int })
            &&& vy == walls + (if hits_p { share_p } else { 0 }) + (if hits_c { share_c } else { 0 })
        }),
{
    reveal_with_fuel(after_paddles, 3);
}

/// A ball that does not come toward the computer (horizontal speed not
/// above 0) is never tracked, wherever it is: the computer steers its
/// paddle's centre toward the centre of the player's paddle with a dead zone
/// of 24 and a step of 10, and waits 3 frames before its next move.
pub proof fn lemma_ball_going_away_is_not_tracked(
    player: Block,
    paddle: Block,
    ball: Ball,
    screen_width: int,
    screen_height: int,
)
    requires
        ball.vx <= 0,
    ensures
        ({
            let target = player.y + (if player.height >= 0 { player.height / 2 } else { -((-player.height) / 2) });
            let center = paddle.y + (if paddle.height >= 0 { paddle.height / 2 } else { -((-paddle.height) / 2) });
            let y = moved_ai(player, paddle, ball, 0, screen_width, screen_height).y as int;
            &&& target < center - 24 ==> y == (if paddle.y - 10 < isize::MIN { isize::MIN as int } else { paddle.y - 10 })
            &&& !(target < center - 24) && target > center + 24 ==> y == (if paddle.y + 10 <= screen_height - paddle.height {
                paddle.y + 10
            } else {
                screen_height - paddle.height
            }) as isize
            &&& center - 24 <= target <= center + 24 ==> y == paddle.y
            &&& ai_cooldown_after(ball, 0, screen_width) == 3
        }),
{
}

/// The computer tracks the ball (and so waits 2 frames after deciding,
/// rather than 3) exactly when the ball comes toward it, horizontal speed
/// above 0, and is past the middle of the screen.
pub proof fn lemma_tracking_needs_ball_coming_past_middle(ball: Ball, screen_width: int)
    ensures
        (ai_cooldown_after(ball, 0, screen_width) == 2) <==> (ball.vx > 0 && ball.x > (if screen_width >= 0 {
            screen_width / 2
        } else {
            -((-screen_width) / 2)
        })),
        ai_cooldown_after(ball, 0, screen_width) == 2 || ai_cooldown_after(ball, 0, screen_width) == 3,
{
}

} // verus!
