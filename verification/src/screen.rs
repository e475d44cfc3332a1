use vstd::prelude::*;
use crate::game::{Ball, Block, Game};

verus! {

/// The screen the game draws on: its size in pixels and the contents of its
/// framebuffer, one `0x00RRGGBB` value per pixel, row after row.
pub struct Screen {
    pub pixels: Vec<u32>,
    pub width: isize,
    pub height: isize,
}

impl Screen {
    /// The framebuffer holds exactly one pixel for each point of the screen.
    pub open spec fn wf(&self) -> bool {
        &&& 0 <= self.width
        &&& 0 <= self.height
        &&& self.pixels@.len() == self.width * self.height
    }

    /// A `width` by `height` screen, all black.
    pub fn new(width: isize, height: isize) -> (screen: Screen)
        requires
            0 <= width,
            0 <= height,
            width * height <= usize::MAX,
        ensures
            screen.wf(),
            screen.width == width,
            screen.height == height,
            forall|i: int| 0 <= i < screen.pixels@.len() ==> screen.pixels@[i] == 0u32,
    {
        let n: usize = (width as usize) * (height as usize);
        proof {
            assert((width as usize) * (height as usize) == width * height) by (nonlinear_arith)
                requires
                    0 <= width,
                    0 <= height,
                    width * height <= usize::MAX,
            ;
        }
        Screen { pixels: vec![0u32; n], width, height }
    }
}

/// Where the point `(x, y)` lies in a framebuffer whose rows are `width`
/// pixels long.
pub open spec fn pixel_index(width: int, x: int, y: int) -> int {
    y * width + x
}

/// Pixel `i` is the place of a point of `shape`.
pub open spec fn covers(shape: spec_fn(int, int) -> bool, width: int, i: int) -> bool {
    exists|x: int, y: int| shape(x, y) && #[trigger] pixel_index(width, x, y) == i
}

/// The framebuffer `pixels` with every pixel that is the place of a point of
/// `shape` set to `color`; points whose place lies outside the framebuffer
/// are left out.
pub open spec fn paint(pixels: Seq<u32>, shape: spec_fn(int, int) -> bool, width: int, color: u32) -> Seq<u32> {
    Seq::new(pixels.len(), |i: int| if covers(shape, width, i) { color } else { pixels[i] })
}

/// The points of a paddle.
pub open spec fn block_shape(b: Block) -> spec_fn(int, int) -> bool {
    |x: int, y: int| b.x <= x < b.x + b.width && b.y <= y < b.y + b.height
}

/// The points of the ball: those of the square around its centre whose
/// distance from the centre is at most the radius.
pub open spec fn ball_shape(b: Ball) -> spec_fn(int, int) -> bool {
    |x: int, y: int| {
        &&& b.x - b.radius <= x <= b.x + b.radius
        &&& b.y - b.radius <= y <= b.y + b.radius
        &&& (x - b.x) * (x - b.x) + (y - b.y) * (y - b.y) <= b.radius * b.radius
    }
}

/// The framebuffer after the first `n` paddles are drawn, in order.
pub open spec fn paint_blocks(pixels: Seq<u32>, blocks: Seq<Block>, width: int, n: nat) -> Seq<u32>
    decreases n,
{
    if n == 0 {
        pixels
    } else {
        let b = blocks[n - 1];
        paint(paint_blocks(pixels, blocks, width, (n - 1) as nat), block_shape(b), width, b.color)
    }
}

/// The points of `shape` that a row-by-row scan has reached before the
/// point `(xx, yy)`, and whose place is pixel `i`.
spec fn covered_before(shape: spec_fn(int, int) -> bool, width: int, yy: int, xx: int, i: int) -> bool {
    exists|x: int, y: int|
        shape(x, y) && (y < yy || (y == yy && x < xx)) && #[trigger] pixel_index(width, x, y) == i
}

proof fn lemma_scan_start(shape: spec_fn(int, int) -> bool, width: int, y0: int, x0: int, i: int)
    requires
        forall|x: int, y: int| #[trigger] shape(x, y) ==> y0 <= y && x0 <= x,
    ensures
        !covered_before(shape, width, y0, x0, i),
{
}

proof fn lemma_scan_point(shape: spec_fn(int, int) -> bool, width: int, yy: int, xx: int, i: int)
    ensures
        covered_before(shape, width, yy, xx + 1, i) <==> (covered_before(shape, width, yy, xx, i) || (
        shape(xx, yy) && pixel_index(width, xx, yy) == i)),
{
    if covered_before(shape, width, yy, xx + 1, i) {
        let (x, y) = choose|x: int, y: int|
            shape(x, y) && (y < yy || (y == yy && x < xx + 1)) && #[trigger] pixel_index(width, x, y) == i;
        if !(y < yy || (y == yy && x < xx)) {
            assert(x == xx && y == yy);
        }
    }
    if shape(xx, yy) && pixel_index(width, xx, yy) == i {
        assert(covered_before(shape, width, yy, xx + 1, i));
    }
}

proof fn lemma_scan_row(shape: spec_fn(int, int) -> bool, width: int, yy: int, x_end: int, x0: int, i: int)
    requires
        forall|x: int, y: int| #[trigger] shape(x, y) ==> x0 <= x < x_end,
    ensures
        covered_before(shape, width, yy, x_end, i) <==> covered_before(shape, width, yy + 1, x0, i),
{
    if covered_before(shape, width, yy + 1, x0, i) {
        let (x, y) = choose|x: int, y: int|
            shape(x, y) && (y < yy + 1 || (y == yy + 1 && x < x0)) && #[trigger] pixel_index(width, x, y) == i;
        assert(covered_before(shape, width, yy, x_end, i));
    }
}

proof fn lemma_scan_end(shape: spec_fn(int, int) -> bool, width: int, y_end: int, x0: int, i: int)
    requires
        forall|x: int, y: int| #[trigger] shape(x, y) ==> y < y_end,
    ensures
        covered_before(shape, width, y_end, x0, i) <==> covers(shape, width, i),
{
    if covers(shape, width, i) {
        let (x, y) = choose|x: int, y: int| shape(x, y) && #[trigger] pixel_index(width, x, y) == i;
        assert(covered_before(shape, width, y_end, x0, i));
    }
}

/// Paints every pixel of the screen `color`.
pub fn fill_screen(screen: &mut Screen, color: u32)
    requires
        old(screen).wf(),
    ensures
        final(screen).width == old(screen).width,
        final(screen).height == old(screen).height,
        final(screen).pixels@ == Seq::new(old(screen).pixels@.len(), |i: int| color),
{
    let n = screen.pixels.len();
    let mut i: usize = 0;
    while i < n
        invariant
            n == screen.pixels@.len(),
            n == old(screen).pixels@.len(),
            i <= n,
            screen.width == old(screen).width,
            screen.height == old(screen).height,
            forall|j: int| 0 <= j < i ==> screen.pixels@[j] == color,
        decreases n - i,
    {
        screen.pixels.set(i, color);
        i = i + 1;
    }
    assert(screen.pixels@ =~= Seq::new(old(screen).pixels@.len(), |i: int| color));
}

/// Writes `color` at the place of the point `(x, y)`, when that place lies in
/// the framebuffer.
fn put_pixel(screen: &mut Screen, x: i128, y: i128, color: u32)
    requires
        -0x4_0000_0000_0000_0000 <= x <= 0x4_0000_0000_0000_0000,
    ensures
        final(screen).width == old(screen).width,
        final(screen).height == old(screen).height,
        final(screen).pixels@ == (if 0 <= pixel_index(old(screen).width as int, x as int, y as int)
            < old(screen).pixels@.len() {
            old(screen).pixels@.update(pixel_index(old(screen).width as int, x as int, y as int), color)
        } else {
            old(screen).pixels@
        }),
{
    let len: usize = screen.pixels.len();
    proof {
        assert(len <= 0x1_0000_0000_0000_0000);
    }
    match y.checked_mul(screen.width as i128) {
        Some(row_start) => {
            match row_start.checked_add(x) {
                Some(idx) => {
                    if 0 <= idx && idx < len as i128 {
                        screen.pixels.set(idx as usize, color);
                    }
                },
                None => {},
            }
        },
        None => {},
    }
}

/// Draws one paddle: every point of its box gets the paddle's colour.
fn draw_block(screen: &mut Screen, block: &Block)
    ensures
        final(screen).width == old(screen).width,
        final(screen).height == old(screen).height,
        final(screen).pixels@ == paint(old(screen).pixels@, block_shape(*block), old(screen).width as int, block.color),
{
    let ghost shape = block_shape(*block);
    let ghost old_pixels = screen.pixels@;
    let ghost w = screen.width as int;
    let x0: i128 = block.x as i128;
    let x1: i128 = (block.x as i128) + (block.width as i128);
    let y1: i128 = (block.y as i128) + (block.height as i128);
    let mut y: i128 = block.y as i128;
    proof {
        assert forall|i: int| 0 <= i < old_pixels.len() implies !covered_before(shape, w, y as int, x0 as int, i) by {
            lemma_scan_start(shape, w, y as int, x0 as int, i);
        }
    }
    while y < y1
        invariant
            block.y <= y,
            y1 == block.y + block.height,
            x0 == block.x,
            x1 == block.x + block.width,
            shape == block_shape(*block),
            w == screen.width as int,
            screen.width == old(screen).width,
            screen.height == old(screen).height,
            old_pixels == old(screen).pixels@,
            screen.pixels@.len() == old_pixels.len(),
            forall|i: int| 0 <= i < old_pixels.len() ==> screen.pixels@[i] == if covered_before(shape, w, y as int, x0 as int, i) {
                block.color
            } else {
                old_pixels[i]
            },
        decreases y1 - y,
    {
        let mut x: i128 = x0;
        while x < x1
            invariant
                block.y <= y < y1,
                y1 == block.y + block.height,
                x0 == block.x,
                x1 == block.x + block.width,
                x0 <= x,
                x <= x1 || x == x0,
                shape == block_shape(*block),
                w == screen.width as int,
                screen.width == old(screen).width,
                screen.height == old(screen).height,
                old_pixels == old(screen).pixels@,
                screen.pixels@.len() == old_pixels.len(),
                forall|i: int| 0 <= i < old_pixels.len() ==> screen.pixels@[i] == if covered_before(shape, w, y as int, x as int, i) {
                    block.color
                } else {
                    old_pixels[i]
                },
            decreases x1 - x,
        {
            let ghost before = screen.pixels@;
            put_pixel(screen, x, y, block.color);
            proof {
                assert forall|i: int| 0 <= i < old_pixels.len() implies screen.pixels@[i] == if covered_before(shape, w, y as int, x + 1, i) {
                    block.color
                } else {
                    old_pixels[i]
                } by {
                    lemma_scan_point(shape, w, y as int, x as int, i);
                }
            }
            x = x + 1;
        }
        proof {
            assert forall|i: int| 0 <= i < old_pixels.len() implies screen.pixels@[i] == if covered_before(shape, w, y + 1, x0 as int, i) {
                block.color
            } else {
                old_pixels[i]
            } by {
                if x1 < x0 {
                    lemma_scan_row(shape, w, y as int, x0 as int, x0 as int, i);
                } else {
                    lemma_scan_row(shape, w, y as int, x1 as int, x0 as int, i);
                }
            }
        }
        y = y + 1;
    }
    proof {
        assert forall|i: int| 0 <= i < old_pixels.len() implies screen.pixels@[i] == if covers(shape, w, i) {
            block.color
        } else {
            old_pixels[i]
        } by {
            if y1 < block.y {
                lemma_scan_end(shape, w, y as int, x0 as int, i);
            } else {
                lemma_scan_end(shape, w, y1 as int, x0 as int, i);
            }
        }
        assert(screen.pixels@ =~= paint(old_pixels, shape, w, block.color));
    }
}

/// Draws both paddles, the player's first.
pub fn draw_blocks(screen: &mut Screen, game: &Game)
    ensures
        final(screen).width == old(screen).width,
        final(screen).height == old(screen).height,
        final(screen).pixels@ == paint_blocks(old(screen).pixels@, game.blocks@, old(screen).width as int, 2),
{
    let mut i: usize = 0;
    while i < 2
        invariant
            0 <= i <= 2,
            game.blocks@.len() == 2,
            screen.width == old(screen).width,
            screen.height == old(screen).height,
            screen.pixels@ == paint_blocks(old(screen).pixels@, game.blocks@, old(screen).width as int, i as nat),
        decreases 2 - i,
    {
        draw_block(screen, &game.blocks[i]);
        i = i + 1;
    }
}


/// `dx * dx + dy * dy <= r * r`, computed without leaving `i128`.
fn within_radius(dx: i128, dy: i128, r: i128) -> (inside: bool)
    requires
        0 <= r <= 0x7fff_ffff_ffff_ffff,
        -r <= dx <= r,
        -r <= dy <= r,
    ensures
        inside == (dx * dx + dy * dy <= r * r),
{
    proof {
        assert(0 <= dx * dx <= r * r && 0 <= dy * dy <= r * r && r * r <= 0x3fff_ffff_ffff_ffff_0000_0000_0000_0001)
            by (nonlinear_arith)
            requires
                0 <= r <= 0x7fff_ffff_ffff_ffff,
                -r <= dx <= r,
                -r <= dy <= r,
        ;
    }
    dx * dx + dy * dy <= r * r
}

/// Draws the ball: every point within its radius of its centre gets the
/// ball's colour.
pub fn draw_ball(screen: &mut Screen, ball: &Ball)
    ensures
        final(screen).width == old(screen).width,
        final(screen).height == old(screen).height,
        final(screen).pixels@ == paint(old(screen).pixels@, ball_shape(*ball), old(screen).width as int, ball.color),
{
    let ghost shape = ball_shape(*ball);
    let ghost old_pixels = screen.pixels@;
    let ghost w = screen.width as int;
    let r: i128 = ball.radius as i128;
    let cx: i128 = ball.x as i128;
    let cy: i128 = ball.y as i128;
    let x0: i128 = cx - r;
    let x1: i128 = cx + r + 1;
    let y1: i128 = cy + r + 1;
    let mut y: i128 = cy - r;
    proof {
        assert forall|i: int| 0 <= i < old_pixels.len() implies !covered_before(shape, w, y as int, x0 as int, i) by {
            lemma_scan_start(shape, w, y as int, x0 as int, i);
        }
    }
    while y < y1
        invariant
            cy - r <= y,
            y1 == cy + r + 1,
            x0 == cx - r,
            x1 == cx + r + 1,
            r == ball.radius,
            cx == ball.x,
            cy == ball.y,
            shape == ball_shape(*ball),
            w == screen.width as int,
            screen.width == old(screen).width,
            screen.height == old(screen).height,
            old_pixels == old(screen).pixels@,
            screen.pixels@.len() == old_pixels.len(),
            forall|i: int| 0 <= i < old_pixels.len() ==> screen.pixels@[i] == if covered_before(shape, w, y as int, x0 as int, i) {
                ball.color
            } else {
                old_pixels[i]
            },
        decreases y1 - y,
    {
        let mut x: i128 = x0;
        while x < x1
            invariant
                cy - r <= y < y1,
                y1 == cy + r + 1,
                x0 == cx - r,
                x1 == cx + r + 1,
                r == ball.radius,
                cx == ball.x,
                cy == ball.y,
                x0 <= x,
                x <= x1 || x == x0,
                shape == ball_shape(*ball),
                w == screen.width as int,
                screen.width == old(screen).width,
                screen.height == old(screen).height,
                old_pixels == old(screen).pixels@,
                screen.pixels@.len() == old_pixels.len(),
                forall|i: int| 0 <= i < old_pixels.len() ==> screen.pixels@[i] == if covered_before(shape, w, y as int, x as int, i) {
                    ball.color
                } else {
                    old_pixels[i]
                },
            decreases x1 - x,
        {
            if within_radius(x - cx, y - cy, r) {
                put_pixel(screen, x, y, ball.color);
            }
            proof {
                assert forall|i: int| 0 <= i < old_pixels.len() implies screen.pixels@[i] == if covered_before(shape, w, y as int, x + 1, i) {
                    ball.color
                } else {
                    old_pixels[i]
                } by {
                    lemma_scan_point(shape, w, y as int, x as int, i);
                }
            }
            x = x + 1;
        }
        proof {
            assert forall|i: int| 0 <= i < old_pixels.len() implies screen.pixels@[i] == if covered_before(shape, w, y + 1, x0 as int, i) {
                ball.color
            } else {
                old_pixels[i]
            } by {
                if x1 < x0 {
                    lemma_scan_row(shape, w, y as int, x0 as int, x0 as int, i);
                } else {
                    lemma_scan_row(shape, w, y as int, x1 as int, x0 as int, i);
                }
            }
        }
        y = y + 1;
    }
    proof {
        assert forall|i: int| 0 <= i < old_pixels.len() implies screen.pixels@[i] == if covers(shape, w, i) {
            ball.color
        } else {
            old_pixels[i]
        } by {
            if y1 < cy - r {
                lemma_scan_end(shape, w, y as int, x0 as int, i);
            } else {
                lemma_scan_end(shape, w, y1 as int, x0 as int, i);
            }
        }
        assert(screen.pixels@ =~= paint(old_pixels, shape, w, ball.color));
    }
}


/// A drawn frame holds only the colours drawn: after the screen is filled
/// with `background` and the paddles and the ball are drawn on it, every
/// pixel has the background colour, a paddle's colour or the ball's.
pub proof fn lemma_frame_colors(len: nat, background: u32, blocks: Seq<Block>, ball: Ball, width: int)
    requires
        blocks.len() == 2,
    ensures
        ({
            let frame = paint(
                paint_blocks(Seq::new(len, |i: int| background), blocks, width, 2),
                ball_shape(ball),
                width,
                ball.color,
            );
            &&& frame.len() == len
            &&& forall|i: int| 0 <= i < len ==> {
                ||| frame[i] == background
                ||| frame[i] == blocks[0].color
                ||| frame[i] == blocks[1].color
                ||| frame[i] == ball.color
            }
        }),
{
    reveal_with_fuel(paint_blocks, 3);
}

/// The ball is drawn as a disc: every point whose squared distance from the
/// ball's centre is at most the squared radius gets the ball's colour (when
/// its place `y * width + x` lies in the framebuffer), and a pixel that is
/// the place of no such point keeps its colour.
pub proof fn lemma_ball_is_a_disc(pixels: Seq<u32>, ball: Ball, width: int)
    ensures
        paint(pixels, ball_shape(ball), width, ball.color).len() == pixels.len(),
        ball.radius >= 0 ==> forall|x: int, y: int|
            (x - ball.x) * (x - ball.x) + (y - ball.y) * (y - ball.y) <= ball.radius * ball.radius
                && 0 <= #[trigger] (y * width + x) < pixels.len()
                ==> paint(pixels, ball_shape(ball), width, ball.color)[y * width + x] == ball.color,
        forall|i: int|
            0 <= i < pixels.len() && (forall|x: int, y: int| #[trigger] (y * width + x) == i ==>
                (x - ball.x) * (x - ball.x) + (y - ball.y) * (y - ball.y) > ball.radius * ball.radius)
                ==> paint(pixels, ball_shape(ball), width, ball.color)[i] == pixels[i],
{
    let r = ball.radius as int;
    assert forall|x: int, y: int|
        r >= 0 && (x - ball.x) * (x - ball.x) + (y - ball.y) * (y - ball.y) <= r * r
            && 0 <= #[trigger] (y * width + x) < pixels.len()
        implies paint(pixels, ball_shape(ball), width, ball.color)[y * width + x] == ball.color by {
        let dx = x - ball.x;
        let dy = y - ball.y;
        assert(-r <= dx <= r && -r <= dy <= r) by (nonlinear_arith)
            requires
                r >= 0,
                dx * dx + dy * dy <= r * r,
        ;
        assert((ball_shape(ball))(x, y));
        assert(pixel_index(width, x, y) == y * width + x);
    }
    assert forall|i: int|
        0 <= i < pixels.len() && (forall|x: int, y: int| #[trigger] (y * width + x) == i ==>
            (x - ball.x) * (x - ball.x) + (y - ball.y) * (y - ball.y) > ball.radius * ball.radius)
        implies paint(pixels, ball_shape(ball), width, ball.color)[i] == pixels[i] by {
        if covers(ball_shape(ball), width, i) {
            let (x, y) = choose|x: int, y: int| (ball_shape(ball))(x, y) && #[trigger] pixel_index(width, x, y) == i;
            assert(y * width + x == i);
        }
    }
}

/// A paddle is drawn as a filled box: every point `(x, y)` with
/// `block.x <= x < block.x + block.width` and
/// `block.y <= y < block.y + block.height`, inside as well as on the edge,
/// gets the paddle's colour (when its place lies in the framebuffer), and a
/// pixel that is the place of no point of the box keeps its colour.
pub proof fn lemma_block_is_a_filled_box(pixels: Seq<u32>, block: Block, width: int)
    ensures
        paint(pixels, block_shape(block), width, block.color).len() == pixels.len(),
        forall|x: int, y: int|
            block.x <= x < block.x + block.width && block.y <= y < block.y + block.height
                && 0 <= #[trigger] (y * width + x) < pixels.len()
                ==> paint(pixels, block_shape(block), width, block.color)[y * width + x] == block.color,
        forall|i: int|
            0 <= i < pixels.len() && (forall|x: int, y: int| #[trigger] (y * width + x) == i ==>
                !(block.x <= x < block.x + block.width && block.y <= y < block.y + block.height))
                ==> paint(pixels, block_shape(block), width, block.color)[i] == pixels[i],
{
    assert forall|x: int, y: int|
        block.x <= x < block.x + block.width && block.y <= y < block.y + block.height
            && 0 <= #[trigger] (y * width + x) < pixels.len()
        implies paint(pixels, block_shape(block), width, block.color)[y * width + x] == block.color by {
        assert((block_shape(block))(x, y));
        assert(pixel_index(width, x, y) == y * width + x);
    }
    assert forall|i: int|
        0 <= i < pixels.len() && (forall|x: int, y: int| #[trigger] (y * width + x) == i ==>
            !(block.x <= x < block.x + block.width && block.y <= y < block.y + block.height))
        implies paint(pixels, block_shape(block), width, block.color)[i] == pixels[i] by {
        if covers(block_shape(block), width, i) {
            let (x, y) = choose|x: int, y: int| (block_shape(block))(x, y) && #[trigger] pixel_index(width, x, y) == i;
            assert(y * width + x == i);
        }
    }
}

/// Both paddles are drawn as filled boxes, the computer's over the
/// player's: a point of the computer's box gets its colour; a pixel that is
/// the place of a point of the player's box and of no point of the
/// computer's gets the player's colour; any other pixel keeps its colour.
pub proof fn lemma_paddles_are_filled_boxes(pixels: Seq<u32>, blocks: Seq<Block>, width: int)
    requires
        blocks.len() == 2,
    ensures
        ({
            let p = blocks[0];
            let c = blocks[1];
            let drawn = paint_blocks(pixels, blocks, width, 2);
            &&& drawn.len() == pixels.len()
            &&& forall|x: int, y: int|
                c.x <= x < c.x + c.width && c.y <= y < c.y + c.height && 0 <= #[trigger] (y * width + x) < pixels.len()
                    ==> drawn[y * width + x] == c.color
            &&& forall|i: int|
                0 <= i < pixels.len() && (exists|x: int, y: int| #[trigger] (y * width + x) == i
                    && p.x <= x < p.x + p.width && p.y <= y < p.y + p.height)
                    && (forall|x: int, y: int| #[trigger] (y * width + x) == i
                    ==> !(c.x <= x < c.x + c.width && c.y <= y < c.y + c.height))
                    ==> drawn[i] == p.color
            &&& forall|i: int|
                0 <= i < pixels.len() && (forall|x: int, y: int| #[trigger] (y * width + x) == i
                    ==> !(p.x <= x < p.x + p.width && p.y <= y < p.y + p.height)
                    && !(c.x <= x < c.x + c.width && c.y <= y < c.y + c.height))
                    ==> drawn[i] == pixels[i]
        }),
{
    reveal_with_fuel(paint_blocks, 3);
    let p = blocks[0];
    let c = blocks[1];
    let first = paint(pixels, block_shape(p), width, p.color);
    lemma_block_is_a_filled_box(pixels, p, width);
    lemma_block_is_a_filled_box(first, c, width);
    assert(paint_blocks(pixels, blocks, width, 1) == first);
    assert forall|i: int|
        0 <= i < pixels.len() && (exists|x: int, y: int| #[trigger] (y * width + x) == i
            && p.x <= x < p.x + p.width && p.y <= y < p.y + p.height)
            && (forall|x: int, y: int| #[trigger] (y * width + x) == i
            ==> !(c.x <= x < c.x + c.width && c.y <= y < c.y + c.height))
        implies paint_blocks(pixels, blocks, width, 2)[i] == p.color by {
        let (x, y) = choose|x: int, y: int| #[trigger] (y * width + x) == i
            && p.x <= x < p.x + p.width && p.y <= y < p.y + p.height;
        assert(first[y * width + x] == p.color);
    }
}

} // verus!
