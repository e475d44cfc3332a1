use efi_pong::game::{Ball, Block, Game};
use efi_pong::screen::{draw_ball, draw_blocks, fill_screen, Screen};

#[test]
fn new_screen_is_black() {
    let s = Screen::new(4, 3);
    assert_eq!(s.pixels, vec![0u32; 12]);
    assert_eq!((s.width, s.height), (4, 3));
}

#[test]
fn fill_paints_every_pixel() {
    let mut s = Screen::new(4, 3);
    fill_screen(&mut s, 0x000000ff);
    assert_eq!(s.pixels, vec![0x000000ffu32; 12]);
}

fn block(x: isize, y: isize, width: isize, height: isize, color: u32) -> Block {
    Block { x, y, prev_y: y, width, height, color }
}

#[test]
fn blocks_paint_their_boxes_in_order() {
    let mut s = Screen::new(4, 3);
    let mut game = Game::new(4, 3);
    game.blocks = [block(1, 1, 2, 1, 5), block(2, 1, 2, 2, 9)];
    draw_blocks(&mut s, &game);
    assert_eq!(s.pixels, vec![0, 0, 0, 0, 0, 5, 9, 9, 0, 0, 9, 9]);
}

#[test]
fn block_past_the_right_edge_wraps_to_next_row() {
    let mut s = Screen::new(4, 3);
    let mut game = Game::new(4, 3);
    game.blocks = [block(3, 0, 2, 1, 5), block(0, 5, 1, 1, 9)];
    draw_blocks(&mut s, &game);
    assert_eq!(s.pixels, vec![0, 0, 0, 5, 5, 0, 0, 0, 0, 0, 0, 0]);
}

#[test]
fn block_outside_the_framebuffer_paints_nothing() {
    let mut s = Screen::new(4, 3);
    let mut game = Game::new(4, 3);
    game.blocks = [block(0, -5, 4, 2, 5), block(0, 3, 4, 2, 9)];
    draw_blocks(&mut s, &game);
    assert_eq!(s.pixels, vec![0u32; 12]);
}

#[test]
fn ball_paints_a_disc() {
    let mut s = Screen::new(4, 3);
    let ball = Ball { x: 1, y: 1, vx: 0, vy: 0, radius: 1, color: 7 };
    draw_ball(&mut s, &ball);
    assert_eq!(s.pixels, vec![0, 7, 0, 0, 7, 7, 7, 0, 0, 7, 0, 0]);
}

#[test]
fn ball_of_radius_two_leaves_corners() {
    let mut s = Screen::new(5, 5);
    let ball = Ball { x: 2, y: 2, vx: 0, vy: 0, radius: 2, color: 1 };
    draw_ball(&mut s, &ball);
    assert_eq!(
        s.pixels,
        vec![
            0, 0, 1, 0, 0, //
            0, 1, 1, 1, 0, //
            1, 1, 1, 1, 1, //
            0, 1, 1, 1, 0, //
            0, 0, 1, 0, 0,
        ]
    );
}

#[test]
fn ball_of_negative_radius_paints_nothing() {
    let mut s = Screen::new(4, 3);
    let ball = Ball { x: 1, y: 1, vx: 0, vy: 0, radius: -1, color: 7 };
    draw_ball(&mut s, &ball);
    assert_eq!(s.pixels, vec![0u32; 12]);
}

#[test]
fn law_frame_holds_only_drawn_colors() {
    let mut s = Screen::new(40, 30);
    let mut game = Game::new(40, 30);
    game.blocks[0].color = 0x00ff0000;
    game.blocks[1].color = 0x0000ff00;
    game.ball = Ball { x: 20, y: 15, vx: 0, vy: 0, radius: 4, color: 0x00ffffff };
    fill_screen(&mut s, 0x000000ff);
    draw_blocks(&mut s, &game);
    draw_ball(&mut s, &game.ball);
    assert_eq!(s.pixels.len(), 1200);
    assert!(s
        .pixels
        .iter()
        .all(|&p| p == 0x000000ff || p == 0x00ff0000 || p == 0x0000ff00 || p == 0x00ffffff));
    assert!(s.pixels.contains(&0x00ff0000));
    assert!(s.pixels.contains(&0x0000ff00));
    assert_eq!(s.pixels[15 * 40 + 20], 0x00ffffff);
}
