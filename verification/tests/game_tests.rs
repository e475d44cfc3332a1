use efi_pong::game::{
    ai_update_paddle, input_from_keys, play_frame, pong_result_byte, update_ball, update_paddle, AIState,
    Ball, Game, GameState, InputState,
};
use efi_pong::screen::Screen;

fn screen() -> Screen {
    Screen::new(800, 600)
}

fn game_with_ball(x: isize, y: isize, vx: isize, vy: isize) -> Game {
    let mut game = Game::new(800, 600);
    game.ball = Ball { x, y, vx, vy, radius: 10, color: 0x00ffffff };
    game
}

#[test]
fn new_game_places_paddles_and_ball() {
    let game = Game::new(800, 600);
    assert_eq!(game.game_state, GameState::Running);
    assert_eq!((game.blocks[0].x, game.blocks[0].y, game.blocks[0].prev_y), (0, 300, 300));
    assert_eq!((game.blocks[0].width, game.blocks[0].height, game.blocks[0].color), (15, 150, 0x00ffffff));
    assert_eq!((game.blocks[1].x, game.blocks[1].y, game.blocks[1].prev_y), (785, 300, 300));
    assert_eq!((game.ball.x, game.ball.y, game.ball.vx, game.ball.vy, game.ball.radius), (400, 300, 10, 4, 10));
}

#[test]
fn new_game_on_odd_sizes_rounds_down() {
    let game = Game::new(801, 601);
    assert_eq!(game.blocks[0].y, 300);
    assert_eq!(game.ball.x, 400);
    assert_eq!(game.blocks[1].x, 786);
}

#[test]
fn ball_moves_freely() {
    let s = screen();
    let mut game = Game::new(800, 600);
    update_ball(&s, &mut game);
    assert_eq!((game.ball.x, game.ball.y, game.ball.vx, game.ball.vy), (410, 304, 10, 4));
    assert_eq!(game.game_state, GameState::Running);
}

#[test]
fn ball_bounces_off_top_edge() {
    let s = screen();
    let mut game = game_with_ball(400, 5, 10, -4);
    update_ball(&s, &mut game);
    assert_eq!((game.ball.x, game.ball.y, game.ball.vx, game.ball.vy), (410, 1, 10, 4));
}

#[test]
fn ball_bounces_off_bottom_edge() {
    let s = screen();
    let mut game = game_with_ball(400, 585, 10, 6);
    update_ball(&s, &mut game);
    assert_eq!((game.ball.y, game.ball.vy), (591, -6));
}

#[test]
fn ball_bounces_off_paddle_and_takes_its_speed() {
    let s = screen();
    let mut game = game_with_ball(20, 350, -10, 0);
    game.blocks[0].prev_y = 330;
    update_ball(&s, &mut game);
    assert_eq!((game.ball.x, game.ball.vx, game.ball.vy), (10, 10, -6));
    assert_eq!(game.blocks[0].y, 300);
}

#[test]
fn paddle_speed_division_rounds_toward_zero() {
    let s = screen();
    let mut game = game_with_ball(20, 350, -10, 0);
    game.blocks[0].prev_y = 307;
    update_ball(&s, &mut game);
    assert_eq!(game.ball.vy, -1);
}

#[test]
fn vertical_speed_is_held_to_ten() {
    let s = screen();
    let mut game = game_with_ball(20, 350, -10, 0);
    game.blocks[0].prev_y = 400;
    update_ball(&s, &mut game);
    assert_eq!(game.ball.vy, -10);
    let mut game = game_with_ball(20, 350, -10, 8);
    game.blocks[0].prev_y = 200;
    update_ball(&s, &mut game);
    assert_eq!(game.ball.vy, 10);
}

#[test]
fn ball_leaving_left_loses() {
    let s = screen();
    let mut game = game_with_ball(-5, 100, -10, 0);
    update_ball(&s, &mut game);
    assert_eq!(game.ball.x, -15);
    assert_eq!(game.game_state, GameState::Lost);
}

#[test]
fn ball_touching_left_edge_still_runs() {
    let s = screen();
    let mut game = game_with_ball(5, 100, -10, 0);
    update_ball(&s, &mut game);
    assert_eq!(game.game_state, GameState::Running);
}

#[test]
fn ball_leaving_right_wins() {
    let s = screen();
    let mut game = game_with_ball(805, 100, 10, 0);
    update_ball(&s, &mut game);
    assert_eq!(game.ball.x, 815);
    assert_eq!(game.game_state, GameState::Won);
}

#[test]
fn player_paddle_moves_by_keys() {
    let s = screen();
    let mut game = Game::new(800, 600);
    update_paddle(&mut game, &s, &InputState { w: true, s: false });
    assert_eq!((game.blocks[0].y, game.blocks[0].prev_y), (270, 300));
    update_paddle(&mut game, &s, &InputState { w: false, s: true });
    assert_eq!((game.blocks[0].y, game.blocks[0].prev_y), (300, 270));
    update_paddle(&mut game, &s, &InputState { w: false, s: false });
    assert_eq!((game.blocks[0].y, game.blocks[0].prev_y), (300, 300));
    update_paddle(&mut game, &s, &InputState { w: true, s: true });
    assert_eq!(game.blocks[0].y, 270);
}

#[test]
fn player_paddle_stops_at_bottom() {
    let s = screen();
    let mut game = Game::new(800, 600);
    game.blocks[0].y = 440;
    update_paddle(&mut game, &s, &InputState { w: false, s: true });
    assert_eq!(game.blocks[0].y, 450);
}

#[test]
fn player_paddle_can_pass_the_top() {
    let s = screen();
    let mut game = Game::new(800, 600);
    game.blocks[0].y = 10;
    update_paddle(&mut game, &s, &InputState { w: true, s: false });
    assert_eq!(game.blocks[0].y, -20);
    game.blocks[0].y = isize::MIN + 5;
    update_paddle(&mut game, &s, &InputState { w: true, s: false });
    assert_eq!(game.blocks[0].y, isize::MIN);
}

#[test]
fn computer_waits_out_its_cooldown() {
    let s = screen();
    let mut game = Game::new(800, 600);
    let mut ai = AIState { cooldown: 2 };
    game.blocks[1].prev_y = 7;
    ai_update_paddle(&mut game, &s, &mut ai);
    assert_eq!(ai.cooldown, 1);
    assert_eq!((game.blocks[1].y, game.blocks[1].prev_y), (300, 300));
}

#[test]
fn computer_follows_player_when_not_tracking() {
    let s = screen();
    let mut game = game_with_ball(400, 300, -10, 4);
    game.blocks[0].y = 100;
    let mut ai = AIState { cooldown: 0 };
    ai_update_paddle(&mut game, &s, &mut ai);
    assert_eq!((game.blocks[1].y, game.blocks[1].prev_y), (290, 300));
    assert_eq!(ai.cooldown, 3);
}

#[test]
fn computer_stays_within_dead_zone() {
    let s = screen();
    let mut game = game_with_ball(400, 300, -10, 4);
    game.blocks[0].y = 280;
    let mut ai = AIState { cooldown: 0 };
    ai_update_paddle(&mut game, &s, &mut ai);
    assert_eq!(game.blocks[1].y, 300);
    assert_eq!(ai.cooldown, 3);
}

#[test]
fn computer_tracks_ball_up() {
    let s = screen();
    let mut game = game_with_ball(500, 300, 10, 4);
    let mut ai = AIState { cooldown: 0 };
    ai_update_paddle(&mut game, &s, &mut ai);
    assert_eq!(game.blocks[1].y, 284);
    assert_eq!(ai.cooldown, 2);
}

#[test]
fn computer_tracks_ball_down() {
    let s = screen();
    let mut game = game_with_ball(500, 500, 10, 10);
    let mut ai = AIState { cooldown: 0 };
    ai_update_paddle(&mut game, &s, &mut ai);
    assert_eq!(game.blocks[1].y, 316);
    assert_eq!(ai.cooldown, 2);
}

#[test]
fn computer_paddle_stops_at_bottom() {
    let s = screen();
    let mut game = game_with_ball(400, 300, -10, 0);
    game.blocks[0].y = 500;
    game.blocks[1].y = 445;
    let mut ai = AIState { cooldown: 0 };
    ai_update_paddle(&mut game, &s, &mut ai);
    assert_eq!(game.blocks[1].y, 450);
    assert_eq!(ai.cooldown, 3);
}

#[test]
fn computer_does_not_track_ball_on_its_own_half() {
    let s = screen();
    let mut game = game_with_ball(400, 500, 10, 10);
    let mut ai = AIState { cooldown: 0 };
    ai_update_paddle(&mut game, &s, &mut ai);
    // not past the middle: it follows the player's paddle, level with its own
    assert_eq!(game.blocks[1].y, 300);
    assert_eq!(ai.cooldown, 3);
}

#[test]
fn frame_runs_all_three_moves() {
    let s = screen();
    let mut game = Game::new(800, 600);
    let mut ai = AIState { cooldown: 2 };
    let running = play_frame(&mut game, &s, &InputState { w: true, s: false }, &mut ai);
    assert_eq!(running, Some(true));
    assert_eq!(game.blocks[0].y, 270);
    assert_eq!(ai.cooldown, 1);
    assert_eq!((game.ball.x, game.ball.y), (410, 304));
}

#[test]
fn frame_reports_end_of_match() {
    let s = screen();
    let mut game = game_with_ball(805, 100, 10, 0);
    let mut ai = AIState { cooldown: 1 };
    let running = play_frame(&mut game, &s, &InputState { w: false, s: false }, &mut ai);
    assert_eq!(running, Some(false));
    assert_eq!(game.game_state, GameState::Won);
}

#[test]
fn frame_refuses_overflow_and_changes_nothing() {
    let s = screen();
    // the ball meets a paddle while its speed cannot be reversed
    let mut game = game_with_ball(50, 350, isize::MIN, 0);
    game.blocks[0].x = isize::MIN;
    game.blocks[0].width = 100;
    let mut ai = AIState { cooldown: 1 };
    let running = play_frame(&mut game, &s, &InputState { w: true, s: false }, &mut ai);
    assert_eq!(running, None);
    assert_eq!(game.blocks[0].y, 300);
    assert_eq!(game.ball.x, 50);
    assert_eq!(ai.cooldown, 1);

    // the same speed is fine when the ball meets no paddle
    let mut game = game_with_ball(50, 350, isize::MIN, 0);
    let running = play_frame(&mut game, &s, &InputState { w: false, s: false }, &mut ai);
    assert_eq!(running, Some(false));
    assert_eq!(game.ball.vx, isize::MIN);
    assert_eq!(game.game_state, GameState::Lost);

    let mut game = game_with_ball(isize::MAX - 5, 350, 10, 0);
    assert_eq!(play_frame(&mut game, &s, &InputState { w: false, s: false }, &mut ai), None);

    let mut game = Game::new(800, 600);
    game.blocks[0].y = isize::MAX - 10;
    let running = play_frame(&mut game, &s, &InputState { w: false, s: true }, &mut ai);
    assert_eq!(running, None);
}

#[test]
fn frame_refuses_empty_target_range() {
    // a screen lower than the computer's paddle leaves it nowhere to aim
    let s = Screen::new(800, 100);
    let mut game = Game::new(800, 100);
    game.ball.x = 500;
    let mut ai = AIState { cooldown: 0 };
    assert_eq!(play_frame(&mut game, &s, &InputState { w: false, s: false }, &mut ai), None);
}

#[test]
fn result_byte_reports_outcome() {
    assert_eq!(pong_result_byte(&GameState::Won), Some(1));
    assert_eq!(pong_result_byte(&GameState::Lost), Some(0));
    assert_eq!(pong_result_byte(&GameState::Running), None);
}

#[test]
fn keys_set_input() {
    let none = input_from_keys(&[]);
    assert!(!none.w && !none.s);
    let up = input_from_keys(&[0x77]);
    assert!(up.w && !up.s);
    let down = input_from_keys(&[0x41, 0x73]);
    assert!(!down.w && down.s);
    let both = input_from_keys(&[0x73, 0x77]);
    assert!(both.w && both.s);
    // only the low byte of the code unit is read
    let wide = input_from_keys(&[0x0177]);
    assert!(wide.w);
    let other = input_from_keys(&[0x57]);
    assert!(!other.w);
}

#[test]
fn law_vertical_speed_bounded_over_many_frames() {
    let s = screen();
    let mut game = Game::new(800, 600);
    let mut ai = AIState { cooldown: 2 };
    for i in 0..200 {
        let input = InputState { w: i % 3 == 0, s: i % 5 == 0 };
        match play_frame(&mut game, &s, &input, &mut ai) {
            Some(true) => {
                assert!(-10 <= game.ball.vy && game.ball.vy <= 10);
                assert_eq!(game.ball.vx.abs(), 10);
                assert!(game.blocks[1].y <= 450);
            }
            _ => break,
        }
    }
}

#[test]
fn law_paddle_moves_at_most_its_step() {
    let s = screen();
    let mut game = game_with_ball(500, 580, 10, 10);
    let mut ai = AIState { cooldown: 0 };
    let before = game.blocks[1].y;
    ai_update_paddle(&mut game, &s, &mut ai);
    assert!((game.blocks[1].y - before).abs() <= 16);
    let before = game.blocks[0].y;
    update_paddle(&mut game, &s, &InputState { w: false, s: true });
    assert!((game.blocks[0].y - before).abs() <= 30);
}

