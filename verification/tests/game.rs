use breakout::ball::Ball;
use breakout::block::Block;
use breakout::game::{Game, GameState, Keys};
use breakout::geometry::{Rect, Vec2};
use breakout::player::Player;
use breakout::sweep::{keep_on_screen, keep_standing, strike_blocks};
use breakout::units::{Screen, BALL_SIZE, ONE, TILT_ONE, UNITS_PER_PIXEL};

const PX: i64 = UNITS_PER_PIXEL;
const IDLE: Keys = Keys { left: false, right: false, space: false };
const SPACE: Keys = Keys { left: false, right: false, space: true };

fn screen() -> Screen {
    Screen { width: 800 * PX, height: 600 * PX }
}

fn ball_at(x: i64, y: i64, vx: i64, vy: i64) -> Ball {
    Ball { rect: Rect::new(x * PX, y * PX, BALL_SIZE, BALL_SIZE), vel: Vec2 { x: vx, y: vy } }
}

fn block_at(x: i64, y: i64, lives: i32) -> Block {
    Block { lives, ..Block::new(Vec2 { x: x * PX, y: y * PX }) }
}

/// A session in play with the given blocks and balls.
fn playing(blocks: Vec<Block>, balls: Vec<Ball>) -> Game {
    Game { score: 0, state: GameState::Playing, player: Player::new(screen()), blocks, balls }
}

/// A session as it stands when the program starts: the menu, the grid and
/// one ball.
fn started() -> Game {
    let mut game = Game::new(screen());
    game.init_blocks(screen());
    game.init_ball(screen());
    game
}

#[test]
fn new_game_waits_in_the_menu() {
    let game = Game::new(screen());
    assert_eq!(game.state, GameState::Menu);
    assert_eq!(game.score, 0);
    assert_eq!(game.player, Player::new(screen()));
    assert!(game.blocks.is_empty());
    assert!(game.balls.is_empty());
}

#[test]
fn grid_has_six_rows_of_six_blocks() {
    let mut game = Game::new(screen());
    game.init_blocks(screen());
    assert_eq!(game.blocks.len(), 36);
    // (800 - 6 * 105) / 2 = 85.
    assert_eq!(game.blocks[0], block_at(85, 50, 2));
    assert_eq!(game.blocks[1], block_at(190, 50, 2));
    assert_eq!(game.blocks[5], block_at(610, 50, 2));
    assert_eq!(game.blocks[6], block_at(85, 95, 2));
    assert_eq!(game.blocks[7], block_at(190, 95, 2));
    assert_eq!(game.blocks[35], block_at(610, 275, 2));
    for (i, block) in game.blocks.iter().enumerate() {
        let column = (i % 6) as i64;
        let row = (i / 6) as i64;
        assert_eq!(*block, block_at(85 + 105 * column, 50 + 45 * row, 2));
    }
}

#[test]
fn grid_is_centred_on_a_narrow_screen_too() {
    let narrow = Screen { width: 101 * PX + 1, height: 600 * PX };
    let mut game = Game::new(narrow);
    game.init_blocks(narrow);
    // (101 px + 1 - 630 px) / 2, rounded down.
    assert_eq!(game.blocks[0].rect.x, -264_500_000_000);
    assert_eq!(game.blocks[35].rect.x, -264_500_000_000 + 525 * PX);
}

#[test]
fn second_grid_is_added_behind_the_first() {
    let mut game = Game::new(screen());
    game.init_blocks(screen());
    game.init_blocks(screen());
    assert_eq!(game.blocks.len(), 72);
    assert_eq!(game.blocks[36], game.blocks[0]);
    assert_eq!(game.blocks[71], game.blocks[35]);
}

#[test]
fn launched_ball_starts_at_the_middle_of_the_screen() {
    let mut game = Game::new(screen());
    game.launch_ball(screen(), -600_000);
    assert_eq!(game.balls, vec![ball_at(400, 300, -514, 857)]);
    game.launch_ball(screen(), 0);
    assert_eq!(game.balls, vec![ball_at(400, 300, -514, 857), ball_at(400, 300, 0, 1_000)]);
}

#[test]
fn start_from_the_menu() {
    let mut game = started();
    assert_eq!(game.state, GameState::Menu);
    game.frame(SPACE, 16_667, screen());
    assert_eq!(game.state, GameState::Playing);
    assert_eq!(game.score, 0);
    assert_eq!(game.player.lives, 3);
    assert_eq!(game.blocks.len(), 36);
    assert_eq!(game.balls.len(), 1);
    let ball = game.balls[0];
    assert_eq!(ball.rect, Rect::new(400 * PX, 300 * PX, 50 * PX, 50 * PX));
    assert!(ball.vel.y > 0);
    let square = ball.vel.x * ball.vel.x + ball.vel.y * ball.vel.y;
    assert!(998 * 998 <= square && square <= 1_001 * 1_001);
}

#[test]
fn menu_waits_for_the_space_key() {
    let mut game = started();
    let before = game.clone();
    game.frame(IDLE, 16_667, screen());
    assert_eq!(game, before);
    game.frame(Keys { left: true, right: false, space: false }, 16_667, screen());
    assert_eq!(game, before);
}

#[test]
fn reset_from_dead() {
    let mut game = playing(vec![block_at(85, 50, 1)], vec![]);
    game.state = GameState::Dead;
    game.score = 350;
    game.player.lives = 0;
    game.player.rect.x = 0;
    game.frame(SPACE, 16_667, screen());
    assert_eq!(game.state, GameState::Menu);
    assert_eq!(game.score, 0);
    assert_eq!(game.player, Player::new(screen()));
    assert_eq!(game.player.lives, 3);
    assert_eq!(game.balls.len(), 0);
    assert_eq!(game.blocks.len(), 36);
    let mut fresh = Game::new(screen());
    fresh.init_blocks(screen());
    assert_eq!(game, fresh);
}

#[test]
fn reset_from_level_completed() {
    let mut game = playing(vec![], vec![ball_at(400, 300, 0, 1_000), ball_at(10, 10, 600, 800)]);
    game.state = GameState::LevelCompleted;
    game.score = 360;
    game.player.lives = 2;
    game.frame(SPACE, 16_667, screen());
    assert_eq!(game.state, GameState::Menu);
    assert_eq!(game.score, 0);
    assert_eq!(game.player.lives, 3);
    assert_eq!(game.balls.len(), 0);
    assert_eq!(game.blocks.len(), 36);
    assert!(game.blocks.iter().all(|block| block.lives == 2));
}

#[test]
fn reset_method_gives_a_fresh_session() {
    let mut game = playing(vec![block_at(85, 50, 1)], vec![ball_at(400, 300, 0, 1_000)]);
    game.score = 20;
    game.player.lives = 1;
    game.reset(screen());
    let mut fresh = Game::new(screen());
    fresh.init_blocks(screen());
    assert_eq!(game, fresh);
}

#[test]
fn ended_session_waits_for_the_space_key() {
    for state in [GameState::Dead, GameState::LevelCompleted] {
        let mut game = playing(vec![block_at(85, 50, 1)], vec![]);
        game.state = state;
        game.score = 350;
        game.player.lives = 0;
        let before = game.clone();
        game.frame(Keys { left: true, right: true, space: false }, 16_667, screen());
        assert_eq!(game, before);
    }
}

#[test]
fn after_a_reset_the_play_starts_without_a_ball() {
    let mut game = playing(vec![block_at(85, 50, 1)], vec![]);
    game.state = GameState::Dead;
    game.player.lives = 0;
    game.frame(SPACE, 16_667, screen());
    assert_eq!(game.state, GameState::Menu);
    game.frame(SPACE, 16_667, screen());
    assert_eq!(game.state, GameState::Playing);
    assert_eq!(game.balls.len(), 0);
    game.frame(SPACE, 16_667, screen());
    assert_eq!(game.state, GameState::Playing);
    assert_eq!(game.balls.len(), 1);
    assert_eq!(game.player.lives, 3);
}

#[test]
fn block_takes_two_hits() {
    let hit = ball_at(100, 90, 300, 954);
    let mut game = playing(vec![block_at(80, 130, 2), block_at(600, 50, 2)], vec![hit]);
    game.check_collision(screen());
    assert_eq!(game.blocks, vec![block_at(80, 130, 1), block_at(600, 50, 2)]);
    assert_eq!(game.score, 0);
    assert_eq!(game.balls, vec![ball_at(100, 80, 300, -954)]);
    assert_eq!(game.state, GameState::Playing);
    game.balls[0] = hit;
    game.check_collision(screen());
    assert_eq!(game.blocks, vec![block_at(600, 50, 2)]);
    assert_eq!(game.score, 10);
    assert_eq!(game.balls, vec![ball_at(100, 80, 300, -954)]);
    assert_eq!(game.state, GameState::Playing);
}

#[test]
fn block_that_is_missed_keeps_its_lives() {
    let mut game = playing(vec![block_at(80, 130, 2)], vec![ball_at(400, 300, 300, 954)]);
    let before = game.clone();
    game.check_collision(screen());
    assert_eq!(game, before);
}

#[test]
fn destroying_the_last_block_completes_the_level() {
    let mut game = playing(
        vec![block_at(80, 130, 1)],
        vec![ball_at(100, 90, 300, 954), ball_at(400, 300, 0, 1_000)],
    );
    game.player.lives = 1;
    game.check_collision(screen());
    assert_eq!(game.state, GameState::LevelCompleted);
    assert!(game.blocks.is_empty());
    assert_eq!(game.score, 10);
    assert_eq!(game.balls.len(), 2);
    assert_eq!(game.player.lives, 1);
}

#[test]
fn level_without_blocks_is_completed_at_once() {
    let mut game = playing(vec![], vec![ball_at(400, 300, 0, 1_000)]);
    game.frame(IDLE, 16_667, screen());
    assert_eq!(game.state, GameState::LevelCompleted);
    assert_eq!(game.score, 0);
}

#[test]
fn completing_the_level_outweighs_losing_the_last_life() {
    // The only ball destroys the last block and is below the screen after
    // the bounce: the life is lost, and still the level is completed.
    let mut game = playing(vec![block_at(80, 590, 1)], vec![ball_at(100, 620, 0, -1_000)]);
    game.player.lives = 1;
    game.check_collision(screen());
    assert_eq!(game.balls.len(), 0);
    assert_eq!(game.player.lives, 0);
    assert!(game.blocks.is_empty());
    assert_eq!(game.score, 10);
    assert_eq!(game.state, GameState::LevelCompleted);
}

#[test]
fn losing_the_only_ball_costs_a_life() {
    let mut game = playing(vec![block_at(85, 50, 2)], vec![ball_at(400, 600, 0, 1_000)]);
    game.check_collision(screen());
    assert_eq!(game.balls.len(), 0);
    assert_eq!(game.player.lives, 2);
    assert_eq!(game.state, GameState::Playing);
    assert_eq!(game.score, 0);
    assert_eq!(game.blocks, vec![block_at(85, 50, 2)]);
}

#[test]
fn losing_the_last_life_ends_the_session() {
    let mut game = playing(vec![block_at(85, 50, 2)], vec![ball_at(400, 700, 0, 1_000)]);
    game.player.lives = 1;
    game.check_collision(screen());
    assert_eq!(game.balls.len(), 0);
    assert_eq!(game.player.lives, 0);
    assert_eq!(game.state, GameState::Dead);
}

#[test]
fn ball_just_above_the_bottom_edge_stays() {
    let ball = Ball {
        rect: Rect::new(400 * PX, 600 * PX - 1, BALL_SIZE, BALL_SIZE),
        vel: Vec2 { x: 0, y: 1_000 },
    };
    let mut game = playing(vec![block_at(85, 50, 2)], vec![ball]);
    game.check_collision(screen());
    assert_eq!(game.balls, vec![ball]);
    assert_eq!(game.player.lives, 3);
}

#[test]
fn losing_two_balls_at_once_costs_no_life() {
    let mut game = playing(
        vec![block_at(85, 50, 2)],
        vec![ball_at(400, 600, 0, 1_000), ball_at(100, 650, 0, 1_000)],
    );
    game.check_collision(screen());
    assert_eq!(game.balls.len(), 0);
    assert_eq!(game.player.lives, 3);
    assert_eq!(game.state, GameState::Playing);
}

#[test]
fn losing_one_of_two_balls_costs_no_life() {
    let stays = ball_at(100, 300, 0, 1_000);
    let mut game = playing(vec![block_at(85, 50, 2)], vec![ball_at(400, 600, 0, 1_000), stays]);
    game.player.lives = 1;
    game.check_collision(screen());
    assert_eq!(game.balls, vec![stays]);
    assert_eq!(game.player.lives, 1);
    assert_eq!(game.state, GameState::Playing);
}

#[test]
fn without_balls_no_life_is_lost() {
    let mut game = playing(vec![block_at(85, 50, 2)], vec![]);
    let before = game.clone();
    game.frame(IDLE, 16_667, screen());
    assert_eq!(game, before);
}

#[test]
fn ball_bounces_off_the_player() {
    // The paddle spans x 325..475, y 500..540.
    let mut game = playing(vec![block_at(85, 50, 2)], vec![ball_at(350, 460, 600, 800)]);
    game.check_collision(screen());
    assert_eq!(game.balls, vec![ball_at(350, 450, 600, -800)]);
    assert_eq!(game.player, Player::new(screen()));
    assert_eq!(game.score, 0);
}

#[test]
fn block_without_lives_is_passed_over_by_the_next_ball() {
    // Both balls overlap the block, which has one life. The first takes it
    // and scores; the second meets no standing block and flies on.
    let first = ball_at(100, 90, 300, 954);
    let second = ball_at(110, 95, -300, 954);
    let mut game = playing(vec![block_at(80, 130, 1), block_at(600, 50, 2)], vec![first, second]);
    game.check_collision(screen());
    assert_eq!(game.score, 10);
    assert_eq!(game.blocks, vec![block_at(600, 50, 2)]);
    assert_eq!(game.balls, vec![ball_at(100, 80, 300, -954), second]);
}

#[test]
fn two_balls_hit_the_same_block_in_one_frame() {
    let first = ball_at(100, 90, 300, 954);
    let second = ball_at(110, 95, -300, 954);
    let mut game = playing(vec![block_at(80, 130, 2), block_at(600, 50, 2)], vec![first, second]);
    game.check_collision(screen());
    assert_eq!(game.score, 10);
    assert_eq!(game.blocks, vec![block_at(600, 50, 2)]);
    assert_eq!(game.balls, vec![ball_at(100, 80, 300, -954), ball_at(110, 80, -300, -954)]);
}

#[test]
fn one_ball_hits_blocks_in_their_order() {
    // The ball overlaps two neighbouring blocks. It bounces off the first
    // on y, which frees it from the second.
    let mut game = playing(
        vec![block_at(85, 130, 2), block_at(190, 130, 2), block_at(600, 50, 2)],
        vec![ball_at(150, 90, 300, 954)],
    );
    game.check_collision(screen());
    // First block: shared 35 wide, 10 tall: bounce on y, up by 10. After
    // that the ball's bottom edge lies on the second block's top edge,
    // 10 wide and 0 tall: bounce on y by nothing.
    assert_eq!(game.blocks, vec![block_at(85, 130, 1), block_at(190, 130, 1), block_at(600, 50, 2)]);
    assert_eq!(game.balls, vec![ball_at(150, 80, 300, -954)]);
    assert_eq!(game.score, 0);
}

#[test]
fn strike_blocks_scores_only_the_last_life() {
    let mut ball = ball_at(100, 90, 300, 954);
    let mut blocks = vec![block_at(80, 130, 1), block_at(600, 50, 2), block_at(400, 400, 0)];
    let mut score = 40;
    strike_blocks(&mut ball, &mut blocks, &mut score);
    assert_eq!(ball, ball_at(100, 80, 300, -954));
    assert_eq!(blocks, vec![block_at(80, 130, 0), block_at(600, 50, 2), block_at(400, 400, 0)]);
    assert_eq!(score, 50);
}

#[test]
fn keep_on_screen_keeps_the_order() {
    let a = ball_at(10, 10, 0, 1_000);
    let b = ball_at(10, 600, 0, 1_000);
    let c = ball_at(20, 599, 0, 1_000);
    let d = ball_at(20, -5_000, 0, -1_000);
    assert_eq!(keep_on_screen(&vec![a, b, c, d], screen()), vec![a, c, d]);
    assert_eq!(keep_on_screen(&vec![b], screen()), vec![]);
    assert_eq!(keep_on_screen(&vec![], screen()), vec![]);
}

#[test]
fn keep_standing_keeps_the_order() {
    let blocks = vec![block_at(0, 0, 2), block_at(1, 0, 0), block_at(2, 0, 1), block_at(3, 0, 0)];
    assert_eq!(keep_standing(&blocks), vec![block_at(0, 0, 2), block_at(2, 0, 1)]);
    assert_eq!(keep_standing(&vec![]), vec![]);
}

#[test]
fn update_player_moves_only_the_player() {
    let mut game = started();
    let before = game.clone();
    game.update_player(false, true, 10_000, screen());
    assert_eq!(game.player.rect.x, 332 * PX);
    assert_eq!(game.player.rect.y, before.player.rect.y);
    assert_eq!(game.blocks, before.blocks);
    assert_eq!(game.balls, before.balls);
    assert_eq!(game.state, before.state);
}

#[test]
fn update_balls_moves_every_ball() {
    let mut game = playing(
        vec![block_at(85, 50, 2)],
        vec![ball_at(400, 300, 600, 800), ball_at(0, 300, -1_000, 0), ball_at(750, 10, 1_000, -1)],
    );
    game.update_balls(1_000, screen());
    assert_eq!(game.balls[0].rect.x, 400 * PX + 240_000_000);
    assert_eq!(game.balls[0].rect.y, 300 * PX + 320_000_000);
    assert_eq!(game.balls[0].vel, Vec2 { x: 600, y: 800 });
    assert_eq!(game.balls[1].rect.x, -400_000_000);
    assert_eq!(game.balls[1].vel, Vec2 { x: 1_000, y: 0 });
    assert_eq!(game.balls[2].rect.x, 750 * PX + 400_000_000);
    assert_eq!(game.balls[2].rect.y, 10 * PX - 400_000);
    assert_eq!(game.balls[2].vel, Vec2 { x: -1_000, y: -1 });
    assert_eq!(game.blocks, vec![block_at(85, 50, 2)]);
}

#[test]
fn frame_in_play_moves_player_and_balls() {
    let mut game = playing(vec![block_at(85, 50, 2)], vec![ball_at(400, 300, 600, 800)]);
    game.frame(Keys { left: true, right: false, space: false }, 10_000, screen());
    assert_eq!(game.player.rect.x, 318 * PX);
    assert_eq!(game.balls.len(), 1);
    assert_eq!(game.balls[0].rect.x, 400 * PX + 2_400_000_000);
    assert_eq!(game.balls[0].rect.y, 300 * PX + 3_200_000_000);
    assert_eq!(game.state, GameState::Playing);
}

#[test]
fn space_in_play_launches_a_ball_that_moves_in_the_same_frame() {
    let mut game = playing(vec![block_at(85, 50, 2)], vec![]);
    game.frame_with(SPACE, 10_000, screen(), 0);
    assert_eq!(game.balls.len(), 1);
    assert_eq!(game.balls[0].rect.x, 400 * PX);
    assert_eq!(game.balls[0].rect.y, 304 * PX);
    assert_eq!(game.balls[0].vel, Vec2 { x: 0, y: 1_000 });
    game.frame(SPACE, 0, screen());
    assert_eq!(game.balls.len(), 2);
    assert_eq!(game.balls[1].rect, Rect::new(400 * PX, 300 * PX, BALL_SIZE, BALL_SIZE));
    assert!(game.balls[1].vel.y > 0);
    assert!(game.balls[1].vel.x.abs() <= ONE);
}

#[test]
fn frame_with_follows_the_states() {
    let mut game = started();
    game.frame_with(SPACE, 16_667, screen(), 500_000);
    assert_eq!(game.state, GameState::Playing);
    assert_eq!(game.balls.len(), 1);
    game.state = GameState::Dead;
    game.frame_with(SPACE, 16_667, screen(), 500_000);
    assert_eq!(game.state, GameState::Menu);
    assert_eq!(game.balls.len(), 0);
}

#[test]
fn only_space_in_play_launches() {
    let mut game = started();
    assert!(!game.launches(SPACE));
    assert!(!game.launches(IDLE));
    game.state = GameState::Playing;
    assert!(game.launches(SPACE));
    assert!(!game.launches(IDLE));
    assert!(!game.launches(Keys { left: true, right: true, space: false }));
    game.state = GameState::Dead;
    assert!(!game.launches(SPACE));
    game.state = GameState::LevelCompleted;
    assert!(!game.launches(SPACE));
}

#[test]
fn init_ball_draws_different_headings() {
    let mut game = Game::new(screen());
    for _ in 0..32 {
        game.init_ball(screen());
    }
    assert_eq!(game.balls.len(), 32);
    assert!(game.balls.iter().all(|ball| ball.rect == Rect::new(400 * PX, 300 * PX, BALL_SIZE, BALL_SIZE)));
    assert!(game.balls.iter().all(|ball| ball.vel.y > 0));
    assert!(game.balls.iter().any(|ball| ball.vel != game.balls[0].vel));
}

#[test]
fn a_whole_game_can_be_lost() {
    // Nobody steers. Every ball is launched down and to the right, past
    // the paddle, so that each costs a life.
    let mut game = Game::new(screen());
    game.init_blocks(screen());
    game.frame(SPACE, 16_667, screen());
    assert_eq!(game.state, GameState::Playing);
    let mut frames = 0;
    let mut launched = 0;
    while game.state == GameState::Playing && frames < 10_000 {
        let keys = if game.balls.is_empty() { SPACE } else { IDLE };
        if game.launches(keys) {
            launched += 1;
        }
        game.frame_with(keys, 16_667, screen(), TILT_ONE);
        assert_eq!(game.player.lives, 3 - (launched - game.balls.len() as i32));
        assert!(game.blocks.iter().all(|block| block.lives == 1 || block.lives == 2));
        assert_eq!(game.score as usize, 10 * (36 - game.blocks.len()));
        frames += 1;
    }
    assert_eq!(game.state, GameState::Dead);
    assert_eq!(launched, 3);
    assert_eq!(game.player.lives, 0);
    assert!(game.balls.is_empty());
    // Each ball started inside a block of the bottom row and hit it once.
    assert_eq!(game.score, 10);
    assert_eq!(game.blocks.len(), 35);
}
