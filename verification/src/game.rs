//! The game: its state, its entities and the steps of a frame.

use vstd::prelude::*;
use crate::ball::{is_unit, random_tilt, Ball};
use crate::block::Block;
use crate::geometry::Vec2;
use crate::player::Player;
use crate::sweep::{
    is_on_screen, is_standing, keep_on_screen, keep_standing, law_strikes_keep,
    lemma_all_standing, standing, strike_blocks, Pass,
};
use crate::units::{
    Screen, BALL_SIZE, BLOCK_SCORE, GRID_BLOCKS, GRID_COLUMNS, GRID_PITCH_X, GRID_PITCH_Y,
    GRID_TOP, GRID_WIDTH, TILT_ONE,
};

verus! {

/// The state of a session.
#[derive(Clone, Copy, Debug, PartialEq, Eq, Structural)]
pub enum GameState {
    /// Waiting for the start key.
    Menu,
    /// The simulation runs.
    Playing,
    /// Every block is destroyed.
    LevelCompleted,
    /// The last life is lost.
    Dead,
}

/// The keys of one frame: whether left and right are held, and whether the
/// space key went down in this frame.
#[derive(Clone, Copy, Debug, PartialEq, Eq, Structural)]
pub struct Keys {
    pub left: bool,
    pub right: bool,
    pub space: bool,
}

/// A session of the game: the score, the state, the paddle, the blocks
/// that stand and the balls in play, each in the order in which they were
/// added.
#[derive(Clone, Debug, PartialEq, Eq)]
pub struct Game {
    pub score: i32,
    pub state: GameState,
    pub player: Player,
    pub blocks: Vec<Block>,
    pub balls: Vec<Ball>,
}

/// The mathematical value of a session.
pub struct GameModel {
    pub score: int,
    pub state: GameState,
    pub player: Player,
    pub blocks: Seq<Block>,
    pub balls: Seq<Ball>,
}

impl View for Game {
    type V = GameModel;

    open spec fn view(&self) -> GameModel {
        GameModel {
            score: self.score as int,
            state: self.state,
            player: self.player,
            blocks: self.blocks@,
            balls: self.balls@,
        }
    }
}

/// The corner of the block with index `i` in the grid. Blocks are counted
/// row by row from the top left; the grid is centred on the x axis.
pub open spec fn grid_corner(screen: Screen, i: int) -> Vec2 {
    Vec2 {
        x: ((screen.width - GRID_WIDTH) / 2 + (i % (GRID_COLUMNS as int)) * GRID_PITCH_X) as i64,
        y: (GRID_TOP + (i / (GRID_COLUMNS as int)) * GRID_PITCH_Y) as i64,
    }
}

/// The blocks of a new grid.
pub open spec fn grid(screen: Screen) -> Seq<Block> {
    Seq::new(GRID_BLOCKS as nat, |i: int| Block::at(grid_corner(screen, i)))
}

/// Every ball of `balls` after a frame of `dt` microseconds.
pub open spec fn all_moved(balls: Seq<Ball>, dt: u32, screen: Screen) -> Seq<Ball> {
    Seq::new(balls.len(), |i: int| balls[i].moved(dt, screen))
}

impl GameModel {
    /// Between frames the paddle, every block and every ball are
    /// well-formed, every block stands, the score is not negative and
    /// leaves room for the points of the blocks that stand, and only a
    /// session that is over has a paddle without lives.
    pub open spec fn wf(self) -> bool {
        &&& self.player.wf()
        &&& forall|i: int| 0 <= i < self.blocks.len() ==> (#[trigger] self.blocks[i]).wf()
        &&& forall|i: int| 0 <= i < self.balls.len() ==> (#[trigger] self.balls[i]).wf()
        &&& 0 <= self.score
        &&& self.score + BLOCK_SCORE * self.blocks.len() <= i32::MAX
        &&& (self.state == GameState::Menu || self.state == GameState::Playing)
            ==> self.player.lives > 0
    }

    /// A new session: the menu, no score, a new paddle, no blocks and no
    /// balls.
    pub open spec fn fresh(screen: Screen) -> GameModel {
        GameModel {
            score: 0,
            state: GameState::Menu,
            player: Player::fresh(screen),
            blocks: Seq::empty(),
            balls: Seq::empty(),
        }
    }

    /// The session with a new grid of blocks behind the blocks it has.
    pub open spec fn with_grid(self, screen: Screen) -> GameModel {
        GameModel { blocks: self.blocks + grid(screen), ..self }
    }

    /// The session with one more ball, launched from the middle of the
    /// screen with the given tilt.
    pub open spec fn with_ball(self, screen: Screen, tilt: int) -> GameModel {
        GameModel {
            balls: self.balls.push(
                Ball::launched(
                    Vec2 { x: (screen.width / 2) as i64, y: (screen.height / 2) as i64 },
                    tilt,
                ),
            ),
            ..self
        }
    }

    /// The session after a reset: the menu, no score, a new paddle, a new
    /// grid and no balls.
    pub open spec fn restarted(screen: Screen) -> GameModel {
        GameModel::fresh(screen).with_grid(screen)
    }

    /// The session after the paddle's move.
    pub open spec fn player_moved(self, left: bool, right: bool, dt: u32, screen: Screen) -> GameModel {
        GameModel { player: self.player.moved(left, right, dt, screen), ..self }
    }

    /// The session after every ball's move.
    pub open spec fn balls_moved(self, dt: u32, screen: Screen) -> GameModel {
        GameModel { balls: all_moved(self.balls, dt, screen), ..self }
    }

    /// In the middle of a frame the paddle and every ball are well-formed,
    /// every block is sound, though it may have lost its last life, and
    /// the score is not negative and leaves room for the points of the
    /// blocks that stand.
    pub open spec fn sound(self) -> bool {
        &&& self.player.wf()
        &&& forall|i: int| 0 <= i < self.blocks.len() ==> (#[trigger] self.blocks[i]).sound()
        &&& forall|i: int| 0 <= i < self.balls.len() ==> (#[trigger] self.balls[i]).wf()
        &&& 0 <= self.score
        &&& self.score + BLOCK_SCORE * standing(self.blocks) <= i32::MAX
    }

    /// The session after ball `i` has bounced off the paddle, where the
    /// two meet, and then passed over the blocks in their order.
    pub open spec fn ball_pass(self, i: int) -> GameModel {
        let end = (Pass {
            ball: self.balls[i].bounced(self.player.rect),
            blocks: self.blocks,
            score: self.score,
        }).strikes(self.blocks.len());
        GameModel {
            balls: self.balls.update(i, end.ball),
            blocks: end.blocks,
            score: end.score,
            ..self
        }
    }

    /// The session after the first `n` balls have made their pass, one
    /// after the other.
    pub open spec fn passes(self, n: nat) -> GameModel
        decreases n,
    {
        if n == 0 {
            self
        } else {
            self.passes((n - 1) as nat).ball_pass(n - 1)
        }
    }

    /// The session after every ball has made its pass.
    pub open spec fn collided(self) -> GameModel {
        self.passes(self.balls.len())
    }

    /// The only ball of the session has fallen below the screen.
    pub open spec fn loses_last_ball(self, screen: Screen) -> bool {
        self.balls.len() == 1 && self.balls.filter(is_on_screen(screen)).len() == 0
    }

    /// The session after the clean-up that ends a frame. Balls below the
    /// screen are removed; where that was the only ball, the paddle loses
    /// a life. Blocks without lives are removed. The session is completed
    /// where no block is left; otherwise it is lost where the paddle has
    /// just lost its last life.
    pub open spec fn settled(self, screen: Screen) -> GameModel {
        let lives = if self.loses_last_ball(screen) {
            self.player.lives - 1
        } else {
            self.player.lives as int
        };
        let blocks = self.blocks.filter(is_standing());
        GameModel {
            score: self.score,
            state: if blocks.len() == 0 {
                GameState::LevelCompleted
            } else if self.loses_last_ball(screen) && lives <= 0 {
                GameState::Dead
            } else {
                self.state
            },
            player: Player { lives: lives as i32, ..self.player },
            blocks,
            balls: self.balls.filter(is_on_screen(screen)),
        }
    }

    /// The session after one frame of `dt` microseconds with the given
    /// keys. In the menu the space key starts the play. During play the
    /// space key launches a ball with the given tilt; then the paddle
    /// moves, the balls move, the collisions are resolved and the frame is
    /// settled. Once the session is completed or lost, the space key
    /// resets it.
    pub open spec fn frame(self, keys: Keys, dt: u32, screen: Screen, tilt: int) -> GameModel {
        match self.state {
            GameState::Menu => if keys.space {
                GameModel { state: GameState::Playing, ..self }
            } else {
                self
            },
            GameState::Playing => {
                let launched = if keys.space { self.with_ball(screen, tilt) } else { self };
                launched
                    .player_moved(keys.left, keys.right, dt, screen)
                    .balls_moved(dt, screen)
                    .collided()
                    .settled(screen)
            },
            GameState::LevelCompleted | GameState::Dead => if keys.space {
                GameModel::restarted(screen)
            } else {
                self
            },
        }
    }
}

impl Game {
    /// The session is well-formed between frames.
    pub open spec fn wf(&self) -> bool {
        self@.wf()
    }

    /// A new session in the menu, without blocks or balls.
    pub fn new(screen: Screen) -> (game: Game)
        requires
            screen.wf(),
        ensures
            game@ == GameModel::fresh(screen),
            game.wf(),
    {
        Game {
            score: 0,
            state: GameState::Menu,
            player: Player::new(screen),
            blocks: Vec::new(),
            balls: Vec::new(),
        }
    }

    /// Returns to the menu with no score, a new paddle with three lives, a
    /// new grid of blocks and no balls.
    pub fn reset(&mut self, screen: Screen)
        requires
            screen.wf(),
        ensures
            final(self)@ == GameModel::restarted(screen),
            final(self).wf(),
    {
        self.state = GameState::Menu;
        self.score = 0;
        self.player = Player::new(screen);
        self.balls = Vec::new();
        self.blocks.clear();
        self.init_blocks(screen);
        assert(self@.blocks =~= GameModel::restarted(screen).blocks);
    }

    /// Adds a grid of six rows of six blocks, centred on the x axis.
    pub fn init_blocks(&mut self, screen: Screen)
        requires
            old(self).wf(),
            screen.wf(),
            old(self).score + BLOCK_SCORE * (old(self).blocks.len() + GRID_BLOCKS) <= i32::MAX,
        ensures
            final(self)@ == old(self)@.with_grid(screen),
            final(self).wf(),
    {
        let start_x: i64 = screen.width / 2 - GRID_WIDTH / 2;
        let ghost before = self.blocks@;
        let mut i: usize = 0;
        while i < GRID_BLOCKS
            invariant
                screen.wf(),
                0 <= i <= GRID_BLOCKS,
                start_x == (screen.width - GRID_WIDTH) / 2,
                self.blocks@ == before + grid(screen).take(i as int),
                self.score == old(self).score,
                self.state == old(self).state,
                self.player == old(self).player,
                self.balls == old(self).balls,
                forall|k: int| 0 <= k < self.blocks.len() ==> (#[trigger] self.blocks[k]).wf(),
            decreases GRID_BLOCKS - i,
        {
            let column: i64 = (i % GRID_COLUMNS) as i64;
            let row: i64 = (i / GRID_COLUMNS) as i64;
            assert(0 <= column * GRID_PITCH_X <= 5 * 105_000_000_000) by (nonlinear_arith)
                requires
                    0 <= column <= 5,
                    GRID_PITCH_X == 105_000_000_000,
            ;
            assert(0 <= row * GRID_PITCH_Y <= 5 * 45_000_000_000) by (nonlinear_arith)
                requires
                    0 <= row <= 5,
                    GRID_PITCH_Y == 45_000_000_000,
            ;
            let corner = Vec2 { x: start_x + column * GRID_PITCH_X, y: GRID_TOP + row * GRID_PITCH_Y };
            assert(corner == grid_corner(screen, i as int));
            self.blocks.push(Block::new(corner));
            assert(grid(screen).take(i + 1) =~= grid(screen).take(i as int).push(
                Block::at(corner),
            ));
            assert(self.blocks@ =~= before + grid(screen).take(i + 1));
            i += 1;
        }
        assert(grid(screen).take(GRID_BLOCKS as int) =~= grid(screen));
    }

    /// Adds a ball at the middle of the screen, heading down at unit speed
    /// with a tilt drawn at random.
    pub fn init_ball(&mut self, screen: Screen)
        requires
            old(self).wf(),
            screen.wf(),
        ensures
            exists|tilt: int|
                -TILT_ONE <= tilt <= TILT_ONE && final(self)@ == #[trigger] old(self)@.with_ball(
                    screen,
                    tilt,
                ),
            final(self).wf(),
            final(self).balls@.len() == old(self).balls@.len() + 1,
            final(self).balls@.drop_last() == old(self).balls@,
            final(self).balls@.last().rect.x == screen.width / 2,
            final(self).balls@.last().rect.y == screen.height / 2,
            final(self).balls@.last().rect.w == BALL_SIZE,
            final(self).balls@.last().rect.h == BALL_SIZE,
            final(self).balls@.last().vel.y > 0,
            is_unit(final(self).balls@.last().vel),
    {
        let centre = Vec2 { x: screen.width / 2, y: screen.height / 2 };
        let ball = Ball::new(centre);
        let ghost tilt = choose|tilt: int|
            -TILT_ONE <= tilt <= TILT_ONE && ball == Ball::launched(centre, tilt);
        self.balls.push(ball);
        assert(self@ == old(self)@.with_ball(screen, tilt));
        assert(self.balls@.drop_last() =~= old(self).balls@);
    }

    /// Adds a ball at the middle of the screen, heading down with the
    /// given tilt, in millionths.
    pub fn launch_ball(&mut self, screen: Screen, tilt: i64)
        requires
            old(self).wf(),
            screen.wf(),
            -TILT_ONE <= tilt <= TILT_ONE,
        ensures
            final(self)@ == old(self)@.with_ball(screen, tilt as int),
            final(self).wf(),
    {
        let ball = Ball::launch(Vec2 { x: screen.width / 2, y: screen.height / 2 }, tilt);
        self.balls.push(ball);
    }

    /// Moves the paddle for a frame of `dt` microseconds.
    pub fn update_player(&mut self, left: bool, right: bool, dt: u32, screen: Screen)
        requires
            old(self).wf(),
            screen.wf(),
        ensures
            final(self)@ == old(self)@.player_moved(left, right, dt, screen),
            final(self).wf(),
    {
        self.player.update(left, right, dt, screen);
    }

    /// Moves every ball for a frame of `dt` microseconds.
    pub fn update_balls(&mut self, dt: u32, screen: Screen)
        requires
            old(self).wf(),
            screen.wf(),
        ensures
            final(self)@ == old(self)@.balls_moved(dt, screen),
            final(self).wf(),
    {
        let mut i: usize = 0;
        while i < self.balls.len()
            invariant
                screen.wf(),
                0 <= i <= self.balls.len(),
                self.balls.len() == old(self).balls.len(),
                forall|k: int| 0 <= k < i ==> self.balls[k] == old(self).balls[k].moved(dt, screen),
                forall|k: int| i <= k < self.balls.len() ==> self.balls[k] == old(self).balls[k],
                forall|k: int| 0 <= k < self.balls.len() ==> (#[trigger] self.balls[k]).wf(),
                self.score == old(self).score,
                self.state == old(self).state,
                self.player == old(self).player,
                self.blocks == old(self).blocks,
            decreases self.balls.len() - i,
        {
            let mut ball = self.balls[i];
            ball.update(dt, screen);
            self.balls.set(i, ball);
            i += 1;
        }
        assert(self.balls@ =~= all_moved(old(self).balls@, dt, screen));
    }

    /// Resolves the collisions of a frame and settles it. Every ball in
    /// turn bounces off the paddle and then passes over the blocks. After
    /// that, balls below the screen are removed, which costs a life where
    /// the only ball is lost, and blocks without lives are removed. The
    /// session is completed where no block is left, and lost where the
    /// last life is gone and blocks are left.
    pub fn check_collision(&mut self, screen: Screen)
        requires
            old(self).wf(),
            screen.wf(),
            old(self).state == GameState::Playing,
        ensures
            final(self)@ == old(self)@.collided().settled(screen),
            final(self).wf(),
            final(self).blocks.len() <= old(self).blocks.len(),
            final(self).balls.len() <= old(self).balls.len(),
            final(self).score == old(self).score + BLOCK_SCORE * (old(self).blocks.len()
                - final(self).blocks.len()),
            final(self).blocks.len() == 0 <==> final(self).state == GameState::LevelCompleted,
            final(self).state == GameState::Dead <==> {
                &&& final(self).blocks.len() > 0
                &&& old(self).balls.len() == 1
                &&& final(self).balls.len() == 0
                &&& old(self).player.lives == 1
            },
            final(self).state != GameState::Menu,
            final(self).player.rect == old(self).player.rect,
            final(self).player.lives == old(self).player.lives - (if old(self).balls.len() == 1
                && final(self).balls.len() == 0 {
                1int
            } else {
                0int
            }),
    {
        let ghost start = self@;
        proof {
            lemma_all_standing(self.blocks@);
        }
        let mut i: usize = 0;
        while i < self.balls.len()
            invariant
                0 <= i <= self.balls.len(),
                self.balls.len() == start.balls.len(),
                self.blocks.len() == start.blocks.len(),
                self@ == start.passes(i as nat),
                self@.sound(),
                self.score + BLOCK_SCORE * standing(self.blocks@) == start.score + BLOCK_SCORE
                    * start.blocks.len(),
                self.state == start.state,
                self.player == start.player,
            decreases self.balls.len() - i,
        {
            let ghost before = self@;
            let mut ball = self.balls[i];
            ball.bounce(&self.player.rect);
            strike_blocks(&mut ball, &mut self.blocks, &mut self.score);
            self.balls.set(i, ball);
            assert(self@ == before.ball_pass(i as int));
            i += 1;
        }
        let ghost middle = self@;
        let count: usize = self.balls.len();
        let kept = keep_on_screen(&self.balls, screen);
        let removed: usize = count - kept.len();
        self.balls = kept;
        if removed > 0 && count == 1 {
            self.player.lives -= 1;
            if self.player.lives <= 0 {
                self.state = GameState::Dead;
            }
        }
        self.blocks = keep_standing(&self.blocks);
        if self.blocks.len() == 0 {
            self.state = GameState::LevelCompleted;
        }
        assert(self@ == middle.settled(screen));
    }

    /// Advances the session by one frame of `dt` microseconds, with the
    /// given tilt for a ball that the space key launches.
    pub fn frame_with(&mut self, keys: Keys, dt: u32, screen: Screen, tilt: i64)
        requires
            old(self).wf(),
            screen.wf(),
            -TILT_ONE <= tilt <= TILT_ONE,
        ensures
            final(self)@ == old(self)@.frame(keys, dt, screen, tilt as int),
            final(self).wf(),
    {
        match self.state {
            GameState::Menu => {
                if keys.space {
                    self.state = GameState::Playing;
                }
            },
            GameState::Playing => {
                if keys.space {
                    self.launch_ball(screen, tilt);
                }
                self.update_player(keys.left, keys.right, dt, screen);
                self.update_balls(dt, screen);
                self.check_collision(screen);
            },
            GameState::LevelCompleted => {
                if keys.space {
                    self.reset(screen);
                }
            },
            GameState::Dead => {
                if keys.space {
                    self.reset(screen);
                }
            },
        }
    }

    /// Whether a frame with these keys launches a ball: during play, when
    /// the space key went down.
    pub fn launches(&self, keys: Keys) -> (launches: bool)
        ensures
            launches == (self.state == GameState::Playing && keys.space),
    {
        match self.state {
            GameState::Playing => keys.space,
            _ => false,
        }
    }

    /// Advances the session by one frame of `dt` microseconds. A ball that
    /// the space key launches gets a tilt drawn at random; no number is
    /// drawn in a frame that launches none.
    pub fn frame(&mut self, keys: Keys, dt: u32, screen: Screen)
        requires
            old(self).wf(),
            screen.wf(),
        ensures
            exists|tilt: int|
                -TILT_ONE <= tilt <= TILT_ONE && final(self)@ == #[trigger] old(self)@.frame(
                    keys,
                    dt,
                    screen,
                    tilt,
                ),
            final(self).wf(),
    {
        let tilt: i64 = if self.launches(keys) {
            random_tilt()
        } else {
            0
        };
        self.frame_with(keys, dt, screen, tilt);
        assert(self@ == old(self)@.frame(keys, dt, screen, tilt as int));
    }
}

/// The passes of the balls change neither the state nor the paddle, and
/// they add or remove neither a ball nor a block: removal waits for the
/// end of the frame. No block moves, no block gains a life, and the score
/// does not fall.
pub proof fn law_passes_keep(game: GameModel, n: nat)
    requires
        n <= game.balls.len(),
    ensures
        game.passes(n).state == game.state,
        game.passes(n).player == game.player,
        game.passes(n).balls.len() == game.balls.len(),
        game.passes(n).blocks.len() == game.blocks.len(),
        game.passes(n).score >= game.score,
        forall|j: int|
            0 <= j < game.blocks.len() ==> {
                &&& (#[trigger] game.passes(n).blocks[j]).rect == game.blocks[j].rect
                &&& game.passes(n).blocks[j].lives <= game.blocks[j].lives
            },
        forall|i: int| n <= i < game.balls.len() ==> game.passes(n).balls[i] == game.balls[i],
    decreases n,
{
    if n > 0 {
        let before = game.passes((n - 1) as nat);
        law_passes_keep(game, (n - 1) as nat);
        let start = Pass {
            ball: before.balls[n - 1].bounced(before.player.rect),
            blocks: before.blocks,
            score: before.score,
        };
        law_strikes_keep(start, before.blocks.len());
    }
}

/// The states follow one another in a fixed order. The menu is left only
/// for the play, on the space key, and nothing else changes then. The play
/// ends only in the completed or the lost session. A session that is
/// completed or lost stays as it is until the space key resets it, which
/// leads to the menu: the play is never entered again directly.
pub proof fn law_state_order(game: GameModel, keys: Keys, dt: u32, screen: Screen, tilt: int)
    ensures
        game.state == GameState::Menu ==> game.frame(keys, dt, screen, tilt) == (if keys.space {
            GameModel { state: GameState::Playing, ..game }
        } else {
            game
        }),
        game.state == GameState::Playing ==> game.frame(keys, dt, screen, tilt).state
            != GameState::Menu,
        game.state == GameState::LevelCompleted || game.state == GameState::Dead ==> game.frame(
            keys,
            dt,
            screen,
            tilt,
        ) == (if keys.space {
            GameModel::restarted(screen)
        } else {
            game
        }),
        GameModel::restarted(screen).state == GameState::Menu,
{
    let moved = (if keys.space {
        game.with_ball(screen, tilt)
    } else {
        game
    }).player_moved(keys.left, keys.right, dt, screen).balls_moved(dt, screen);
    law_passes_keep(moved, moved.balls.len());
}

/// A reset gives the menu, no score, a new paddle with three lives, a new
/// grid of thirty-six blocks with two lives each, and no balls.
pub proof fn law_reset_is_fresh(screen: Screen)
    ensures
        GameModel::restarted(screen).state == GameState::Menu,
        GameModel::restarted(screen).score == 0,
        GameModel::restarted(screen).player == Player::fresh(screen),
        GameModel::restarted(screen).player.lives == 3,
        GameModel::restarted(screen).balls.len() == 0,
        GameModel::restarted(screen).blocks.len() == 36,
        forall|i: int|
            0 <= i < 36 ==> (#[trigger] GameModel::restarted(screen).blocks[i]) == Block::at(
                grid_corner(screen, i),
            ),
        forall|i: int| 0 <= i < 36 ==> (#[trigger] GameModel::restarted(screen).blocks[i]).lives == 2,
{
}

/// Losing the only ball costs one life, and the session is lost when that
/// was the last life and a block still stands. A ball is lost when it has
/// fallen to the bottom edge of the screen or below.
pub proof fn law_last_ball_lost(game: GameModel, screen: Screen)
    requires
        game.sound(),
        game.balls.len() == 1,
        game.balls[0].rect.y >= screen.height,
    ensures
        game.settled(screen).balls.len() == 0,
        game.settled(screen).player.lives == game.player.lives - 1,
        game.player.lives <= 1 && standing(game.blocks) > 0 ==> game.settled(screen).state
            == GameState::Dead,
        game.player.lives > 1 && standing(game.blocks) > 0 ==> game.settled(screen).state
            == game.state,
{
    reveal(Seq::filter);
    game.balls.drop_last().lemma_filter_len(is_on_screen(screen));
    assert(game.balls.last() == game.balls[0]);
    assert(!is_on_screen(screen)(game.balls.last()));
    assert(game.balls.filter(is_on_screen(screen)).len() == 0);
}

/// No life is lost while a ball is left on the screen, nor when several
/// balls are in play, whatever becomes of them: only the loss of a ball
/// that was alone counts.
pub proof fn law_lives_kept(game: GameModel, screen: Screen)
    requires
        game.sound(),
        game.balls.len() != 1 || game.balls[0].rect.y < screen.height,
    ensures
        game.settled(screen).player == game.player,
        game.settled(screen).state != GameState::Dead || game.state == GameState::Dead,
{
    reveal(Seq::filter);
    if game.balls.len() == 1 {
        assert(game.balls.last() == game.balls[0]);
        assert(is_on_screen(screen)(game.balls.last()));
        assert(game.balls.filter(is_on_screen(screen)).len() > 0);
    }
}

/// When no block stands at the end of a frame the session is completed,
/// whatever balls and lives are left; while a block stands it is not
/// completed by this frame.
pub proof fn law_last_block_completes(game: GameModel, screen: Screen)
    ensures
        standing(game.blocks) == 0 ==> game.settled(screen).state == GameState::LevelCompleted,
        standing(game.blocks) == 0 ==> game.settled(screen).blocks.len() == 0,
        standing(game.blocks) > 0 && game.state != GameState::LevelCompleted ==> game.settled(
            screen,
        ).state != GameState::LevelCompleted,
        game.settled(screen).score == game.score,
{
}

} // verus!
