//! The paddle.

use vstd::prelude::*;
use crate::geometry::{max, min, Rect};
use crate::units::{
    Screen, ONE, PLAYER_HEIGHT, PLAYER_LIVES, PLAYER_RISE, PLAYER_SPEED, PLAYER_WIDTH,
};

verus! {

/// The paddle: a rectangle of fixed size that moves along the x axis, and
/// the lives that are left.
#[derive(Clone, Copy, Debug, PartialEq, Eq, Structural)]
pub struct Player {
    pub rect: Rect,
    pub lives: i32,
}

/// The direction that the two steering keys ask for: `-1` for left, `1`
/// for right, `0` where both or neither are held.
pub open spec fn steer(left: bool, right: bool) -> int {
    if left && !right {
        -1
    } else if right && !left {
        1
    } else {
        0
    }
}

impl Player {
    /// The paddle has its fixed size, lies in the field and has between
    /// zero and three lives.
    pub open spec fn wf(self) -> bool {
        &&& self.rect.in_field()
        &&& self.rect.w == PLAYER_WIDTH
        &&& self.rect.h == PLAYER_HEIGHT
        &&& 0 <= self.lives <= PLAYER_LIVES
    }

    /// A new paddle: centred on the x axis, its top edge `PLAYER_RISE`
    /// above the bottom of the screen, with three lives.
    pub open spec fn fresh(screen: Screen) -> Player {
        Player {
            rect: Rect {
                x: (screen.width / 2 - PLAYER_WIDTH / 2) as i64,
                y: (screen.height - PLAYER_RISE) as i64,
                w: PLAYER_WIDTH,
                h: PLAYER_HEIGHT,
            },
            lives: PLAYER_LIVES,
        }
    }

    /// The paddle after `dt` microseconds with the given keys held: moved
    /// at `PLAYER_SPEED` in the direction asked for, then brought back to
    /// the screen. Where the screen is narrower than the paddle, the right
    /// edge of the screen wins.
    pub open spec fn moved(self, left: bool, right: bool, dt: u32, screen: Screen) -> Player {
        let free = self.rect.x + steer(left, right) * (dt * (PLAYER_SPEED * ONE));
        let x = min(max(free, 0), screen.width - self.rect.w);
        Player { rect: Rect { x: x as i64, ..self.rect }, ..self }
    }

    /// A new paddle for the given screen.
    pub fn new(screen: Screen) -> (player: Player)
        requires
            screen.wf(),
        ensures
            player == Player::fresh(screen),
            player.wf(),
            player.rect.x == screen.width / 2 - PLAYER_WIDTH / 2,
            player.rect.y == screen.height - PLAYER_RISE,
    {
        Player {
            lives: PLAYER_LIVES,
            rect: Rect::new(
                screen.width / 2 - PLAYER_WIDTH / 2,
                screen.height - PLAYER_RISE,
                PLAYER_WIDTH,
                PLAYER_HEIGHT,
            ),
        }
    }

    /// Moves the paddle for a frame of `dt` microseconds. Only the x
    /// coordinate changes. On a screen that is at least as wide as the
    /// paddle, the paddle ends up wholly on the screen.
    pub fn update(&mut self, left: bool, right: bool, dt: u32, screen: Screen)
        requires
            old(self).wf(),
            screen.wf(),
        ensures
            *final(self) == old(self).moved(left, right, dt, screen),
            final(self).wf(),
            final(self).rect.x == min(
                max(old(self).rect.x + steer(left, right) * (dt * (PLAYER_SPEED * ONE)), 0),
                screen.width - PLAYER_WIDTH,
            ),
            screen.width >= PLAYER_WIDTH ==> 0 <= final(self).rect.x <= screen.width
                - PLAYER_WIDTH,
    {
        assert(0 <= dt * (PLAYER_SPEED * ONE) <= 0xffff_ffff * 700_000) by (nonlinear_arith)
            requires
                PLAYER_SPEED * ONE == 700_000,
                0 <= dt <= 0xffff_ffff,
        ;
        let step: i64 = (dt as i64) * (PLAYER_SPEED * ONE);
        let ghost dir = steer(left, right);
        assert(dir * (dt * (PLAYER_SPEED * ONE)) == (if dir == 1 {
            step as int
        } else if dir == -1 {
            -step
        } else {
            0
        })) by (nonlinear_arith)
            requires
                dir == 1 || dir == -1 || dir == 0,
                step == dt * (PLAYER_SPEED * ONE),
        ;
        if left && !right {
            self.rect.x = self.rect.x - step;
        } else if right && !left {
            self.rect.x = self.rect.x + step;
        }
        if self.rect.x < 0 {
            self.rect.x = 0;
        }
        if self.rect.x > screen.width - self.rect.w {
            self.rect.x = screen.width - self.rect.w;
        }
    }
}

/// However the keys are held and however long the frame lasts, a paddle on
/// a screen that is at least as wide as itself stays wholly on the screen.
pub proof fn law_player_stays_on_screen(
    player: Player,
    left: bool,
    right: bool,
    dt: u32,
    screen: Screen,
)
    requires
        player.wf(),
        screen.wf(),
        screen.width >= PLAYER_WIDTH,
    ensures
        0 <= player.moved(left, right, dt, screen).rect.x <= screen.width - PLAYER_WIDTH,
        player.moved(left, right, dt, screen).rect.y == player.rect.y,
        player.moved(left, right, dt, screen).lives == player.lives,
{
}

} // verus!
