//! The balls.

use vstd::prelude::*;
use crate::collision::{deflected, magnitude, pushed, resolve_collision};
use crate::geometry::{clamp_to_world, clamp_world, Rect, Vec2};
use crate::random::gen_range;
use crate::sqrt::{floor_sqrt, integer_sqrt, is_floor_sqrt, lemma_floor_sqrt_exists};
use crate::units::{Screen, BALL_SIZE, BALL_SPEED, ONE, TILT_ONE};

verus! {

/// A ball: a square of fixed size and its velocity, in thousandths of the
/// ball speed on each axis.
#[derive(Clone, Copy, Debug, PartialEq, Eq, Structural)]
pub struct Ball {
    pub rect: Rect,
    pub vel: Vec2,
}

/// The velocity of a new ball. The direction `(tilt, TILT_ONE)` is scaled
/// to length `ONE`: each component is multiplied by `ONE` and divided by
/// the length of the direction, which is rounded down, as is the magnitude
/// of each quotient.
pub open spec fn heading(tilt: int) -> Vec2 {
    let length = floor_sqrt(tilt * tilt + TILT_ONE * TILT_ONE);
    let across = (magnitude(tilt) * ONE) / length;
    Vec2 {
        x: (if tilt >= 0 { across } else { -across }) as i64,
        y: ((TILT_ONE * ONE) / length) as i64,
    }
}

/// The velocity has length `ONE` within rounding: its length lies between
/// `ONE - 2` and `ONE + 1`, both excluded.
pub open spec fn is_unit(vel: Vec2) -> bool {
    (ONE - 2) * (ONE - 2) < vel.x * vel.x + vel.y * vel.y < (ONE + 1) * (ONE + 1)
}

/// A tilt drawn at random between `-TILT_ONE` and `TILT_ONE`.
pub fn random_tilt() -> (tilt: i64)
    ensures
        -TILT_ONE <= tilt <= TILT_ONE,
{
    let bound: i32 = TILT_ONE as i32;
    gen_range(-bound, bound) as i64
}

/// The velocity of a new ball whose direction leans by `tilt` millionths
/// to the right. The ball heads down with unit speed.
pub fn aim(tilt: i64) -> (vel: Vec2)
    requires
        -TILT_ONE <= tilt <= TILT_ONE,
    ensures
        vel == heading(tilt as int),
        is_unit(vel),
        0 < vel.y <= ONE,
        -ONE <= vel.x <= ONE,
        tilt >= 0 ==> vel.x >= 0,
        tilt <= 0 ==> vel.x <= 0,
{
    let across: u64 = if tilt >= 0 { tilt as u64 } else { (-tilt) as u64 };
    assert(across * across <= 1_000_000_000_000) by (nonlinear_arith)
        requires
            0 <= across <= 1_000_000,
    ;
    assert(TILT_ONE * TILT_ONE == 1_000_000_000_000);
    assert(TILT_ONE * ONE == 1_000_000_000);
    assert(tilt * tilt == across * across) by (nonlinear_arith)
        requires
            across == tilt || across == -tilt,
    ;
    let square: u64 = across * across + 1_000_000_000_000;
    let length: u64 = integer_sqrt(square);
    proof {
        law_heading_has_unit_length(tilt as int);
        lemma_length_of_direction(tilt as int);
        assert(across * ONE == across * 1_000);
        assert((across * 1_000) / (length as int) <= 1_000) by (nonlinear_arith)
            requires
                0 <= across <= length,
                0 < length,
        ;
        assert(1_000_000_000int / (length as int) <= 1_000) by (nonlinear_arith)
            requires
                1_000_000 <= length,
        ;
    }
    let x: u64 = across * 1_000 / length;
    let y: u64 = 1_000_000_000 / length;
    Vec2 { x: if tilt >= 0 { x as i64 } else { -(x as i64) }, y: y as i64 }
}

impl Ball {
    /// The ball has its fixed size, lies in the world, and neither
    /// component of its velocity exceeds `ONE` in magnitude.
    pub open spec fn wf(self) -> bool {
        &&& self.rect.in_world()
        &&& self.rect.w == BALL_SIZE
        &&& self.rect.h == BALL_SIZE
        &&& -ONE <= self.vel.x <= ONE
        &&& -ONE <= self.vel.y <= ONE
    }

    /// A new ball with its corner at `pos`, heading down with the given
    /// tilt.
    pub open spec fn launched(pos: Vec2, tilt: int) -> Ball {
        Ball { rect: Rect { x: pos.x, y: pos.y, w: BALL_SIZE, h: BALL_SIZE }, vel: heading(tilt) }
    }

    /// The ball after `dt` microseconds: moved along its velocity at
    /// `BALL_SPEED`, stopped at the edge of the world, and then sent right
    /// with full speed where it has left the screen on the left, or sent
    /// left where it has left the screen on the right. Where both hold, on
    /// a screen narrower than the ball, it is sent left.
    pub open spec fn moved(self, dt: u32, screen: Screen) -> Ball {
        let x = clamp_world(self.rect.x + self.vel.x * dt * BALL_SPEED);
        let y = clamp_world(self.rect.y + self.vel.y * dt * BALL_SPEED);
        let vx = if x > screen.width - self.rect.w {
            -ONE
        } else if x < 0 {
            ONE as int
        } else {
            self.vel.x as int
        };
        Ball {
            rect: Rect { x: x as i64, y: y as i64, ..self.rect },
            vel: Vec2 { x: vx as i64, ..self.vel },
        }
    }

    /// The ball after it has bounced off the static rectangle `other`;
    /// the same ball where the two are apart.
    pub open spec fn bounced(self, other: Rect) -> Ball {
        Ball { rect: pushed(self.rect, other), vel: deflected(self.rect, self.vel, other) }
    }

    /// A new ball with its corner at `pos`, heading down with the given
    /// tilt, in millionths, at unit speed.
    pub fn launch(pos: Vec2, tilt: i64) -> (ball: Ball)
        requires
            pos.in_world(),
            -TILT_ONE <= tilt <= TILT_ONE,
        ensures
            ball == Ball::launched(pos, tilt as int),
            ball.wf(),
            ball.vel.y > 0,
            is_unit(ball.vel),
    {
        Ball { rect: Rect::new(pos.x, pos.y, BALL_SIZE, BALL_SIZE), vel: aim(tilt) }
    }

    /// A new ball with its corner at `pos`, heading down at unit speed
    /// with a tilt drawn at random between `-TILT_ONE` and `TILT_ONE`.
    pub fn new(pos: Vec2) -> (ball: Ball)
        requires
            pos.in_world(),
        ensures
            exists|tilt: int|
                -TILT_ONE <= tilt <= TILT_ONE && ball == Ball::launched(pos, tilt),
            ball.wf(),
            ball.vel.y > 0,
            is_unit(ball.vel),
            ball.rect == (Rect { x: pos.x, y: pos.y, w: BALL_SIZE, h: BALL_SIZE }),
    {
        let tilt: i64 = random_tilt();
        let ball = Ball::launch(pos, tilt);
        assert(ball == Ball::launched(pos, tilt as int));
        ball
    }

    /// Moves the ball for a frame of `dt` microseconds and turns it back
    /// towards the screen where it has crossed the left or the right edge.
    pub fn update(&mut self, dt: u32, screen: Screen)
        requires
            old(self).wf(),
            screen.wf(),
        ensures
            *final(self) == old(self).moved(dt, screen),
            final(self).wf(),
            final(self).rect.x == clamp_world(
                old(self).rect.x + old(self).vel.x * dt * BALL_SPEED,
            ),
            final(self).rect.y == clamp_world(
                old(self).rect.y + old(self).vel.y * dt * BALL_SPEED,
            ),
            final(self).rect.x > screen.width - BALL_SIZE ==> final(self).vel.x < 0,
            final(self).rect.x < 0 && screen.width >= BALL_SIZE ==> final(self).vel.x > 0,
    {
        proof {
            lemma_stride_bound(self.vel.x as int, dt as int);
            lemma_stride_bound(self.vel.y as int, dt as int);
        }
        let dx: i64 = self.vel.x * (dt as i64) * BALL_SPEED;
        let dy: i64 = self.vel.y * (dt as i64) * BALL_SPEED;
        self.rect.x = clamp_to_world(self.rect.x + dx);
        self.rect.y = clamp_to_world(self.rect.y + dy);
        if self.rect.x < 0 {
            self.vel.x = ONE;
        }
        if self.rect.x > screen.width - self.rect.w {
            self.vel.x = -ONE;
        }
    }
}

impl Ball {
    /// Bounces the ball off the static rectangle `other`. Returns whether
    /// the two met.
    pub fn bounce(&mut self, other: &Rect) -> (hit: bool)
        requires
            old(self).wf(),
            other.in_field(),
        ensures
            hit == old(self).rect.meets(*other),
            *final(self) == old(self).bounced(*other),
            final(self).wf(),
    {
        resolve_collision(&mut self.rect, &mut self.vel, other)
    }
}

/// The distance covered on one axis in a frame is bounded.
pub proof fn lemma_stride_bound(v: int, dt: int)
    requires
        -ONE <= v <= ONE,
        0 <= dt <= u32::MAX,
    ensures
        -1_000 * 0xffff_ffff <= v * dt <= 1_000 * 0xffff_ffff,
        -400_000 * 0xffff_ffff <= v * dt * BALL_SPEED <= 400_000 * 0xffff_ffff,
{
    assert(-1_000 * 0xffff_ffff <= v * dt <= 1_000 * 0xffff_ffff) by (nonlinear_arith)
        requires
            -1_000 <= v <= 1_000,
            0 <= dt <= 0xffff_ffff,
    ;
    assert(v * dt * BALL_SPEED == (v * dt) * 400);
}

/// The length of the direction `(tilt, TILT_ONE)`, rounded down, is at
/// least `TILT_ONE` and less than twice as much, and at least the magnitude
/// of the tilt.
pub proof fn lemma_length_of_direction(tilt: int)
    requires
        -TILT_ONE <= tilt <= TILT_ONE,
    ensures
        is_floor_sqrt(
            tilt * tilt + TILT_ONE * TILT_ONE,
            floor_sqrt(tilt * tilt + TILT_ONE * TILT_ONE),
        ),
        TILT_ONE <= floor_sqrt(tilt * tilt + TILT_ONE * TILT_ONE) < 2 * TILT_ONE,
        magnitude(tilt) <= floor_sqrt(tilt * tilt + TILT_ONE * TILT_ONE),
{
    let one: int = 1_000_000;
    let t = magnitude(tilt);
    let n = tilt * tilt + TILT_ONE * TILT_ONE;
    assert(tilt * tilt == t * t) by (nonlinear_arith)
        requires
            t == tilt || t == -tilt,
    ;
    assert(0 <= t * t <= one * one) by (nonlinear_arith)
        requires
            0 <= t <= one,
    ;
    assert(TILT_ONE * TILT_ONE == one * one);
    lemma_floor_sqrt_exists(n);
    let l = floor_sqrt(n);
    assert(one <= l) by (nonlinear_arith)
        requires
            0 <= l,
            one * one <= n,
            n < (l + 1) * (l + 1),
            one == 1_000_000,
    ;
    assert(l < 2 * one) by (nonlinear_arith)
        requires
            0 <= l,
            l * l <= n,
            n <= 2 * (one * one),
            one == 1_000_000,
    ;
}

/// The velocity of a new ball points down and has length `ONE` within
/// rounding.
pub proof fn law_heading_has_unit_length(tilt: int)
    requires
        -TILT_ONE <= tilt <= TILT_ONE,
    ensures
        heading(tilt).y > 0,
        is_unit(heading(tilt)),
{
    let s: int = 1_000;
    let one: int = 1_000_000;
    let t = magnitude(tilt);
    let n = tilt * tilt + TILT_ONE * TILT_ONE;
    lemma_length_of_direction(tilt);
    let l = floor_sqrt(n);
    assert(tilt * tilt == t * t) by (nonlinear_arith)
        requires
            t == tilt || t == -tilt,
    ;
    assert(TILT_ONE * TILT_ONE == one * one);
    assert(TILT_ONE * ONE == one * s);
    assert(n == t * t + one * one);
    let a = (t * s) / l;
    let b = (one * s) / l;
    assert(magnitude(tilt) * ONE == t * s);
    assert(0 <= t * s) by (nonlinear_arith)
        requires
            0 <= t,
            0 <= s,
    ;
    assert(0 <= a && a * l <= t * s < (a + 1) * l) by (nonlinear_arith)
        requires
            a == (t * s) / l,
            0 <= t * s,
            0 < l,
    ;
    assert(0 <= b && b * l <= one * s < (b + 1) * l) by (nonlinear_arith)
        requires
            b == (one * s) / l,
            0 <= one * s,
            0 < l,
    ;
    assert(t * s <= s * l) by (nonlinear_arith)
        requires
            0 <= t <= l,
            0 <= s,
    ;
    assert(a <= s) by (nonlinear_arith)
        requires
            a * l <= t * s,
            t * s <= s * l,
            0 < l,
            0 <= a,
    ;
    assert(one * s <= s * l) by (nonlinear_arith)
        requires
            0 <= one <= l,
            0 <= s,
    ;
    assert(b <= s) by (nonlinear_arith)
        requires
            b * l <= one * s,
            one * s <= s * l,
            0 < l,
            0 <= b,
    ;
    assert(b > 0) by (nonlinear_arith)
        requires
            one * s < (b + 1) * l,
            l < 2 * one,
            0 <= b,
            s == 1_000,
            0 < one,
    ;
    let v = heading(tilt);
    assert(v.y == b);
    assert(v.x == a || v.x == -a);
    assert(v.x * v.x == a * a) by (nonlinear_arith)
        requires
            v.x == a || v.x == -a,
    ;
    // From above: (a * l)^2 + (b * l)^2 <= s^2 * n < (s * (l + 1))^2 <= ((s + 1) * l)^2.
    assert((a * l) * (a * l) <= (t * s) * (t * s)) by (nonlinear_arith)
        requires
            0 <= a * l <= t * s,
    ;
    assert((b * l) * (b * l) <= (one * s) * (one * s)) by (nonlinear_arith)
        requires
            0 <= b * l <= one * s,
    ;
    assert((t * s) * (t * s) + (one * s) * (one * s) == (s * s) * n) by (nonlinear_arith)
        requires
            n == t * t + one * one,
    ;
    assert((a * a + b * b) * (l * l) == (a * l) * (a * l) + (b * l) * (b * l))
        by (nonlinear_arith);
    assert((s * s) * n < (s * s) * ((l + 1) * (l + 1))) by (nonlinear_arith)
        requires
            n < (l + 1) * (l + 1),
            0 < s,
    ;
    assert((s * s) * ((l + 1) * (l + 1)) <= ((s + 1) * (s + 1)) * (l * l)) by (nonlinear_arith)
        requires
            0 < s <= l,
    ;
    assert(a * a + b * b < (s + 1) * (s + 1)) by (nonlinear_arith)
        requires
            (a * a + b * b) * (l * l) < ((s + 1) * (s + 1)) * (l * l),
            0 < l,
    ;
    // From below: ((a + 1) * l)^2 + ((b + 1) * l)^2 > s^2 * n >= (s * l)^2.
    assert(((a + 1) * l) * ((a + 1) * l) >= (t * s) * (t * s)) by (nonlinear_arith)
        requires
            0 <= t * s < (a + 1) * l,
    ;
    assert(((b + 1) * l) * ((b + 1) * l) > (one * s) * (one * s)) by (nonlinear_arith)
        requires
            0 <= one * s < (b + 1) * l,
    ;
    assert((s * s) * n >= (s * s) * (l * l)) by (nonlinear_arith)
        requires
            l * l <= n,
            0 < s,
    ;
    assert(((a + 1) * (a + 1) + (b + 1) * (b + 1)) * (l * l) == ((a + 1) * l) * ((a + 1) * l) + ((b
        + 1) * l) * ((b + 1) * l)) by (nonlinear_arith);
    assert((a + 1) * (a + 1) + (b + 1) * (b + 1) > s * s) by (nonlinear_arith)
        requires
            ((a + 1) * (a + 1) + (b + 1) * (b + 1)) * (l * l) > (s * s) * (l * l),
            0 < l,
    ;
    // The two components together stay below 1416, since twice the sum of
    // their squares is less than 2 * 1001^2.
    assert((a + b) * (a + b) <= 2 * (a * a + b * b)) by (nonlinear_arith);
    assert(a + b < 1_416) by (nonlinear_arith)
        requires
            (a + b) * (a + b) < 2 * (1_001 * 1_001),
            0 <= a + b,
    ;
    assert((a + 1) * (a + 1) + (b + 1) * (b + 1) == a * a + b * b + 2 * (a + b) + 2)
        by (nonlinear_arith);
}

/// A ball that is left of the screen after its move heads right, and a
/// ball whose right edge is beyond the screen's after its move heads left,
/// on every screen that is at least as wide as the ball.
pub proof fn law_ball_turns_at_walls(ball: Ball, dt: u32, screen: Screen)
    requires
        ball.wf(),
        screen.wf(),
        screen.width >= BALL_SIZE,
    ensures
        ball.moved(dt, screen).rect.x < 0 ==> ball.moved(dt, screen).vel.x > 0,
        ball.moved(dt, screen).rect.x > screen.width - BALL_SIZE ==> ball.moved(dt, screen).vel.x
            < 0,
        0 <= ball.moved(dt, screen).rect.x <= screen.width - BALL_SIZE ==> ball.moved(
            dt,
            screen,
        ).vel.x == ball.vel.x,
        ball.moved(dt, screen).vel.y == ball.vel.y,
{
}

} // verus!
