//! The collision resolver: how a moving rectangle bounces off a static one.
//!
//! Where the two rectangles meet, the shared rectangle decides the bounce
//! axis: if it is wider than tall the moving rectangle bounces on the y
//! axis, otherwise on the x axis. On that axis the moving rectangle is
//! pushed by the extent of the shared rectangle, away from the centre of
//! the static one, and its velocity component is turned to point away from
//! that centre with its magnitude kept.
//!
//! Where the two centres agree on the bounce axis the static centre counts
//! as lying on the positive side: `sign(0)` is `1`, so the moving rectangle
//! is pushed up or to the left.

use vstd::prelude::*;
use crate::geometry::{Rect, Vec2};

verus! {

/// The sign of an integer, with zero counted as positive.
pub open spec fn sign(d: int) -> int {
    if d >= 0 { 1 } else { -1 }
}

/// The absolute value of an integer.
pub open spec fn magnitude(v: int) -> int {
    if v >= 0 { v } else { -v }
}

/// The side of `a` on which the centre of `b` lies, on the x axis.
pub open spec fn side_x(a: Rect, b: Rect) -> int {
    sign(b.centre2_x() - a.centre2_x())
}

/// The side of `a` on which the centre of `b` lies, on the y axis.
pub open spec fn side_y(a: Rect, b: Rect) -> int {
    sign(b.centre2_y() - a.centre2_y())
}

/// The rectangle shared by `a` and `b` is wider than tall, so that `a`
/// bounces on the y axis.
pub open spec fn bounces_on_y(a: Rect, b: Rect) -> bool {
    a.overlap_w(b) > a.overlap_h(b)
}

/// The distance or speed `amount`, pointing away from the given side:
/// `-side * amount` for a side of `1` or `-1`.
pub open spec fn away_from(side: int, amount: int) -> int {
    if side >= 0 { -amount } else { amount }
}

/// Where `a` lies after it has been pushed out of `b`.
pub open spec fn pushed(a: Rect, b: Rect) -> Rect {
    if !a.meets(b) {
        a
    } else if bounces_on_y(a, b) {
        Rect { y: (a.y + away_from(side_y(a, b), a.overlap_h(b))) as i64, ..a }
    } else {
        Rect { x: (a.x + away_from(side_x(a, b), a.overlap_w(b))) as i64, ..a }
    }
}

/// The velocity of `a` after it has bounced off `b`.
pub open spec fn deflected(a: Rect, vel: Vec2, b: Rect) -> Vec2 {
    if !a.meets(b) {
        vel
    } else if bounces_on_y(a, b) {
        Vec2 { y: away_from(side_y(a, b), magnitude(vel.y as int)) as i64, ..vel }
    } else {
        Vec2 { x: away_from(side_x(a, b), magnitude(vel.x as int)) as i64, ..vel }
    }
}

/// The sign of `d`, with zero counted as positive.
pub fn signum(d: i64) -> (s: i64)
    ensures
        s == sign(d as int),
{
    if d >= 0 { 1 } else { -1 }
}

/// The absolute value of `v`.
pub fn abs(v: i64) -> (m: i64)
    requires
        v > i64::MIN,
    ensures
        m == magnitude(v as int),
{
    if v >= 0 { v } else { -v }
}

/// Bounces the moving rectangle `a`, which has velocity `vel`, off the
/// static rectangle `b`. Returns whether the two met; where they did not,
/// nothing changes.
pub fn resolve_collision(a: &mut Rect, vel: &mut Vec2, b: &Rect) -> (hit: bool)
    requires
        old(a).in_world(),
        b.in_field(),
        old(vel).x > i64::MIN,
        old(vel).y > i64::MIN,
    ensures
        hit == old(a).meets(*b),
        *final(a) == pushed(*old(a), *b),
        *final(vel) == deflected(*old(a), *old(vel), *b),
        final(a).in_world(),
        final(a).w == old(a).w && final(a).h == old(a).h,
        magnitude(final(vel).x as int) == magnitude(old(vel).x as int),
        magnitude(final(vel).y as int) == magnitude(old(vel).y as int),
{
    let shared: Rect = match a.intersect(*b) {
        Some(shared) => shared,
        None => {
            return false;
        },
    };
    let to_x: i64 = (2 * b.x + b.w) - (2 * a.x + a.w);
    let to_y: i64 = (2 * b.y + b.h) - (2 * a.y + a.h);
    let sx: i64 = signum(to_x);
    let sy: i64 = signum(to_y);
    if shared.w > shared.h {
        let m: i64 = abs(vel.y);
        assert(sy * shared.h == (if sy == 1 { shared.h as int } else { -shared.h })) by (nonlinear_arith)
            requires sy == 1 || sy == -1;
        assert(-sy * m == (if sy == 1 { -m } else { m as int })) by (nonlinear_arith)
            requires sy == 1 || sy == -1;
        a.y = a.y - sy * shared.h;
        vel.y = -sy * m;
    } else {
        let m: i64 = abs(vel.x);
        assert(sx * shared.w == (if sx == 1 { shared.w as int } else { -shared.w })) by (nonlinear_arith)
            requires sx == 1 || sx == -1;
        assert(-sx * m == (if sx == 1 { -m } else { m as int })) by (nonlinear_arith)
            requires sx == 1 || sx == -1;
        a.x = a.x - sx * shared.w;
        vel.x = -sx * m;
    }
    true
}

/// A bounce on the y axis moves the rectangle by exactly the height of the
/// shared rectangle, away from the centre of the static one, and leaves the
/// velocity pointing away from that centre: its y component becomes the
/// old magnitude with the sign opposite to the side on which the static
/// centre lies. A velocity that pointed towards that centre is thereby
/// reversed; one that already pointed away is kept. Nothing else changes.
pub proof fn law_bounce_on_y(a: Rect, vel: Vec2, b: Rect)
    requires
        a.in_world(),
        b.in_field(),
        vel.y > i64::MIN,
        a.meets(b),
        a.overlap_w(b) > a.overlap_h(b),
    ensures
        pushed(a, b).y == a.y - side_y(a, b) * a.overlap_h(b),
        magnitude(pushed(a, b).y - a.y) == a.overlap_h(b),
        pushed(a, b).x == a.x && pushed(a, b).w == a.w && pushed(a, b).h == a.h,
        deflected(a, vel, b).y == -side_y(a, b) * magnitude(vel.y as int),
        deflected(a, vel, b).x == vel.x,
        vel.y != 0 ==> sign(deflected(a, vel, b).y as int) == -side_y(a, b),
        vel.y != 0 && sign(vel.y as int) == side_y(a, b) ==> deflected(a, vel, b).y == -vel.y,
        vel.y != 0 && sign(vel.y as int) != side_y(a, b) ==> deflected(a, vel, b).y == vel.y,
{
    let s = side_y(a, b);
    let h = a.overlap_h(b);
    let m = magnitude(vel.y as int);
    assert(s * h == (if s == 1 { h } else { -h })) by (nonlinear_arith)
        requires s == 1 || s == -1;
    assert(-s * m == (if s == 1 { -m } else { m })) by (nonlinear_arith)
        requires s == 1 || s == -1;
}

/// A bounce on the x axis moves the rectangle by exactly the width of the
/// shared rectangle, away from the centre of the static one, and leaves the
/// velocity pointing away from that centre. Nothing else changes.
pub proof fn law_bounce_on_x(a: Rect, vel: Vec2, b: Rect)
    requires
        a.in_world(),
        b.in_field(),
        vel.x > i64::MIN,
        a.meets(b),
        a.overlap_w(b) <= a.overlap_h(b),
    ensures
        pushed(a, b).x == a.x - side_x(a, b) * a.overlap_w(b),
        magnitude(pushed(a, b).x - a.x) == a.overlap_w(b),
        pushed(a, b).y == a.y && pushed(a, b).w == a.w && pushed(a, b).h == a.h,
        deflected(a, vel, b).x == -side_x(a, b) * magnitude(vel.x as int),
        deflected(a, vel, b).y == vel.y,
        vel.x != 0 ==> sign(deflected(a, vel, b).x as int) == -side_x(a, b),
        vel.x != 0 && sign(vel.x as int) == side_x(a, b) ==> deflected(a, vel, b).x == -vel.x,
        vel.x != 0 && sign(vel.x as int) != side_x(a, b) ==> deflected(a, vel, b).x == vel.x,
{
    let s = side_x(a, b);
    let w = a.overlap_w(b);
    let m = magnitude(vel.x as int);
    assert(s * w == (if s == 1 { w } else { -w })) by (nonlinear_arith)
        requires s == 1 || s == -1;
    assert(-s * m == (if s == 1 { -m } else { m })) by (nonlinear_arith)
        requires s == 1 || s == -1;
}

/// Rectangles that are apart are left alone.
pub proof fn law_apart_unchanged(a: Rect, vel: Vec2, b: Rect)
    requires
        !a.meets(b),
    ensures
        pushed(a, b) == a,
        deflected(a, vel, b) == vel,
{
}

} // verus!
