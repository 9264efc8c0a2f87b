//! Continuous simulation of one player per fixed time step: steering with
//! bounded acceleration toward the input direction, and pairwise circle
//! collision resolution against fixed or movable obstacles.

use vstd::prelude::*;
use crate::entities::{Player, ACCELERATION, SPEED};
use crate::math::{abs_u64, is_sqrt, isqrt, lemma_tdiv_bound, mag, mul_div_trunc, tdiv, Vec2i,
    MILLI};

verus! {

/// Largest position coordinate the physics accepts, in milli-units.
pub const COORD_LIMIT: i64 = 1_000_000_000;

/// Largest velocity component the physics accepts, in milli-units per second.
pub const VEL_LIMIT: i64 = 100_000_000;

/// Largest steering-direction component the physics accepts (a unit
/// direction has components of at most 1000).
pub const DIR_LIMIT: i64 = 1_000_000;

/// The velocity component the steering aims at: the milli-scaled input
/// direction times the top speed.
pub open spec fn desired_vel(tv: int) -> int {
    tv * (SPEED as int) / (MILLI as int)
}

/// How far one axis of the velocity may move in one step of `dt`
/// milliseconds: the acceleration bound scaled to the step length.
pub open spec fn acc_step(dt: int) -> int {
    (ACCELERATION as int) * dt / (MILLI as int)
}

/// `v1` lies on the straight way from `v0` to `d`: the step from `v0` to
/// `v1` closes in on `d` and never passes it.
pub open spec fn approaches(v0: int, v1: int, d: int) -> bool {
    (v0 <= v1 <= d) || (d <= v1 <= v0)
}

/// The exact velocity change of one integration step: the velocity jumps
/// straight to the desired velocity when that is within the acceleration
/// budget, and otherwise moves toward it by a step of the budget's length
/// (each axis rounded toward zero).
pub open spec fn velocity_step(pre: Player, dt: int, post: Player) -> bool {
    let dx = desired_vel(pre.target_velocity.x as int);
    let dy = desired_vel(pre.target_velocity.y as int);
    let dvx = dx - pre.velocity.x;
    let dvy = dy - pre.velocity.y;
    let d2 = dvx * dvx + dvy * dvy;
    let m = acc_step(dt);
    if d2 <= m * m {
        post.velocity.x == dx && post.velocity.y == dy
    } else {
        exists|len: int|
            is_sqrt(d2, len) && post.velocity.x == pre.velocity.x + tdiv(dvx * m, len)
                && post.velocity.y == pre.velocity.y + tdiv(dvy * m, len)
    }
}

/// The truncated quotient keeps the sign of its dividend.
proof fn lemma_tdiv_sign(a: int, b: int)
    requires
        b >= 1,
    ensures
        a >= 0 ==> tdiv(a, b) >= 0,
        a <= 0 ==> tdiv(a, b) <= 0,
{
    if a >= 0 {
        assert(a / b >= 0) by (nonlinear_arith)
            requires
                a >= 0,
                b >= 1,
        ;
    } else {
        assert((-a) / b >= 0) by (nonlinear_arith)
            requires
                -a >= 0,
                b >= 1,
        ;
    }
}

/// One clamped steering axis: dividing `dv * m` by `len`, with `m <= len`
/// and `mag(dv) <= len`, yields a step of the sign of `dv` that is no
/// longer than `mag(dv)` and no longer than `m`.
proof fn lemma_clamp_step(dv: int, m: int, len: int)
    requires
        1 <= m <= len,
        mag(dv) <= len,
    ensures
        mag(tdiv(dv * m, len)) <= mag(dv),
        mag(tdiv(dv * m, len)) <= m,
        dv >= 0 ==> 0 <= tdiv(dv * m, len) <= dv,
        dv <= 0 ==> dv <= tdiv(dv * m, len) <= 0,
{
    assert(mag(dv * m) == mag(dv) * m) by (nonlinear_arith)
        requires
            m >= 0,
    ;
    assert(mag(dv) * m <= len * mag(dv)) by (nonlinear_arith)
        requires
            m <= len,
            mag(dv) >= 0,
    ;
    lemma_tdiv_bound(dv * m, len, mag(dv));
    assert(mag(dv) * m <= len * m) by (nonlinear_arith)
        requires
            mag(dv) <= len,
            m >= 0,
    ;
    lemma_tdiv_bound(dv * m, len, m);
    assert(dv >= 0 ==> dv * m >= 0) by (nonlinear_arith)
        requires
            m >= 0,
    ;
    assert(dv <= 0 ==> dv * m <= 0) by (nonlinear_arith)
        requires
            m >= 0,
    ;
    lemma_tdiv_sign(dv * m, len);
}

impl Player {
    /// One integration step of `delta_time` milliseconds: the velocity is
    /// nudged toward `target_velocity * SPEED` by at most
    /// `ACCELERATION * delta_time`, then the position advances by
    /// `velocity * delta_time`.
    pub fn update(&mut self, delta_time: i64)
        requires
            0 < delta_time <= MILLI,
            mag(old(self).position.x as int) <= COORD_LIMIT,
            mag(old(self).position.y as int) <= COORD_LIMIT,
            mag(old(self).velocity.x as int) <= VEL_LIMIT,
            mag(old(self).velocity.y as int) <= VEL_LIMIT,
            mag(old(self).target_velocity.x as int) <= DIR_LIMIT,
            mag(old(self).target_velocity.y as int) <= DIR_LIMIT,
        ensures
            final(self).id == old(self).id,
            final(self).radius == old(self).radius,
            final(self).target_velocity == old(self).target_velocity,
            final(self).pizza == old(self).pizza,
            velocity_step(*old(self), delta_time as int, *final(self)),
            // Steering closes in on the target speed and never passes it.
            approaches(
                old(self).velocity.x as int,
                final(self).velocity.x as int,
                desired_vel(old(self).target_velocity.x as int),
            ),
            approaches(
                old(self).velocity.y as int,
                final(self).velocity.y as int,
                desired_vel(old(self).target_velocity.y as int),
            ),
            // The velocity never jumps by more than the acceleration budget.
            mag(final(self).velocity.x - old(self).velocity.x) <= acc_step(delta_time as int),
            mag(final(self).velocity.y - old(self).velocity.y) <= acc_step(delta_time as int),
            mag(final(self).velocity.x as int) <= VEL_LIMIT,
            mag(final(self).velocity.y as int) <= VEL_LIMIT,
            // The position advances by exactly the new velocity times the
            // step, each axis rounded toward zero.
            final(self).position.x == old(self).position.x + tdiv(
                final(self).velocity.x * delta_time,
                MILLI as int,
            ),
            final(self).position.y == old(self).position.y + tdiv(
                final(self).velocity.y * delta_time,
                MILLI as int,
            ),
    {
        let tvx = self.target_velocity.x;
        let tvy = self.target_velocity.y;
        let desired_x = tvx * (SPEED / MILLI);
        let desired_y = tvy * (SPEED / MILLI);
        proof {
            assert(tvx as int * (SPEED as int) / (MILLI as int) == tvx as int * ((SPEED as int)
                / (MILLI as int)) && tvy as int * (SPEED as int) / (MILLI as int) == tvy as int * (
            (SPEED as int) / (MILLI as int))) by (nonlinear_arith)
                requires
                    SPEED == 6000i64,
                    MILLI == 1000i64,
            ;
        }
        let m = (ACCELERATION / MILLI) * delta_time;
        proof {
            assert((ACCELERATION as int) * (delta_time as int) / (MILLI as int) == ((
            ACCELERATION as int) / (MILLI as int)) * (delta_time as int)) by (nonlinear_arith)
                requires
                    ACCELERATION == 50000i64,
                    MILLI == 1000i64,
            ;
            assert(50 <= m <= 50000);
        }
        let dvx = desired_x - self.velocity.x;
        let dvy = desired_y - self.velocity.y;
        let ax = abs_u64(dvx);
        let ay = abs_u64(dvy);
        proof {
            assert(ax * ax == dvx * dvx && ax * ax <= 0x7FFF_FFFF_FFFF_FFFF) by (nonlinear_arith)
                requires
                    ax as int == mag(dvx as int),
                    ax <= 106_000_000u64,
            ;
            assert(ay * ay == dvy * dvy && ay * ay <= 0x7FFF_FFFF_FFFF_FFFF) by (nonlinear_arith)
                requires
                    ay as int == mag(dvy as int),
                    ay <= 106_000_000u64,
            ;
        }
        let d2 = ax * ax + ay * ay;
        let mu = m as u64;
        proof {
            assert(mu * mu <= 2_500_000_000u64) by (nonlinear_arith)
                requires
                    mu <= 50000u64,
            ;
            assert(dvx * dvx == mag(dvx as int) * mag(dvx as int) && dvx * dvx >= 0)
                by (nonlinear_arith);
            assert(dvy * dvy == mag(dvy as int) * mag(dvy as int) && dvy * dvy >= 0)
                by (nonlinear_arith);
        }
        if d2 <= mu * mu {
            proof {
                assert(mag(dvx as int) <= mu as int) by (nonlinear_arith)
                    requires
                        mag(dvx as int) * mag(dvx as int) <= d2 as int,
                        d2 as int <= (mu as int) * (mu as int),
                        mag(dvx as int) >= 0,
                        mu >= 0,
                ;
                assert(mag(dvy as int) <= mu as int) by (nonlinear_arith)
                    requires
                        mag(dvy as int) * mag(dvy as int) <= d2 as int,
                        d2 as int <= (mu as int) * (mu as int),
                        mag(dvy as int) >= 0,
                        mu >= 0,
                ;
            }
            self.velocity = Vec2i { x: desired_x, y: desired_y };
        } else {
            let len = isqrt(d2);
            proof {
                // the clamp only runs when the wanted change is longer than
                // the budget, so the root is at least the budget
                assert(len >= mu) by (nonlinear_arith)
                    requires
                        ((len as int) + 1) * ((len as int) + 1) > d2 as int,
                        d2 as int > (mu as int) * (mu as int),
                        len >= 0,
                        mu >= 1,
                ;
                // and neither axis of the wanted change is longer than the root
                assert(mag(dvx as int) <= len as int) by (nonlinear_arith)
                    requires
                        mag(dvx as int) * mag(dvx as int) + mag(dvy as int) * mag(dvy as int) < ((
                        len as int) + 1) * ((len as int) + 1),
                        mag(dvx as int) >= 0,
                        mag(dvy as int) * mag(dvy as int) >= 0,
                        len >= 0,
                ;
                assert(mag(dvy as int) <= len as int) by (nonlinear_arith)
                    requires
                        mag(dvx as int) * mag(dvx as int) + mag(dvy as int) * mag(dvy as int) < ((
                        len as int) + 1) * ((len as int) + 1),
                        mag(dvy as int) >= 0,
                        mag(dvx as int) * mag(dvx as int) >= 0,
                        len >= 0,
                ;
                assert(mag(dvx as int) * (mu as int) <= 0x7FFF_FFFF_FFFF_FFFF) by (nonlinear_arith)
                    requires
                        mag(dvx as int) <= 106_000_000,
                        mu <= 50000u64,
                ;
                assert(mag(dvy as int) * (mu as int) <= 0x7FFF_FFFF_FFFF_FFFF) by (nonlinear_arith)
                    requires
                        mag(dvy as int) <= 106_000_000,
                        mu <= 50000u64,
                ;
                lemma_clamp_step(dvx as int, mu as int, len as int);
                lemma_clamp_step(dvy as int, mu as int, len as int);
            }
            let sx = mul_div_trunc(dvx, mu, len);
            let sy = mul_div_trunc(dvy, mu, len);
            self.velocity = Vec2i { x: self.velocity.x + sx, y: self.velocity.y + sy };
            proof {
                assert(is_sqrt((dvx * dvx + dvy * dvy) as int, len as int));
                assert(velocity_step(*old(self), delta_time as int, *self));
            }
        }
        proof {
            assert(mag(self.velocity.x as int) * (delta_time as int) <= 100_000_000_000)
                by (nonlinear_arith)
                requires
                    mag(self.velocity.x as int) <= 100_000_000,
                    0 < delta_time <= 1000,
            ;
            assert(mag(self.velocity.y as int) * (delta_time as int) <= 100_000_000_000)
                by (nonlinear_arith)
                requires
                    mag(self.velocity.y as int) <= 100_000_000,
                    0 < delta_time <= 1000,
            ;
        }
        let px = mul_div_trunc(self.velocity.x, delta_time as u64, MILLI as u64);
        let py = mul_div_trunc(self.velocity.y, delta_time as u64, MILLI as u64);
        self.position = Vec2i { x: self.position.x + px, y: self.position.y + py };
    }

    /// Resolves one circle collision: when the centre distance is strictly
    /// positive and strictly under the combined radii, the player is pushed
    /// straight away from `position` until the circles just touch. At exact
    /// centre overlap the direction is undefined and nothing moves.
    pub fn collide(&mut self, position: Vec2i, radius: i64) -> (moved: bool)
        requires
            mag(old(self).position.x as int) <= COORD_LIMIT,
            mag(old(self).position.y as int) <= COORD_LIMIT,
            mag(position.x as int) <= COORD_LIMIT,
            mag(position.y as int) <= COORD_LIMIT,
            0 <= radius,
            0 <= old(self).radius,
            radius + old(self).radius <= COORD_LIMIT,
        ensures
            final(self).id == old(self).id,
            final(self).radius == old(self).radius,
            final(self).velocity == old(self).velocity,
            final(self).target_velocity == old(self).target_velocity,
            final(self).pizza == old(self).pizza,
            ({
                let dx = old(self).position.x - position.x;
                let dy = old(self).position.y - position.y;
                let d2 = dx * dx + dy * dy;
                let rs = radius + old(self).radius;
                &&& moved == (0 < d2 && d2 < rs * rs)
                &&& (!moved ==> *final(self) == *old(self))
                &&& (moved ==> exists|dist: int|
                    is_sqrt(d2, dist) && 0 < dist < rs && final(self).position.x == old(
                    self).position.x + tdiv(dx * (rs - dist), dist) && final(self).position.y
                        == old(self).position.y + tdiv(dy * (rs - dist), dist))
                    // Idempotence at the fixed point: once the centre distance
                    // equals the combined radii, re-resolving changes nothing.
                &&& (d2 == rs * rs ==> !moved && *final(self) == *old(self))
            }),
    {
        let dx = self.position.x - position.x;
        let dy = self.position.y - position.y;
        let ax = abs_u64(dx);
        let ay = abs_u64(dy);
        proof {
            assert(ax * ax == dx * dx && ax * ax <= 4_000_000_000_000_000_000u64)
                by (nonlinear_arith)
                requires
                    ax as int == mag(dx as int),
                    ax <= 2_000_000_000u64,
            ;
            assert(ay * ay == dy * dy && ay * ay <= 4_000_000_000_000_000_000u64)
                by (nonlinear_arith)
                requires
                    ay as int == mag(dy as int),
                    ay <= 2_000_000_000u64,
            ;
        }
        let d2 = ax * ax + ay * ay;
        let rs = radius + self.radius;
        let rsu = rs as u64;
        proof {
            assert(rsu * rsu <= 1_000_000_000_000_000_000u64) by (nonlinear_arith)
                requires
                    rsu <= 1_000_000_000u64,
            ;
        }
        if d2 > 0 && d2 < rsu * rsu {
            let dist = isqrt(d2);
            proof {
                assert(1 <= dist) by (nonlinear_arith)
                    requires
                        ((dist as int) + 1) * ((dist as int) + 1) > d2 as int,
                        d2 >= 1,
                        dist >= 0,
                ;
                assert(dist < rsu) by (nonlinear_arith)
                    requires
                        (dist as int) * (dist as int) <= d2 as int,
                        (d2 as int) < (rsu as int) * (rsu as int),
                        dist >= 0,
                        rsu >= 0,
                ;
                assert(mag(dx as int) * ((rs - dist) as int) <= 2_000_000_000_000_000_000)
                    by (nonlinear_arith)
                    requires
                        mag(dx as int) <= 2_000_000_000,
                        0 < rs - dist <= 1_000_000_000,
                ;
                assert(mag(dy as int) * ((rs - dist) as int) <= 2_000_000_000_000_000_000)
                    by (nonlinear_arith)
                    requires
                        mag(dy as int) <= 2_000_000_000,
                        0 < rs - dist <= 1_000_000_000,
                ;
            }
            let gap = rs - (dist as i64);
            let px = mul_div_trunc(dx, gap as u64, dist);
            let py = mul_div_trunc(dy, gap as u64, dist);
            self.position = Vec2i { x: self.position.x + px, y: self.position.y + py };
            proof {
                assert(is_sqrt((dx * dx + dy * dy) as int, dist as int));
            }
            true
        } else {
            false
        }
    }
}

/// One steering step composes with another: a velocity that has moved from
/// `v0` toward `d` and then on to `v2` still lies on the way from `v0` to
/// `d`, and its gap to `d` has not grown.
pub proof fn lemma_approaches_trans(v0: int, v1: int, v2: int, d: int)
    requires
        approaches(v0, v1, d),
        approaches(v1, v2, d),
    ensures
        approaches(v0, v2, d),
        mag(d - v2) <= mag(d - v1) <= mag(d - v0),
{
}

/// Across any run of integration steps with a constant steering target,
/// each velocity axis approaches the target speed monotonically — the gap
/// to `d` never grows from any step to any later one — and never passes
/// it. `vs` is the per-step trace of one velocity axis and `d` that axis
/// of the desired velocity; consecutive entries are related exactly as one
/// call of `Player::update` relates them.
pub proof fn lemma_velocity_monotone_approach(vs: Seq<int>, d: int)
    requires
        vs.len() >= 1,
        forall|i: int| 0 <= i < vs.len() - 1 ==> approaches(#[trigger] vs[i], vs[i + 1], d),
    ensures
        forall|i: int, j: int|
            0 <= i <= j < vs.len() ==> approaches(#[trigger] vs[i], #[trigger] vs[j], d),
        forall|i: int, j: int|
            0 <= i <= j < vs.len() ==> mag(d - #[trigger] vs[j]) <= mag(d - #[trigger] vs[i]),
    decreases vs.len(),
{
    if vs.len() >= 2 {
        let prefix = vs.drop_last();
        assert forall|i: int| 0 <= i < prefix.len() - 1 implies approaches(
            #[trigger] prefix[i],
            prefix[i + 1],
            d,
        ) by {
            assert(prefix[i] == vs[i] && prefix[i + 1] == vs[i + 1]);
        }
        lemma_velocity_monotone_approach(prefix, d);
        let n = vs.len() - 1;
        assert forall|i: int, j: int| 0 <= i <= j < vs.len() implies approaches(
            #[trigger] vs[i],
            #[trigger] vs[j],
            d,
        ) && mag(d - vs[j]) <= mag(d - vs[i]) by {
            if j < n {
                assert(prefix[i] == vs[i] && prefix[j] == vs[j]);
                assert(approaches(prefix[i], prefix[j], d));
                assert(mag(d - prefix[j]) <= mag(d - prefix[i]));
            } else if i == j {
            } else {
                assert(prefix[i] == vs[i] && prefix[n - 1] == vs[n - 1]);
                assert(approaches(vs[i], vs[n - 1], d));
                assert(mag(d - vs[n - 1]) <= mag(d - vs[i]));
                assert(approaches(vs[n - 1], vs[n], d));
                lemma_approaches_trans(vs[i], vs[n - 1], vs[n], d);
            }
        }
    }
}

} // verus!
