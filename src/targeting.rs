//! Lead-shot targeting: when to fire, and where to aim, so that a projectile
//! of a given speed meets a target moving at constant velocity.
//!
//! Positions are in pixels, speeds in pixels per second and times in
//! milliseconds. With `d` the offset from shooter to target, `v` the target's
//! velocity and `s` the projectile speed, impact after `T` milliseconds means
//! `|1000 d + v T| = s T`, that is `a T² + b T + c = 0` with
//! `a = |v|² - s²`, `b = 2000 (v · d)` and `c = 1000000 |d|²`. The solver
//! reports the whole milliseconds before the earliest positive root.
use vstd::prelude::*;

verus! {

/// The largest coordinate or speed magnitude the solver accepts.
pub const MAX_TARGETING_MAGNITUDE: i32 = 1048576;

/// `r` is the integer square root of `n`.
pub open spec fn is_isqrt(n: int, r: int) -> bool {
    0 <= r && r * r <= n < (r + 1) * (r + 1)
}

/// The integer square root of `n`.
pub open spec fn sqrt_floor(n: int) -> int
    decreases n,
{
    if n <= 0 {
        0
    } else {
        let r = sqrt_floor(n - 1);
        if (r + 1) * (r + 1) <= n {
            r + 1
        } else {
            r
        }
    }
}

/// The least integer whose square is at least `n`.
pub open spec fn sqrt_ceil(n: int) -> int {
    if sqrt_floor(n) * sqrt_floor(n) == n {
        sqrt_floor(n)
    } else {
        sqrt_floor(n) + 1
    }
}

proof fn lemma_sqrt_floor(n: int)
    requires
        n >= 0,
    ensures
        is_isqrt(n, sqrt_floor(n)),
    decreases n,
{
    if n > 0 {
        lemma_sqrt_floor(n - 1);
        let r = sqrt_floor(n - 1);
        assert((r + 1) * (r + 1) < (r + 2) * (r + 2)) by (nonlinear_arith)
            requires
                r >= 0,
        ;
    }
}

proof fn lemma_isqrt_unique(n: int, r1: int, r2: int)
    requires
        is_isqrt(n, r1),
        is_isqrt(n, r2),
    ensures
        r1 == r2,
{
    if r1 < r2 {
        assert((r1 + 1) * (r1 + 1) <= r2 * r2) by (nonlinear_arith)
            requires
                0 <= r1 < r2,
        ;
    } else if r2 < r1 {
        assert((r2 + 1) * (r2 + 1) <= r1 * r1) by (nonlinear_arith)
            requires
                0 <= r2 < r1,
        ;
    }
}

/// The integer square root, by bisection.
pub fn isqrt(n: u128) -> (r: u128)
    ensures
        r == sqrt_floor(n as int),
{
    let mut lo: u128 = 0;
    let mut hi: u128 = 0x1_0000_0000_0000_0000;
    assert(n < hi * hi) by (nonlinear_arith)
        requires
            hi == 0x1_0000_0000_0000_0000int,
            n < 0x1_0000_0000_0000_0000_0000_0000_0000_0000int,
    ;
    while hi - lo > 1
        invariant
            lo < hi <= 0x1_0000_0000_0000_0000,
            lo * lo <= n,
            n < hi * hi,
        decreases hi - lo,
    {
        let mid = lo + (hi - lo) / 2;
        assert(mid * mid < 0x1_0000_0000_0000_0000_0000_0000_0000_0000int) by (nonlinear_arith)
            requires
                mid < 0x1_0000_0000_0000_0000int,
        ;
        if mid * mid <= n {
            lo = mid;
        } else {
            hi = mid;
        }
    }
    proof {
        lemma_sqrt_floor(n as int);
        lemma_isqrt_unique(n as int, lo as int, sqrt_floor(n as int));
    }
    lo
}

/// The whole milliseconds before the earliest positive root of
/// `a T² + b T + c`, or `None` when it has no positive root.
///
/// For `a != 0` the roots are `(-b ± √disc) / 2a`; each sign test and floor
/// below is the exact one for the real root, stated with the integer square
/// root of `disc` (rounded down where it is added, up where it is taken away).
pub open spec fn intercept_time(a: int, b: int, c: int) -> Option<int> {
    if a == 0 {
        if b < 0 && c > 0 {
            Some(c / (-b))
        } else {
            None
        }
    } else {
        let disc = b * b - 4 * a * c;
        if disc < 0 {
            None
        } else if a > 0 {
            if b < 0 && disc < b * b {
                Some((-b - sqrt_ceil(disc)) / (2 * a))
            } else if b < 0 || disc > b * b {
                Some((-b + sqrt_floor(disc)) / (2 * a))
            } else {
                None
            }
        } else {
            if b > 0 && disc < b * b {
                Some((b - sqrt_ceil(disc)) / (-2 * a))
            } else if b > 0 || disc > b * b {
                Some((b + sqrt_floor(disc)) / (-2 * a))
            } else {
                None
            }
        }
    }
}

/// The quadratic's coefficients for a shot (see the module documentation).
pub open spec fn shot_coefficients(
    speed: i32,
    shooter: (i32, i32),
    target: (i32, i32),
    velocity: (i32, i32),
) -> (int, int, int) {
    let dx = target.0 - shooter.0;
    let dy = target.1 - shooter.1;
    (
        velocity.0 * velocity.0 + velocity.1 * velocity.1 - speed * speed,
        2000 * (velocity.0 * dx + velocity.1 * dy),
        1000000 * (dx * dx + dy * dy),
    )
}

/// A firing solution: the milliseconds to impact, and the aim vector
/// `1000 d + v T`, which points from the shooter to the impact point.
#[derive(Debug, Clone, Copy, PartialEq, Eq, Structural)]
pub struct LeadShot {
    pub time_ms: i128,
    pub aim_x: i128,
    pub aim_y: i128,
}

/// The firing solution for a shot, when there is one.
pub open spec fn lead_solution(
    speed: i32,
    shooter: (i32, i32),
    target: (i32, i32),
    velocity: (i32, i32),
) -> Option<LeadShot> {
    let (a, b, c) = shot_coefficients(speed, shooter, target, velocity);
    match intercept_time(a, b, c) {
        Some(t) => Some(
            LeadShot {
                time_ms: t as i128,
                aim_x: (1000 * (target.0 - shooter.0) + velocity.0 * t) as i128,
                aim_y: (1000 * (target.1 - shooter.1) + velocity.1 * t) as i128,
            },
        ),
        None => None,
    }
}

pub open spec fn within_targeting_range(p: (i32, i32)) -> bool {
    -MAX_TARGETING_MAGNITUDE <= p.0 <= MAX_TARGETING_MAGNITUDE && -MAX_TARGETING_MAGNITUDE <= p.1
        <= MAX_TARGETING_MAGNITUDE
}

proof fn lemma_isqrt_below(n: int, r: int, k: int)
    requires
        is_isqrt(n, r),
        0 <= k,
        n < k * k,
    ensures
        r < k,
{
    if r >= k {
        assert(k * k <= r * r) by (nonlinear_arith)
            requires
                0 <= k <= r,
        ;
    }
}

/// Facts about the rounded square roots of `n` against a bound `m`.
proof fn lemma_sqrt_vs(n: int, m: int)
    requires
        0 <= n,
        0 <= m,
    ensures
        m * m >= n ==> sqrt_ceil(n) <= m,
        m * m <= n ==> sqrt_floor(n) >= m,
        sqrt_floor(n) <= sqrt_ceil(n) <= sqrt_floor(n) + 1,
{
    lemma_sqrt_floor(n);
    let r = sqrt_floor(n);
    if m * m >= n && sqrt_ceil(n) > m {
        if r * r == n {
            assert(m * m < r * r) by (nonlinear_arith)
                requires
                    0 <= m < r,
            ;
        } else if r > m {
            assert(m * m < r * r) by (nonlinear_arith)
                requires
                    0 <= m < r,
            ;
        }
    }
    if m * m <= n && r < m {
        assert((r + 1) * (r + 1) <= m * m) by (nonlinear_arith)
            requires
                0 <= r < m,
        ;
    }
}

/// The executable form of `intercept_time`, for coefficients of shots
/// within the accepted range.
fn earliest_impact(a: i128, b: i128, c: i128) -> (r: Option<i128>)
    requires
        -0x200_0000_0000 <= a <= 0x200_0000_0000,
        -0x20_0000_0000_0000 <= b <= 0x20_0000_0000_0000,
        0 <= c <= 0x8000_0000_0000_0000,
    ensures
        match r {
            Some(t) => intercept_time(a as int, b as int, c as int) == Some(t as int) && 0 <= t
                <= 0x8000_0000_0000_0000,
            None => intercept_time(a as int, b as int, c as int) is None,
        },
{
    if a == 0 {
        if b < 0 && c > 0 {
            proof {
                vstd::arithmetic::div_mod::lemma_div_pos_is_pos(c as int, -b as int);
                vstd::arithmetic::div_mod::lemma_div_nonincreasing(c as int, -b as int);
            }
            return Some(c / (-b));
        } else {
            return None;
        }
    }
    assert(0 <= b * b <= 0x400_0000_0000_0000_0000_0000_0000) by (nonlinear_arith)
        requires
            -0x20_0000_0000_0000 <= b <= 0x20_0000_0000_0000,
    ;
    assert(-0x800_0000_0000_0000_0000_0000_0000 <= 4 * a * c <= 0x800_0000_0000_0000_0000_0000_0000)
        by (nonlinear_arith)
        requires
            -0x200_0000_0000 <= a <= 0x200_0000_0000,
            0 <= c <= 0x8000_0000_0000_0000,
    ;
    let disc: i128 = b * b - 4 * a * c;
    if disc < 0 {
        return None;
    }
    let s0 = isqrt(disc as u128);
    proof {
        lemma_sqrt_floor(disc as int);
        lemma_isqrt_below(disc as int, s0 as int, 0x40_0000_0000_0000);
        lemma_sqrt_vs(disc as int, if b < 0 { -b as int } else { b as int });
        assert((-b as int) * (-b as int) == (b as int) * (b as int)) by (nonlinear_arith);
    }
    let s = s0 as i128;
    assert(s * s < 0x1_0000_0000_0000_0000_0000_0000_0000) by (nonlinear_arith)
        requires
            0 <= s < 0x40_0000_0000_0000,
    ;
    let s_up: i128 = if s * s == disc {
        s
    } else {
        s + 1
    };
    let bb = b * b;
    if a > 0 {
        if b < 0 && disc < bb {
            let num = -b - s_up;
            proof {
                vstd::arithmetic::div_mod::lemma_div_pos_is_pos(num as int, 2 * a as int);
                vstd::arithmetic::div_mod::lemma_div_nonincreasing(num as int, 2 * a as int);
            }
            Some(num / (2 * a))
        } else if b < 0 || disc > bb {
            let num = -b + s;
            proof {
                vstd::arithmetic::div_mod::lemma_div_pos_is_pos(num as int, 2 * a as int);
                vstd::arithmetic::div_mod::lemma_div_nonincreasing(num as int, 2 * a as int);
            }
            Some(num / (2 * a))
        } else {
            None
        }
    } else {
        if b > 0 && disc < bb {
            let num = b - s_up;
            proof {
                vstd::arithmetic::div_mod::lemma_div_pos_is_pos(num as int, -2 * a as int);
                vstd::arithmetic::div_mod::lemma_div_nonincreasing(num as int, -2 * a as int);
            }
            Some(num / (-2 * a))
        } else if b > 0 || disc > bb {
            let num = b + s;
            proof {
                vstd::arithmetic::div_mod::lemma_div_pos_is_pos(num as int, -2 * a as int);
                vstd::arithmetic::div_mod::lemma_div_nonincreasing(num as int, -2 * a as int);
            }
            Some(num / (-2 * a))
        } else {
            None
        }
    }
}

/// Where and when to fire a projectile of `speed` from `shooter` so that
/// it meets a target at `target` moving at `velocity`; `None` when no
/// positive time of impact exists.
pub fn lead_shot(speed: i32, shooter: (i32, i32), target: (i32, i32), velocity: (i32, i32)) -> (r:
    Option<LeadShot>)
    requires
        0 <= speed <= MAX_TARGETING_MAGNITUDE,
        within_targeting_range(shooter),
        within_targeting_range(target),
        within_targeting_range(velocity),
    ensures
        r == lead_solution(speed, shooter, target, velocity),
{
    let dx = target.0 as i128 - shooter.0 as i128;
    let dy = target.1 as i128 - shooter.1 as i128;
    let vx = velocity.0 as i128;
    let vy = velocity.1 as i128;
    let sp = speed as i128;
    assert(0 <= dx * dx <= 0x400_0000_0000 && 0 <= dy * dy <= 0x400_0000_0000) by (nonlinear_arith)
        requires
            -0x20_0000 <= dx <= 0x20_0000,
            -0x20_0000 <= dy <= 0x20_0000,
    ;
    assert(0 <= vx * vx <= 0x100_0000_0000 && 0 <= vy * vy <= 0x100_0000_0000 && 0 <= sp * sp
        <= 0x100_0000_0000) by (nonlinear_arith)
        requires
            -0x10_0000 <= vx <= 0x10_0000,
            -0x10_0000 <= vy <= 0x10_0000,
            0 <= sp <= 0x10_0000,
    ;
    assert(-0x200_0000_0000 <= vx * dx <= 0x200_0000_0000 && -0x200_0000_0000 <= vy * dy
        <= 0x200_0000_0000) by (nonlinear_arith)
        requires
            -0x10_0000 <= vx <= 0x10_0000,
            -0x10_0000 <= vy <= 0x10_0000,
            -0x20_0000 <= dx <= 0x20_0000,
            -0x20_0000 <= dy <= 0x20_0000,
    ;
    let a = vx * vx + vy * vy - sp * sp;
    let b = 2000 * (vx * dx + vy * dy);
    let c = 1000000 * (dx * dx + dy * dy);
    match earliest_impact(a, b, c) {
        Some(t) => {
            assert(-0x10_0000 * 0x8000_0000_0000_0000 <= vx * t <= 0x10_0000 * 0x8000_0000_0000_0000
                && -0x10_0000 * 0x8000_0000_0000_0000 <= vy * t <= 0x10_0000
                * 0x8000_0000_0000_0000) by (nonlinear_arith)
                requires
                    -0x10_0000 <= vx <= 0x10_0000,
                    -0x10_0000 <= vy <= 0x10_0000,
                    0 <= t <= 0x8000_0000_0000_0000,
            ;
            Some(LeadShot { time_ms: t, aim_x: 1000 * dx + vx * t, aim_y: 1000 * dy + vy * t })
        },
        None => None,
    }
}

/// A target that stands still is met after the straight-line distance
/// divided by the projectile speed: in whole milliseconds, the integer
/// square root of `1000000 |d|²` divided by the speed.
pub proof fn stationary_target_takes_distance_over_speed(
    speed: i32,
    shooter: (i32, i32),
    target: (i32, i32),
)
    requires
        speed > 0,
        shooter != target,
    ensures
        ({
            let dx = target.0 - shooter.0;
            let dy = target.1 - shooter.1;
            let r = lead_solution(speed, shooter, target, (0, 0));
            &&& r is Some
            &&& r->0.time_ms == sqrt_floor(1000000 * (dx * dx + dy * dy)) / (speed as int)
        }),
{
    let dx = target.0 - shooter.0;
    let dy = target.1 - shooter.1;
    let s = speed as int;
    let x = 1000000 * (dx * dx + dy * dy);
    assert(x > 0) by (nonlinear_arith)
        requires
            x == 1000000 * (dx * dx + dy * dy),
            dx != 0 || dy != 0,
    ;
    let (a, b, c) = shot_coefficients(speed, shooter, target, (0, 0));
    assert(a == -(s * s) && b == 0 && c == x);
    let disc = b * b - 4 * a * c;
    assert(disc == 4 * (s * s) * x) by (nonlinear_arith)
        requires
            disc == b * b - 4 * a * c,
            a == -(s * s),
            b == 0,
            c == x,
    ;
    assert(s * s > 0) by (nonlinear_arith)
        requires
            s > 0,
    ;
    assert(disc > 0) by (nonlinear_arith)
        requires
            disc == 4 * (s * s) * x,
            s * s > 0,
            x > 0,
    ;
    lemma_sqrt_floor(disc);
    lemma_sqrt_floor(x);
    let r = sqrt_floor(disc);
    let m = sqrt_floor(x);
    // The root of 4 s² x lies between 2 s m and 2 s (m + 1).
    assert(2 * s * m <= r) by {
        assert((2 * s * m) * (2 * s * m) <= disc) by (nonlinear_arith)
            requires
                m * m <= x,
                disc == 4 * (s * s) * x,
                s > 0,
                m >= 0,
        ;
        if r < 2 * s * m {
            assert((r + 1) * (r + 1) <= (2 * s * m) * (2 * s * m)) by (nonlinear_arith)
                requires
                    0 <= r < 2 * s * m,
            ;
        }
    }
    assert(r < 2 * s * (m + 1)) by {
        assert(disc < (2 * s * (m + 1)) * (2 * s * (m + 1))) by (nonlinear_arith)
            requires
                x < (m + 1) * (m + 1),
                disc == 4 * (s * s) * x,
                s > 0,
        ;
        lemma_isqrt_below(disc, r, 2 * s * (m + 1));
    }
    assert(r / (2 * s) == m) by {
        vstd::arithmetic::div_mod::lemma_fundamental_div_mod(r, 2 * s);
        let q = r / (2 * s);
        let rem = r % (2 * s);
        assert(0 <= rem < 2 * s) by {
            vstd::arithmetic::div_mod::lemma_mod_bound(r, 2 * s);
        }
        if q < m {
            assert(2 * s * q + rem < 2 * s * m) by (nonlinear_arith)
                requires
                    q < m,
                    0 <= rem < 2 * s,
            ;
        } else if q > m {
            assert(2 * s * q >= 2 * s * (m + 1)) by (nonlinear_arith)
                requires
                    q > m,
                    s > 0,
            ;
        }
    }
    assert(-2 * a == (2 * s) * s) by (nonlinear_arith)
        requires
            a == -(s * s),
    ;
    vstd::arithmetic::div_mod::lemma_div_denominator(r, 2 * s, s);
    assert(x < 0x40_0000_0000_0000_0000_0000) by (nonlinear_arith)
        requires
            x == 1000000 * (dx * dx + dy * dy),
            -0x1_0000_0000 <= dx <= 0x1_0000_0000,
            -0x1_0000_0000 <= dy <= 0x1_0000_0000,
    ;
    lemma_isqrt_below(x, m, 0x800_0000_0000);
    vstd::arithmetic::div_mod::lemma_div_pos_is_pos(m, s);
    vstd::arithmetic::div_mod::lemma_div_nonincreasing(m, s);
    assert(intercept_time(a, b, c) == Some(m / s));
}

/// A target moving directly away from the shooter faster than the
/// projectile can never be met.
pub proof fn fleeing_faster_target_has_no_solution(
    speed: i32,
    shooter: (i32, i32),
    target: (i32, i32),
    velocity: (i32, i32),
)
    requires
        ({
            let dx = target.0 - shooter.0;
            let dy = target.1 - shooter.1;
            &&& velocity.0 * dy == velocity.1 * dx
            &&& velocity.0 * dx + velocity.1 * dy > 0
            &&& velocity.0 * velocity.0 + velocity.1 * velocity.1 > speed * speed
        }),
    ensures
        lead_solution(speed, shooter, target, velocity) is None,
{
    let dx = target.0 - shooter.0;
    let dy = target.1 - shooter.1;
    let (a, b, c) = shot_coefficients(speed, shooter, target, velocity);
    assert(a > 0 && b > 0);
    assert(c >= 0) by (nonlinear_arith)
        requires
            c == 1000000 * (dx * dx + dy * dy),
    ;
    assert(4 * a * c >= 0) by (nonlinear_arith)
        requires
            a > 0,
            c >= 0,
    ;
}

} // verus!
