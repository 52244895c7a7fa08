//! The numeric kernel: integrator and force law, over the arithmetic that the
//! caller supplies.
//!
//! Each relation below says that a value is a result of a formula: of asking
//! the arithmetic for the formula's operations one after the other.

use vstd::prelude::*;
use crate::body::Body;
use crate::scalar::{arith_total, less_than, Op, DAMPING, EPSILON, ZERO};

verus! {

/// `out` is a result of `position + velocity / r`.
pub open spec fn drifted<A: Fn(Op, u64, u64) -> u64>(
    arith: &A,
    position: u64,
    velocity: u64,
    r: u64,
    out: u64,
) -> bool {
    exists|step: u64| #[trigger]
        arith.ensures((Op::Div, velocity, r), step) && arith.ensures(
            (Op::Add, position, step),
            out,
        )
}

/// `out` is `body` after the integrator: the position advanced by the
/// velocity that the body came with, divided by the resolution `r`, and that
/// velocity then damped.
pub open spec fn integrated<A: Fn(Op, u64, u64) -> u64>(
    arith: &A,
    r: u64,
    body: Body,
    out: Body,
) -> bool {
    &&& drifted(arith, body.x, body.v_x, r, out.x)
    &&& drifted(arith, body.y, body.v_y, r, out.y)
    &&& arith.ensures((Op::Mul, body.v_x, DAMPING), out.v_x)
    &&& arith.ensures((Op::Mul, body.v_y, DAMPING), out.v_y)
    &&& out == (Body { x: out.x, y: out.y, v_x: out.v_x, v_y: out.v_y, ..body })
}

/// `(dx, dy)` is a result of the offset from `body` to `attractor`.
pub open spec fn offset<A: Fn(Op, u64, u64) -> u64>(
    arith: &A,
    body: Body,
    attractor: Body,
    dx: u64,
    dy: u64,
) -> bool {
    &&& arith.ensures((Op::Sub, attractor.x, body.x), dx)
    &&& arith.ensures((Op::Sub, attractor.y, body.y), dy)
}

/// `dist_sq` is a result of `dx * dx + dy * dy`.
pub open spec fn squared<A: Fn(Op, u64, u64) -> u64>(
    arith: &A,
    dx: u64,
    dy: u64,
    dist_sq: u64,
) -> bool {
    exists|xx: u64, yy: u64|
        #![trigger arith.ensures((Op::Mul, dx, dx), xx), arith.ensures((Op::Mul, dy, dy), yy)]
        arith.ensures((Op::Mul, dx, dx), xx) && arith.ensures((Op::Mul, dy, dy), yy)
            && arith.ensures((Op::Add, xx, yy), dist_sq)
}

/// `f` is a result of `mass / (dist_sq * r + EPSILON)`.
pub open spec fn strength<A: Fn(Op, u64, u64) -> u64>(
    arith: &A,
    mass: u64,
    dist_sq: u64,
    r: u64,
    f: u64,
) -> bool {
    exists|scaled: u64, denominator: u64|
        #![trigger arith.ensures((Op::Mul, dist_sq, r), scaled), arith.ensures((Op::Add, scaled, EPSILON), denominator)]
        arith.ensures((Op::Mul, dist_sq, r), scaled) && arith.ensures(
            (Op::Add, scaled, EPSILON),
            denominator,
        ) && arith.ensures((Op::Div, mass, denominator), f)
}

/// `(c, s)` is a result of the cosine and the sine of the angle
/// `atan2(dy, dx)`.
pub open spec fn heading<A: Fn(Op, u64, u64) -> u64>(
    arith: &A,
    dx: u64,
    dy: u64,
    c: u64,
    s: u64,
) -> bool {
    exists|angle: u64| #[trigger]
        arith.ensures((Op::Atan2, dy, dx), angle) && arith.ensures((Op::Cos, angle, ZERO), c)
            && arith.ensures((Op::Sin, angle, ZERO), s)
}

/// What the force law hands back for one body against one attractor: the
/// acceleration to add to the body's velocity, and whether the body lies
/// within the attractor's capture radius.
#[derive(Clone, Copy, Debug, PartialEq, Eq, Structural)]
pub struct Pull {
    pub a_x: u64,
    pub a_y: u64,
    pub captured: bool,
}

/// `p` is a result of the force law for `body` against `attractor` at the
/// resolution `r`: with `d2` the squared distance, `f` the strength and `(c, s)`
/// the heading towards the attractor, the acceleration is `(f * c, f * s)`, and
/// the body is captured when `d2` is below the attractor's mass.
pub open spec fn pulls<A: Fn(Op, u64, u64) -> u64>(
    arith: &A,
    r: u64,
    body: Body,
    attractor: Body,
    p: Pull,
) -> bool {
    exists|dx: u64, dy: u64, d2: u64, f: u64, c: u64, s: u64|
        #![trigger offset(arith, body, attractor, dx, dy), squared(arith, dx, dy, d2), strength(arith, attractor.mass, d2, r, f), heading(arith, dx, dy, c, s)]
        offset(arith, body, attractor, dx, dy) && squared(arith, dx, dy, d2) && strength(
            arith,
            attractor.mass,
            d2,
            r,
            f,
        ) && heading(arith, dx, dy, c, s) && arith.ensures((Op::Mul, f, c), p.a_x)
            && arith.ensures((Op::Mul, f, s), p.a_y) && p.captured == attractor.captures(d2)
}

/// `out` is `body` after `attractor` has acted on it: captured, it is the
/// attractor's trace; otherwise the pull is added to its velocity.
pub open spec fn forced<A: Fn(Op, u64, u64) -> u64>(
    arith: &A,
    r: u64,
    body: Body,
    attractor: Body,
    out: Body,
) -> bool {
    exists|p: Pull| #[trigger]
        pulls(arith, r, body, attractor, p) && if p.captured {
            out == body.captured_by(attractor)
        } else {
            &&& arith.ensures((Op::Add, body.v_x, p.a_x), out.v_x)
            &&& arith.ensures((Op::Add, body.v_y, p.a_y), out.v_y)
            &&& out == (Body { v_x: out.v_x, v_y: out.v_y, ..body })
        }
}

/// The integrator: advances the position by the current velocity, then damps
/// the velocity.
pub fn integrate<A: Fn(Op, u64, u64) -> u64>(arith: &A, body: &mut Body, r: u64)
    requires
        arith_total(arith),
    ensures
        integrated(arith, r, *old(body), *final(body)),
{
    let step_x = arith(Op::Div, body.v_x, r);
    let step_y = arith(Op::Div, body.v_y, r);
    body.x = arith(Op::Add, body.x, step_x);
    body.y = arith(Op::Add, body.y, step_y);
    body.v_x = arith(Op::Mul, body.v_x, DAMPING);
    body.v_y = arith(Op::Mul, body.v_y, DAMPING);
}

/// The force law of one attractor on one body.
pub fn force_law<A: Fn(Op, u64, u64) -> u64>(
    arith: &A,
    body: &Body,
    attractor: &Body,
    r: u64,
) -> (p: Pull)
    requires
        arith_total(arith),
    ensures
        pulls(arith, r, *body, *attractor, p),
{
    let delta_y = arith(Op::Sub, attractor.y, body.y);
    let delta_x = arith(Op::Sub, attractor.x, body.x);
    let xx = arith(Op::Mul, delta_x, delta_x);
    let yy = arith(Op::Mul, delta_y, delta_y);
    let dist_sq = arith(Op::Add, xx, yy);
    // f = m1m2/r^2
    let scaled = arith(Op::Mul, dist_sq, r);
    let denominator = arith(Op::Add, scaled, EPSILON);
    let force = arith(Op::Div, attractor.mass, denominator);
    let angle = arith(Op::Atan2, delta_y, delta_x);
    let c = arith(Op::Cos, angle, ZERO);
    let s = arith(Op::Sin, angle, ZERO);
    let p = Pull {
        a_x: arith(Op::Mul, force, c),
        a_y: arith(Op::Mul, force, s),
        captured: less_than(dist_sq, attractor.mass),
    };
    proof {
        assert(offset(arith, *body, *attractor, delta_x, delta_y));
        assert(squared(arith, delta_x, delta_y, dist_sq));
        assert(strength(arith, attractor.mass, dist_sq, r, force));
        assert(heading(arith, delta_x, delta_y, c, s));
    }
    p
}

/// Lets `body2` act on `body`: within the capture radius the body becomes a
/// trace of `body2`, anywhere else the pull is added to its velocity.
pub fn apply_force<A: Fn(Op, u64, u64) -> u64>(arith: &A, body: &mut Body, body2: &Body, r: u64)
    requires
        arith_total(arith),
    ensures
        forced(arith, r, *old(body), *body2, *final(body)),
{
    let p = force_law(arith, body, body2, r);
    if p.captured {
        body.pin(body2);
    } else {
        body.v_x = arith(Op::Add, body.v_x, p.a_x);
        body.v_y = arith(Op::Add, body.v_y, p.a_y);
    }
}

} // verus!
