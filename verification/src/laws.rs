//! Laws of the engine, stated over the relations that its contracts use.

use vstd::prelude::*;
use crate::body::Body;
use crate::kernel::{drifted, forced, heading, integrated, offset, pulls, squared, strength, Pull};
use crate::scalar::{arith_deterministic, scalar_of, Op, INFINITY, SIGN, ZERO};
use crate::scheduler::{
    all_mobile,
    lemma_ran_outcome,
    lemma_split_mobile,
    newly_pinned,
    ran,
    still_mobile,
    substepped,
    tagged_by,
};
use crate::simulation::{all_released, stepped, SimulationView};
use crate::substep::{attracted, lemma_substep_outcome, substep_result};

verus! {

/// `b` is a state of the particle `body`: it has the same spawn position,
/// mass and tag.
pub open spec fn same_particle(b: Body, body: Body) -> bool {
    &&& b.init_x == body.init_x
    &&& b.init_y == body.init_y
    &&& b.mass == body.mass
    &&& b.color_index == body.color_index
}

/// `d2` is a result of the squared distance from `body` to `attractor`.
pub open spec fn distance_squared<A: Fn(Op, u64, u64) -> u64>(
    arith: &A,
    body: Body,
    attractor: Body,
    d2: u64,
) -> bool {
    exists|dx: u64, dy: u64| #[trigger]
        offset(arith, body, attractor, dx, dy) && squared(arith, dx, dy, d2)
}

/// Wherever the particle `body` is, no squared distance from it to any of
/// `attractors` lies within that attractor's capture radius.
pub open spec fn never_within_radius<A: Fn(Op, u64, u64) -> u64>(
    arith: &A,
    attractors: Seq<Body>,
    body: Body,
) -> bool {
    forall|b: Body, k: int, d2: u64|
        0 <= k < attractors.len() && same_particle(b, body) && #[trigger] distance_squared(
            arith,
            b,
            attractors[k],
            d2,
        ) ==> !attractors[k].captures(d2)
}

/// A body that coincides with an attractor of positive mass lies within its
/// capture radius, whichever zero the squared distance is.
pub proof fn lemma_capture_on_coincidence(attractor: Body)
    requires
        0 < attractor.mass <= INFINITY,
    ensures
        attractor.captures(ZERO),
        attractor.captures(SIGN),
{
}

/// An attractor acts on a body by its squared distance: within the capture
/// radius the body becomes the attractor's trace, anywhere else only its
/// velocity changes.
pub proof fn lemma_forced_by_distance<A: Fn(Op, u64, u64) -> u64>(
    arith: &A,
    r: u64,
    body: Body,
    attractor: Body,
    out: Body,
)
    requires
        forced(arith, r, body, attractor, out),
    ensures
        exists|d2: u64| #[trigger]
            distance_squared(arith, body, attractor, d2) && if attractor.captures(d2) {
                out == body.captured_by(attractor)
            } else {
                out == (Body { v_x: out.v_x, v_y: out.v_y, ..body })
            },
{
    let p = choose|p: Pull| #[trigger]
        pulls(arith, r, body, attractor, p) && if p.captured {
            out == body.captured_by(attractor)
        } else {
            &&& arith.ensures((Op::Add, body.v_x, p.a_x), out.v_x)
            &&& arith.ensures((Op::Add, body.v_y, p.a_y), out.v_y)
            &&& out == (Body { v_x: out.v_x, v_y: out.v_y, ..body })
        };
    let (dx, dy, d2, f, c, s) = witnesses(arith, r, body, attractor, p);
    assert(distance_squared(arith, body, attractor, d2));
}

/// The intermediate values of a result of the force law: the offset, the
/// squared distance, the strength and the heading.
pub open spec fn witnesses<A: Fn(Op, u64, u64) -> u64>(
    arith: &A,
    r: u64,
    body: Body,
    attractor: Body,
    p: Pull,
) -> (u64, u64, u64, u64, u64, u64) {
    choose|dx: u64, dy: u64, d2: u64, f: u64, c: u64, s: u64|
        #![trigger offset(arith, body, attractor, dx, dy), squared(arith, dx, dy, d2), strength(arith, attractor.mass, d2, r, f), heading(arith, dx, dy, c, s)]
        offset(arith, body, attractor, dx, dy) && squared(arith, dx, dy, d2) && strength(
            arith,
            attractor.mass,
            d2,
            r,
            f,
        ) && heading(arith, dx, dy, c, s) && arith.ensures((Op::Mul, f, c), p.a_x)
            && arith.ensures((Op::Mul, f, s), p.a_y) && p.captured == attractor.captures(d2)
}

/// The first attractor in iteration order that has the body within its
/// capture radius captures it: the body comes out as a trace at its spawn
/// position, at rest, with that attractor's tag, whatever the attractors after
/// it would have done.
pub proof fn lemma_first_capture_wins<A: Fn(Op, u64, u64) -> u64>(
    arith: &A,
    attractors: Seq<Body>,
    r: u64,
    from: int,
    k: int,
    body: Body,
    out: Body,
)
    requires
        !body.pinned,
        0 <= from <= k < attractors.len(),
        attracted(arith, attractors, r, from, body, out),
        forall|b: Body, j: int, d2: u64|
            from <= j < k && b.x == body.x && b.y == body.y && #[trigger] distance_squared(
                arith,
                b,
                attractors[j],
                d2,
            ) ==> !attractors[j].captures(d2),
        forall|b: Body, d2: u64|
            b.x == body.x && b.y == body.y && #[trigger] distance_squared(
                arith,
                b,
                attractors[k],
                d2,
            ) ==> attractors[k].captures(d2),
    ensures
        out == body.captured_by(attractors[k]),
        out.is_trace(),
        out.color_index == attractors[k].color_index,
    decreases k - from,
{
    let next = choose|next: Body| #[trigger]
        forced(arith, r, body, attractors[from], next) && attracted(
            arith,
            attractors,
            r,
            from + 1,
            next,
            out,
        );
    lemma_forced_by_distance(arith, r, body, attractors[from], next);
    if from < k {
        lemma_first_capture_wins(arith, attractors, r, from + 1, k, next, out);
    }
}

/// A mobile particle that never comes within a capture radius is still
/// mobile after the sub-step, and still the same particle.
pub proof fn lemma_uncaptured_stays_mobile<A: Fn(Op, u64, u64) -> u64>(
    arith: &A,
    attractors: Seq<Body>,
    r: u64,
    body: Body,
    out: Body,
)
    requires
        !body.pinned,
        never_within_radius(arith, attractors, body),
        substep_result(arith, attractors, r, body, out),
    ensures
        !out.pinned,
        same_particle(out, body),
{
    let moved = choose|moved: Body| #[trigger]
        integrated(arith, r, body, moved) && attracted(arith, attractors, r, 0, moved, out);
    lemma_uncaptured_attracted(arith, attractors, r, 0, moved, out);
    lemma_substep_outcome(arith, attractors, r, body, out);
}

proof fn lemma_uncaptured_attracted<A: Fn(Op, u64, u64) -> u64>(
    arith: &A,
    attractors: Seq<Body>,
    r: u64,
    from: int,
    body: Body,
    out: Body,
)
    requires
        !body.pinned,
        0 <= from,
        never_within_radius(arith, attractors, body),
        attracted(arith, attractors, r, from, body, out),
    ensures
        !out.pinned,
    decreases attractors.len() - from,
{
    if from < attractors.len() {
        let next = choose|next: Body| #[trigger]
            forced(arith, r, body, attractors[from], next) && attracted(
                arith,
                attractors,
                r,
                from + 1,
                next,
                out,
            );
        lemma_forced_by_distance(arith, r, body, attractors[from], next);
        assert(same_particle(body, body));
        lemma_uncaptured_attracted(arith, attractors, r, from + 1, next, out);
    }
}

/// With a deterministic arithmetic the integrator has one result.
pub proof fn lemma_integrated_deterministic<A: Fn(Op, u64, u64) -> u64>(
    arith: &A,
    r: u64,
    body: Body,
    out1: Body,
    out2: Body,
)
    requires
        arith_deterministic(arith),
        integrated(arith, r, body, out1),
        integrated(arith, r, body, out2),
    ensures
        out1 == out2,
{
    lemma_drifted_deterministic(arith, body.x, body.v_x, r, out1.x, out2.x);
    lemma_drifted_deterministic(arith, body.y, body.v_y, r, out1.y, out2.y);
}

proof fn lemma_drifted_deterministic<A: Fn(Op, u64, u64) -> u64>(
    arith: &A,
    position: u64,
    velocity: u64,
    r: u64,
    out1: u64,
    out2: u64,
)
    requires
        arith_deterministic(arith),
        drifted(arith, position, velocity, r, out1),
        drifted(arith, position, velocity, r, out2),
    ensures
        out1 == out2,
{
}

proof fn lemma_squared_deterministic<A: Fn(Op, u64, u64) -> u64>(
    arith: &A,
    dx: u64,
    dy: u64,
    out1: u64,
    out2: u64,
)
    requires
        arith_deterministic(arith),
        squared(arith, dx, dy, out1),
        squared(arith, dx, dy, out2),
    ensures
        out1 == out2,
{
}

proof fn lemma_strength_deterministic<A: Fn(Op, u64, u64) -> u64>(
    arith: &A,
    mass: u64,
    d2: u64,
    r: u64,
    out1: u64,
    out2: u64,
)
    requires
        arith_deterministic(arith),
        strength(arith, mass, d2, r, out1),
        strength(arith, mass, d2, r, out2),
    ensures
        out1 == out2,
{
}

proof fn lemma_heading_deterministic<A: Fn(Op, u64, u64) -> u64>(
    arith: &A,
    dx: u64,
    dy: u64,
    c1: u64,
    s1: u64,
    c2: u64,
    s2: u64,
)
    requires
        arith_deterministic(arith),
        heading(arith, dx, dy, c1, s1),
        heading(arith, dx, dy, c2, s2),
    ensures
        c1 == c2,
        s1 == s2,
{
}

/// With a deterministic arithmetic the force law has one result.
pub proof fn lemma_pulls_deterministic<A: Fn(Op, u64, u64) -> u64>(
    arith: &A,
    r: u64,
    body: Body,
    attractor: Body,
    pull1: Pull,
    pull2: Pull,
)
    requires
        arith_deterministic(arith),
        pulls(arith, r, body, attractor, pull1),
        pulls(arith, r, body, attractor, pull2),
    ensures
        pull1 == pull2,
{
    let (dx1, dy1, d1, f1, c1, s1) = witnesses(arith, r, body, attractor, pull1);
    let (dx2, dy2, d2, f2, c2, s2) = witnesses(arith, r, body, attractor, pull2);
    assert(dx1 == dx2 && dy1 == dy2);
    lemma_squared_deterministic(arith, dx1, dy1, d1, d2);
    lemma_strength_deterministic(arith, attractor.mass, d1, r, f1, f2);
    lemma_heading_deterministic(arith, dx1, dy1, c1, s1, c2, s2);
}

/// With a deterministic arithmetic an attractor acts on a body in one way.
pub proof fn lemma_forced_deterministic<A: Fn(Op, u64, u64) -> u64>(
    arith: &A,
    r: u64,
    body: Body,
    attractor: Body,
    out1: Body,
    out2: Body,
)
    requires
        arith_deterministic(arith),
        forced(arith, r, body, attractor, out1),
        forced(arith, r, body, attractor, out2),
    ensures
        out1 == out2,
{
    let pull1 = choose|p: Pull| #[trigger]
        pulls(arith, r, body, attractor, p) && if p.captured {
            out1 == body.captured_by(attractor)
        } else {
            &&& arith.ensures((Op::Add, body.v_x, p.a_x), out1.v_x)
            &&& arith.ensures((Op::Add, body.v_y, p.a_y), out1.v_y)
            &&& out1 == (Body { v_x: out1.v_x, v_y: out1.v_y, ..body })
        };
    let pull2 = choose|p: Pull| #[trigger]
        pulls(arith, r, body, attractor, p) && if p.captured {
            out2 == body.captured_by(attractor)
        } else {
            &&& arith.ensures((Op::Add, body.v_x, p.a_x), out2.v_x)
            &&& arith.ensures((Op::Add, body.v_y, p.a_y), out2.v_y)
            &&& out2 == (Body { v_x: out2.v_x, v_y: out2.v_y, ..body })
        };
    lemma_pulls_deterministic(arith, r, body, attractor, pull1, pull2);
}

/// With a deterministic arithmetic the attractors act on a body in one way.
pub proof fn lemma_attracted_deterministic<A: Fn(Op, u64, u64) -> u64>(
    arith: &A,
    attractors: Seq<Body>,
    r: u64,
    from: int,
    body: Body,
    out1: Body,
    out2: Body,
)
    requires
        arith_deterministic(arith),
        attracted(arith, attractors, r, from, body, out1),
        attracted(arith, attractors, r, from, body, out2),
    ensures
        out1 == out2,
    decreases attractors.len() - from,
{
    if from < 0 || from >= attractors.len() || body.pinned {
    } else {
        let next1 = choose|next: Body| #[trigger]
            forced(arith, r, body, attractors[from], next) && attracted(
                arith,
                attractors,
                r,
                from + 1,
                next,
                out1,
            );
        let next2 = choose|next: Body| #[trigger]
            forced(arith, r, body, attractors[from], next) && attracted(
                arith,
                attractors,
                r,
                from + 1,
                next,
                out2,
            );
        lemma_forced_deterministic(arith, r, body, attractors[from], next1, next2);
        lemma_attracted_deterministic(arith, attractors, r, from + 1, next1, out1, out2);
    }
}

/// With a deterministic arithmetic one sub-step of a body has one outcome.
pub proof fn lemma_substep_deterministic<A: Fn(Op, u64, u64) -> u64>(
    arith: &A,
    attractors: Seq<Body>,
    r: u64,
    body: Body,
    out1: Body,
    out2: Body,
)
    requires
        arith_deterministic(arith),
        substep_result(arith, attractors, r, body, out1),
        substep_result(arith, attractors, r, body, out2),
    ensures
        out1 == out2,
{
    if !body.pinned {
        let moved1 = choose|moved: Body| #[trigger]
            integrated(arith, r, body, moved) && attracted(arith, attractors, r, 0, moved, out1);
        let moved2 = choose|moved: Body| #[trigger]
            integrated(arith, r, body, moved) && attracted(arith, attractors, r, 0, moved, out2);
        lemma_integrated_deterministic(arith, r, body, moved1, moved2);
        lemma_attracted_deterministic(arith, attractors, r, 0, moved1, out1, out2);
    }
}

/// The outcomes, body by body, of the first sub-step of a run of `n > 0`
/// sub-steps.
pub open spec fn outcomes<A: Fn(Op, u64, u64) -> u64>(
    arith: &A,
    attractors: Seq<Body>,
    r: u64,
    n: nat,
    store: Seq<Body>,
    archive: Seq<Body>,
    mobile: Seq<Body>,
    pinned: Seq<Body>,
) -> Seq<Body> {
    choose|outs: Seq<Body>| #[trigger]
        substepped(arith, attractors, r, store, outs) && ran(
            arith,
            attractors,
            r,
            (n - 1) as nat,
            still_mobile(outs),
            archive + newly_pinned(outs),
            mobile,
            pinned,
        )
}

/// With a deterministic arithmetic a run of the scheduler has one outcome.
pub proof fn lemma_run_deterministic<A: Fn(Op, u64, u64) -> u64>(
    arith: &A,
    attractors: Seq<Body>,
    r: u64,
    n: nat,
    store: Seq<Body>,
    archive: Seq<Body>,
    mobile1: Seq<Body>,
    pinned1: Seq<Body>,
    mobile2: Seq<Body>,
    pinned2: Seq<Body>,
)
    requires
        arith_deterministic(arith),
        ran(arith, attractors, r, n, store, archive, mobile1, pinned1),
        ran(arith, attractors, r, n, store, archive, mobile2, pinned2),
    ensures
        mobile1 == mobile2,
        pinned1 == pinned2,
    decreases n,
{
    if n > 0 {
        let outs1 = outcomes(arith, attractors, r, n, store, archive, mobile1, pinned1);
        let outs2 = outcomes(arith, attractors, r, n, store, archive, mobile2, pinned2);
        assert forall|i: int| 0 <= i < outs1.len() implies outs1[i] == outs2[i] by {
            lemma_substep_deterministic(arith, attractors, r, store[i], outs1[i], outs2[i]);
        }
        assert(outs1 =~= outs2);
        lemma_run_deterministic(
            arith,
            attractors,
            r,
            (n - 1) as nat,
            still_mobile(outs1),
            archive + newly_pinned(outs1),
            mobile1,
            pinned1,
            mobile2,
            pinned2,
        );
    }
}

/// With a deterministic arithmetic, `n` sub-steps of a simulation have one
/// outcome: the engine adds no randomness of its own.
pub proof fn lemma_step_deterministic<A: Fn(Op, u64, u64) -> u64>(
    arith: &A,
    res: u32,
    n: nat,
    pre: SimulationView,
    post1: SimulationView,
    post2: SimulationView,
)
    requires
        arith_deterministic(arith),
        stepped(arith, res, n, pre, post1),
        stepped(arith, res, n, pre, post2),
    ensures
        post1 == post2,
{
    let r1 = scalar_of(res);
    lemma_run_deterministic(
        arith,
        pre.attractors,
        r1,
        n,
        pre.mobile,
        pre.pinned,
        post1.mobile,
        post1.pinned,
        post2.mobile,
        post2.pinned,
    );
}

/// Any number of sub-steps keeps a consistent simulation consistent: no
/// pinned body is left in the particle store, every archived body is a trace,
/// and the two stores together hold as many particles as before. The archive
/// only grows, and every body added to it carries the tag of an attractor.
pub proof fn lemma_step_outcome<A: Fn(Op, u64, u64) -> u64>(
    arith: &A,
    res: u32,
    n: nat,
    pre: SimulationView,
    post: SimulationView,
)
    requires
        pre.wf(),
        stepped(arith, res, n, pre, post),
    ensures
        post.wf(),
        post.attractors == pre.attractors,
        post.spawned == pre.spawned,
        post.mobile.len() + post.pinned.len() == pre.mobile.len() + pre.pinned.len(),
        pre.pinned.is_prefix_of(post.pinned),
        forall|j: int|
            pre.pinned.len() <= j < post.pinned.len() ==> tagged_by(
                #[trigger] post.pinned[j],
                pre.attractors,
            ),
{
    let r = scalar_of(res);
    lemma_ran_outcome(
        arith,
        pre.attractors,
        r,
        n,
        pre.mobile,
        pre.pinned,
        post.mobile,
        post.pinned,
    );
    assert forall|j: int| 0 <= j < post.pinned.len() implies (#[trigger] post.pinned[j]).is_trace() by {
        if j < pre.pinned.len() {
            assert(post.pinned[j] == pre.pinned[j]);
        }
    }
}

/// Particles that never come within a capture radius remain mobile through
/// any run of the scheduler: nothing is added to the archive, and the store
/// holds the same particles at the same places.
pub proof fn lemma_run_without_capture<A: Fn(Op, u64, u64) -> u64>(
    arith: &A,
    attractors: Seq<Body>,
    r: u64,
    n: nat,
    store: Seq<Body>,
    archive: Seq<Body>,
    mobile: Seq<Body>,
    pinned: Seq<Body>,
)
    requires
        all_mobile(store),
        forall|i: int|
            0 <= i < store.len() ==> never_within_radius(arith, attractors, #[trigger] store[i]),
        ran(arith, attractors, r, n, store, archive, mobile, pinned),
    ensures
        pinned == archive,
        mobile.len() == store.len(),
        forall|i: int|
            0 <= i < store.len() ==> !(#[trigger] mobile[i]).pinned && same_particle(
                mobile[i],
                store[i],
            ),
    decreases n,
{
    if n > 0 {
        let outs = outcomes(arith, attractors, r, n, store, archive, mobile, pinned);
        assert forall|i: int| 0 <= i < outs.len() implies !(#[trigger] outs[i]).pinned
            && same_particle(outs[i], store[i]) by {
            lemma_uncaptured_stays_mobile(arith, attractors, r, store[i], outs[i]);
        }
        lemma_split_mobile(outs);
        assert(archive + newly_pinned(outs) =~= archive);
        assert forall|i: int| 0 <= i < outs.len() implies never_within_radius(
            arith,
            attractors,
            #[trigger] outs[i],
        ) by {
            assert(never_within_radius(arith, attractors, store[i]));
            assert(same_particle(outs[i], store[i]));
        }
        lemma_run_without_capture(arith, attractors, r, (n - 1) as nat, outs, archive, mobile, pinned);
    }
}

/// Particles that never come within a capture radius remain mobile through
/// any number of sub-steps: the archive stays as it is, and the particle store
/// holds the same particles at the same places.
pub proof fn lemma_step_without_capture<A: Fn(Op, u64, u64) -> u64>(
    arith: &A,
    res: u32,
    n: nat,
    pre: SimulationView,
    post: SimulationView,
)
    requires
        pre.wf(),
        forall|i: int|
            0 <= i < pre.mobile.len() ==> never_within_radius(
                arith,
                pre.attractors,
                #[trigger] pre.mobile[i],
            ),
        stepped(arith, res, n, pre, post),
    ensures
        post.pinned == pre.pinned,
        post.mobile.len() == pre.mobile.len(),
        forall|i: int|
            0 <= i < pre.mobile.len() ==> !(#[trigger] post.mobile[i]).pinned && same_particle(
                post.mobile[i],
                pre.mobile[i],
            ),
{
    let r = scalar_of(res);
    lemma_run_without_capture(
        arith,
        pre.attractors,
        r,
        n,
        pre.mobile,
        pre.pinned,
        post.mobile,
        post.pinned,
    );
}

/// Releasing twice is releasing once: after a release the archive is empty,
/// and a release with an empty archive changes nothing.
pub proof fn lemma_release_idempotent(v: SimulationView)
    ensures
        v.released().released() == v.released(),
        v.released().pinned.len() == 0,
{
    assert(all_released(Seq::<Body>::empty()) =~= Seq::<Body>::empty());
    assert(v.released().mobile + Seq::<Body>::empty() =~= v.released().mobile);
}

/// A release keeps a consistent simulation consistent, and with it the
/// number of particles.
pub proof fn lemma_release_outcome(v: SimulationView)
    requires
        v.wf(),
    ensures
        v.released().wf(),
        v.released().spawned == v.spawned,
        v.released().mobile.len() == v.mobile.len() + v.pinned.len(),
{
}

/// A call that changes a seeded simulation.
pub enum Call {
    Step { sub_steps: u32, res: u32 },
    Spawn { x: u64, y: u64, v_x: u64, v_y: u64, mass: u64, color_index: u8 },
    Release,
}

/// `post` is what `pre` can become by `call`.
pub open spec fn called<A: Fn(Op, u64, u64) -> u64>(
    arith: &A,
    call: Call,
    pre: SimulationView,
    post: SimulationView,
) -> bool {
    match call {
        Call::Step { sub_steps, res } => stepped(arith, res, sub_steps as nat, pre, post),
        Call::Spawn { x, y, v_x, v_y, mass, color_index } => post == pre.with_particle(
            x,
            y,
            v_x,
            v_y,
            mass,
            color_index,
        ),
        Call::Release => post == pre.released(),
    }
}

/// `post` is what `pre` can become by `calls`, made in order.
pub open spec fn called_all<A: Fn(Op, u64, u64) -> u64>(
    arith: &A,
    calls: Seq<Call>,
    pre: SimulationView,
    post: SimulationView,
) -> bool
    decreases calls.len(),
{
    if calls.len() == 0 {
        post == pre
    } else {
        exists|mid: SimulationView| #[trigger]
            called(arith, calls[0], pre, mid) && called_all(
                arith,
                calls.drop_first(),
                mid,
                post,
            )
    }
}

/// How many of `calls` spawn a particle.
pub open spec fn spawns(calls: Seq<Call>) -> nat
    decreases calls.len(),
{
    if calls.len() == 0 {
        0
    } else {
        spawns(calls.drop_first()) + if calls[0] is Spawn {
            1nat
        } else {
            0nat
        }
    }
}

/// No particle is lost or duplicated: after any sequence of steps, spawns and
/// releases the two stores together hold the particles that were there
/// before and one more for each spawn, which is the number of particles
/// seeded and spawned so far.
pub proof fn lemma_count_conserved<A: Fn(Op, u64, u64) -> u64>(
    arith: &A,
    calls: Seq<Call>,
    pre: SimulationView,
    post: SimulationView,
)
    requires
        pre.wf(),
        called_all(arith, calls, pre, post),
    ensures
        post.wf(),
        post.mobile.len() + post.pinned.len() == pre.mobile.len() + pre.pinned.len() + spawns(
            calls,
        ),
        post.mobile.len() + post.pinned.len() == post.spawned,
        post.attractors == pre.attractors,
    decreases calls.len(),
{
    if calls.len() > 0 {
        let mid = choose|mid: SimulationView| #[trigger]
            called(arith, calls[0], pre, mid) && called_all(
                arith,
                calls.drop_first(),
                mid,
                post,
            );
        match calls[0] {
            Call::Step { sub_steps, res } => {
                lemma_step_outcome(arith, res, sub_steps as nat, pre, mid);
            },
            Call::Spawn { x, y, v_x, v_y, mass, color_index } => {},
            Call::Release => {
                lemma_release_outcome(pre);
            },
        }
        lemma_count_conserved(arith, calls.drop_first(), mid, post);
    }
}

} // verus!
