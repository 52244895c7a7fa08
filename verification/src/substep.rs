//! One sub-step of one body against the attractor set.

use vstd::prelude::*;
use crate::body::Body;
use crate::kernel::{apply_force, forced, integrate, integrated, Pull, pulls};
use crate::scalar::{arith_total, Op};

verus! {

/// `out` is what `body` can become when the attractors from index `from` on
/// act on it in order, up to and with the first that captures it.
pub open spec fn attracted<A: Fn(Op, u64, u64) -> u64>(
    arith: &A,
    attractors: Seq<Body>,
    r: u64,
    from: int,
    body: Body,
    out: Body,
) -> bool
    decreases attractors.len() - from,
{
    if from < 0 || from >= attractors.len() || body.pinned {
        out == body
    } else {
        exists|next: Body| #[trigger]
            forced(arith, r, body, attractors[from], next) && attracted(
                arith,
                attractors,
                r,
                from + 1,
                next,
                out,
            )
    }
}

/// `out` is what `body` can become in one sub-step at the resolution `r`: a
/// pinned body stays as it is; a mobile one goes through the integrator, and
/// then the attractors act on it.
pub open spec fn substep_result<A: Fn(Op, u64, u64) -> u64>(
    arith: &A,
    attractors: Seq<Body>,
    r: u64,
    body: Body,
    out: Body,
) -> bool {
    if body.pinned {
        out == body
    } else {
        exists|moved: Body| #[trigger]
            integrated(arith, r, body, moved) && attracted(arith, attractors, r, 0, moved, out)
    }
}

/// Runs one sub-step on one body.
pub fn substep_body<A: Fn(Op, u64, u64) -> u64>(
    arith: &A,
    body: Body,
    attractors: &Vec<Body>,
    r: u64,
) -> (out: Body)
    requires
        arith_total(arith),
    ensures
        substep_result(arith, attractors@, r, body, out),
{
    if body.pinned {
        return body;
    }
    let mut cur = body;
    integrate(arith, &mut cur, r);
    let ghost moved = cur;
    let mut i: usize = 0;
    while i < attractors.len() && !cur.pinned
        invariant
            i <= attractors.len(),
            arith_total(arith),
            forall|out: Body|
                attracted(arith, attractors@, r, i as int, cur, out) ==> attracted(
                    arith,
                    attractors@,
                    r,
                    0,
                    moved,
                    out,
                ),
        decreases attractors.len() - i,
    {
        let ghost before = cur;
        apply_force(arith, &mut cur, &attractors[i], r);
        assert forall|out: Body|
            attracted(arith, attractors@, r, i + 1, cur, out) implies attracted(
            arith,
            attractors@,
            r,
            i as int,
            before,
            out,
        ) by {
            assert(forced(arith, r, before, attractors@[i as int], cur));
        }
        i += 1;
    }
    assert(attracted(arith, attractors@, r, i as int, cur, cur));
    cur
}

/// What holds of every outcome of one attractor acting on a body: either the
/// body is the attractor's trace, or only its velocity has changed.
pub proof fn lemma_forced_outcome<A: Fn(Op, u64, u64) -> u64>(
    arith: &A,
    r: u64,
    body: Body,
    attractor: Body,
    out: Body,
)
    requires
        forced(arith, r, body, attractor, out),
    ensures
        out == body.captured_by(attractor) || out == (Body {
            v_x: out.v_x,
            v_y: out.v_y,
            ..body
        }),
{
    let p = choose|p: Pull| #[trigger]
        pulls(arith, r, body, attractor, p) && if p.captured {
            out == body.captured_by(attractor)
        } else {
            &&& arith.ensures((Op::Add, body.v_x, p.a_x), out.v_x)
            &&& arith.ensures((Op::Add, body.v_y, p.a_y), out.v_y)
            &&& out == (Body { v_x: out.v_x, v_y: out.v_y, ..body })
        };
}

/// What holds of every outcome of the attractors acting on a mobile body:
/// spawn position and mass are kept; a body that is still mobile has its
/// position and tag unchanged; a body that came out pinned is a trace tagged by
/// one of the attractors that acted.
pub proof fn lemma_attracted_outcome<A: Fn(Op, u64, u64) -> u64>(
    arith: &A,
    attractors: Seq<Body>,
    r: u64,
    from: int,
    body: Body,
    out: Body,
)
    requires
        !body.pinned,
        attracted(arith, attractors, r, from, body, out),
    ensures
        out.init_x == body.init_x,
        out.init_y == body.init_y,
        out.mass == body.mass,
        !out.pinned ==> out.x == body.x && out.y == body.y && out.color_index == body.color_index,
        out.pinned ==> out.is_trace() && exists|k: int|
            from <= k < attractors.len() && out.color_index == (#[trigger] attractors[k]).color_index,
    decreases attractors.len() - from,
{
    if from < 0 || from >= attractors.len() {
    } else {
        let next = choose|next: Body| #[trigger]
            forced(arith, r, body, attractors[from], next) && attracted(
                arith,
                attractors,
                r,
                from + 1,
                next,
                out,
            );
        lemma_forced_outcome(arith, r, body, attractors[from], next);
        if next.pinned {
            assert(out == next);
            assert(out.color_index == attractors[from].color_index);
        } else {
            lemma_attracted_outcome(arith, attractors, r, from + 1, next, out);
            if out.pinned {
                let k = choose|k: int|
                    from + 1 <= k < attractors.len() && out.color_index == (
                    #[trigger] attractors[k]).color_index;
                assert(from <= k < attractors.len());
            }
        }
    }
}

/// What holds of every outcome of one sub-step of a mobile body: spawn
/// position and mass are kept; a body that is still mobile keeps its tag; a
/// body that came out pinned is a trace tagged by one of the attractors.
pub proof fn lemma_substep_outcome<A: Fn(Op, u64, u64) -> u64>(
    arith: &A,
    attractors: Seq<Body>,
    r: u64,
    body: Body,
    out: Body,
)
    requires
        !body.pinned,
        substep_result(arith, attractors, r, body, out),
    ensures
        out.init_x == body.init_x,
        out.init_y == body.init_y,
        out.mass == body.mass,
        !out.pinned ==> out.color_index == body.color_index,
        out.pinned ==> out.is_trace() && exists|k: int|
            0 <= k < attractors.len() && out.color_index == (#[trigger] attractors[k]).color_index,
{
    let moved = choose|moved: Body| #[trigger]
        integrated(arith, r, body, moved) && attracted(arith, attractors, r, 0, moved, out);
    lemma_attracted_outcome(arith, attractors, r, 0, moved, out);
}

} // verus!
