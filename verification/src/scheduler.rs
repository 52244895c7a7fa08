//! The step scheduler: sub-steps over a whole particle store, each followed by
//! the split into bodies that are still mobile and bodies that were pinned.

use vstd::prelude::*;
use crate::body::Body;
use crate::parallel::par_substep;
use crate::scalar::{arith_total, from_count, scalar_of, Op};
use crate::substep::{lemma_substep_outcome, substep_result};

verus! {

/// The bodies of `bodies` that are not pinned, in order.
pub open spec fn still_mobile(bodies: Seq<Body>) -> Seq<Body> {
    bodies.filter(|b: Body| !b.pinned)
}

/// The bodies of `bodies` that are pinned, in order.
pub open spec fn newly_pinned(bodies: Seq<Body>) -> Seq<Body> {
    bodies.filter(|b: Body| b.pinned)
}

/// Every body of `bodies` is mobile.
pub open spec fn all_mobile(bodies: Seq<Body>) -> bool {
    forall|i: int| 0 <= i < bodies.len() ==> !(#[trigger] bodies[i]).pinned
}

/// Every body of `bodies` is a trace.
pub open spec fn all_traces(bodies: Seq<Body>) -> bool {
    forall|i: int| 0 <= i < bodies.len() ==> (#[trigger] bodies[i]).is_trace()
}

/// `body` carries the tag of one of `attractors`.
pub open spec fn tagged_by(body: Body, attractors: Seq<Body>) -> bool {
    exists|k: int|
        0 <= k < attractors.len() && body.color_index == (#[trigger] attractors[k]).color_index
}

/// `outs` holds, index by index, an outcome of one sub-step of each body of
/// `bodies`.
pub open spec fn substepped<A: Fn(Op, u64, u64) -> u64>(
    arith: &A,
    attractors: Seq<Body>,
    r: u64,
    bodies: Seq<Body>,
    outs: Seq<Body>,
) -> bool {
    &&& outs.len() == bodies.len()
    &&& forall|i: int|
        0 <= i < bodies.len() ==> substep_result(
            arith,
            attractors,
            r,
            bodies[i],
            #[trigger] outs[i],
        )
}

/// `mobile` and `pinned` are what the particle store `store` and the archive
/// `archive` can become in `n` sub-steps. Each sub-step takes every body of the
/// store through a sub-step of its own; the outcomes that are still mobile, in
/// order, are the store of the next sub-step, and the pinned ones, in order,
/// are appended to the archive.
pub open spec fn ran<A: Fn(Op, u64, u64) -> u64>(
    arith: &A,
    attractors: Seq<Body>,
    r: u64,
    n: nat,
    store: Seq<Body>,
    archive: Seq<Body>,
    mobile: Seq<Body>,
    pinned: Seq<Body>,
) -> bool
    decreases n,
{
    if n == 0 {
        mobile == store && pinned == archive
    } else {
        exists|outs: Seq<Body>| #[trigger]
            substepped(arith, attractors, r, store, outs) && ran(
                arith,
                attractors,
                r,
                (n - 1) as nat,
                still_mobile(outs),
                archive + newly_pinned(outs),
                mobile,
                pinned,
            )
    }
}

/// Splits `bodies` into the mobile and the pinned ones, keeping their order.
pub fn partition(bodies: &Vec<Body>) -> (parts: (Vec<Body>, Vec<Body>))
    ensures
        parts.0@ == still_mobile(bodies@),
        parts.1@ == newly_pinned(bodies@),
{
    let mut mobile: Vec<Body> = Vec::new();
    let mut pinned: Vec<Body> = Vec::new();
    let mut i: usize = 0;
    proof {
        reveal(Seq::filter);
        assert(bodies@.take(0) =~= Seq::empty());
    }
    while i < bodies.len()
        invariant
            i <= bodies.len(),
            mobile@ == still_mobile(bodies@.take(i as int)),
            pinned@ == newly_pinned(bodies@.take(i as int)),
        decreases bodies.len() - i,
    {
        let body = bodies[i];
        proof {
            reveal(Seq::filter);
            assert(bodies@.take(i + 1).drop_last() =~= bodies@.take(i as int));
            assert(bodies@.take(i + 1).last() == body);
        }
        if body.pinned {
            pinned.push(body);
        } else {
            mobile.push(body);
        }
        i += 1;
    }
    proof {
        assert(bodies@.take(i as int) =~= bodies@);
    }
    (mobile, pinned)
}

/// Runs `sub_steps` sub-steps on `particle_store` against `attractor_set`, at
/// the resolution `res`, which the kernel reads as a scalar. Returns the
/// bodies that are still mobile and the bodies that were pinned, the earliest
/// capture first.
pub fn run<A>(
    arith: &A,
    particle_store: Vec<Body>,
    attractor_set: &Vec<Body>,
    sub_steps: u32,
    res: u32,
) -> (parts: (Vec<Body>, Vec<Body>)) where A: Fn(Op, u64, u64) -> u64 + Sync
    requires
        arith_total(arith),
    ensures
        ran(
            arith,
            attractor_set@,
            scalar_of(res),
            sub_steps as nat,
            particle_store@,
            Seq::empty(),
            parts.0@,
            parts.1@,
        ),
{
    let r = from_count(res);
    let ghost total = sub_steps as nat;
    let mut mobile = particle_store;
    let mut pinned: Vec<Body> = Vec::new();
    let mut k: u32 = 0;
    while k < sub_steps
        invariant
            k <= sub_steps,
            total == sub_steps,
            arith_total(arith),
            forall|m: Seq<Body>, p: Seq<Body>|
                ran(
                    arith,
                    attractor_set@,
                    r,
                    (sub_steps - k) as nat,
                    mobile@,
                    pinned@,
                    m,
                    p,
                ) ==> #[trigger] ran(
                    arith,
                    attractor_set@,
                    r,
                    total,
                    particle_store@,
                    Seq::empty(),
                    m,
                    p,
                ),
        decreases sub_steps - k,
    {
        let ghost store = mobile@;
        let ghost archive = pinned@;
        let outs = par_substep(arith, &mobile, attractor_set, r);
        let (still, mut newly) = partition(&outs);
        mobile = still;
        pinned.append(&mut newly);
        proof {
            let rest = (sub_steps - (k + 1)) as nat;
            assert forall|m: Seq<Body>, p: Seq<Body>| #[trigger]
                ran(arith, attractor_set@, r, rest, mobile@, pinned@, m, p) implies ran(
                arith,
                attractor_set@,
                r,
                rest + 1,
                store,
                archive,
                m,
                p,
            ) by {
                assert(substepped(arith, attractor_set@, r, store, outs@));
            }
        }
        k += 1;
    }
    (mobile, pinned)
}

/// Splitting loses and adds nothing: every body is in exactly one part, the
/// mobile part holds mobile bodies only and the pinned part pinned ones only.
pub proof fn lemma_split(outs: Seq<Body>)
    ensures
        still_mobile(outs).len() + newly_pinned(outs).len() == outs.len(),
        forall|j: int|
            0 <= j < still_mobile(outs).len() ==> !(#[trigger] still_mobile(outs)[j]).pinned
                && outs.contains(still_mobile(outs)[j]),
        forall|j: int|
            0 <= j < newly_pinned(outs).len() ==> (#[trigger] newly_pinned(outs)[j]).pinned
                && outs.contains(newly_pinned(outs)[j]),
    decreases outs.len(),
{
    reveal(Seq::filter);
    if outs.len() > 0 {
        let front = outs.drop_last();
        lemma_split(front);
        assert(outs.contains(outs.last()));
        assert forall|j: int| 0 <= j < still_mobile(outs).len() implies !(#[trigger] still_mobile(
            outs,
        )[j]).pinned && outs.contains(still_mobile(outs)[j]) by {
            if j < still_mobile(front).len() {
                let b = still_mobile(front)[j];
                let i = choose|i: int| 0 <= i < front.len() && front[i] == b;
                assert(outs[i] == b);
            }
        }
        assert forall|j: int| 0 <= j < newly_pinned(outs).len() implies (#[trigger] newly_pinned(
            outs,
        )[j]).pinned && outs.contains(newly_pinned(outs)[j]) by {
            if j < newly_pinned(front).len() {
                let b = newly_pinned(front)[j];
                let i = choose|i: int| 0 <= i < front.len() && front[i] == b;
                assert(outs[i] == b);
            }
        }
    }
}

/// Splitting bodies that are all mobile moves none of them.
pub proof fn lemma_split_mobile(outs: Seq<Body>)
    requires
        all_mobile(outs),
    ensures
        still_mobile(outs) == outs,
        newly_pinned(outs).len() == 0,
    decreases outs.len(),
{
    reveal(Seq::filter);
    if outs.len() > 0 {
        lemma_split_mobile(outs.drop_last());
        assert(!outs.last().pinned);
        assert(outs.drop_last().push(outs.last()) =~= outs);
    }
}

/// One sub-step of a store of mobile bodies leaves mobile bodies in the
/// store, and adds to the archive only traces that carry the tag of an
/// attractor; no body is lost or duplicated.
pub proof fn lemma_substepped_outcome<A: Fn(Op, u64, u64) -> u64>(
    arith: &A,
    attractors: Seq<Body>,
    r: u64,
    store: Seq<Body>,
    outs: Seq<Body>,
)
    requires
        all_mobile(store),
        substepped(arith, attractors, r, store, outs),
    ensures
        all_mobile(still_mobile(outs)),
        all_traces(newly_pinned(outs)),
        still_mobile(outs).len() + newly_pinned(outs).len() == store.len(),
        forall|j: int|
            0 <= j < newly_pinned(outs).len() ==> tagged_by(
                #[trigger] newly_pinned(outs)[j],
                attractors,
            ),
{
    lemma_split(outs);
    assert forall|j: int| 0 <= j < newly_pinned(outs).len() implies (#[trigger] newly_pinned(
        outs,
    )[j]).is_trace() && tagged_by(newly_pinned(outs)[j], attractors) by {
        let b = newly_pinned(outs)[j];
        let i = choose|i: int| 0 <= i < outs.len() && outs[i] == b;
        lemma_substep_outcome(arith, attractors, r, store[i], outs[i]);
    }
}

/// Any number of sub-steps of a store of mobile bodies leaves mobile bodies
/// in the store. The archive only grows, by traces that carry the tag of an
/// attractor, and store and archive together hold as many bodies as before.
pub proof fn lemma_ran_outcome<A: Fn(Op, u64, u64) -> u64>(
    arith: &A,
    attractors: Seq<Body>,
    r: u64,
    n: nat,
    store: Seq<Body>,
    archive: Seq<Body>,
    mobile: Seq<Body>,
    pinned: Seq<Body>,
)
    requires
        all_mobile(store),
        ran(arith, attractors, r, n, store, archive, mobile, pinned),
    ensures
        all_mobile(mobile),
        mobile.len() + pinned.len() == store.len() + archive.len(),
        archive.is_prefix_of(pinned),
        forall|j: int|
            archive.len() <= j < pinned.len() ==> (#[trigger] pinned[j]).is_trace() && tagged_by(
                pinned[j],
                attractors,
            ),
    decreases n,
{
    if n > 0 {
        let outs = choose|outs: Seq<Body>| #[trigger]
            substepped(arith, attractors, r, store, outs) && ran(
                arith,
                attractors,
                r,
                (n - 1) as nat,
                still_mobile(outs),
                archive + newly_pinned(outs),
                mobile,
                pinned,
            );
        let grown = archive + newly_pinned(outs);
        lemma_substepped_outcome(arith, attractors, r, store, outs);
        lemma_ran_outcome(
            arith,
            attractors,
            r,
            (n - 1) as nat,
            still_mobile(outs),
            grown,
            mobile,
            pinned,
        );
        assert forall|j: int| archive.len() <= j < pinned.len() implies (#[trigger] pinned[j]).is_trace()
            && tagged_by(pinned[j], attractors) by {
            if j < grown.len() {
                assert(pinned[j] == grown[j]);
                assert(grown[j] == newly_pinned(outs)[j - archive.len()]);
            }
        }
        assert(archive.is_prefix_of(pinned)) by {
            assert forall|j: int| 0 <= j < archive.len() implies archive[j] == pinned[j] by {
                assert(pinned[j] == grown[j]);
            }
            assert(archive =~= pinned.subrange(0, archive.len() as int));
        }
    }
}

/// What a run appends to an empty archive, it appends to any archive.
pub proof fn lemma_ran_onto<A: Fn(Op, u64, u64) -> u64>(
    arith: &A,
    attractors: Seq<Body>,
    r: u64,
    n: nat,
    store: Seq<Body>,
    before: Seq<Body>,
    archive: Seq<Body>,
    mobile: Seq<Body>,
    pinned: Seq<Body>,
)
    requires
        ran(arith, attractors, r, n, store, archive, mobile, pinned),
    ensures
        ran(arith, attractors, r, n, store, before + archive, mobile, before + pinned),
    decreases n,
{
    if n > 0 {
        let outs = choose|outs: Seq<Body>| #[trigger]
            substepped(arith, attractors, r, store, outs) && ran(
                arith,
                attractors,
                r,
                (n - 1) as nat,
                still_mobile(outs),
                archive + newly_pinned(outs),
                mobile,
                pinned,
            );
        lemma_ran_onto(
            arith,
            attractors,
            r,
            (n - 1) as nat,
            still_mobile(outs),
            before,
            archive + newly_pinned(outs),
            mobile,
            pinned,
        );
        assert(before + (archive + newly_pinned(outs)) =~= (before + archive) + newly_pinned(outs));
    }
}

} // verus!
