//! The simulation context: the attractor set, the particle store and the
//! trace archive, and the calls that the frame loop makes on them.

use vstd::prelude::*;
use crate::body::Body;
use crate::scalar::{arith_total, scalar_of, Op};
use crate::scheduler::{all_mobile, all_traces, lemma_ran_onto, lemma_ran_outcome, ran, run};

verus! {

/// Each body of `bodies` set free, in order.
pub open spec fn all_released(bodies: Seq<Body>) -> Seq<Body> {
    Seq::new(bodies.len(), |i: int| bodies[i].released())
}

/// The bodies of `bodies` that carry the tag `tag`, in order.
pub open spec fn tagged(bodies: Seq<Body>, tag: u8) -> Seq<Body> {
    bodies.filter(|b: Body| b.color_index == tag)
}

/// The mathematical content of a simulation.
pub struct SimulationView {
    /// The attractor set, in its fixed iteration order.
    pub attractors: Seq<Body>,
    /// The particle store.
    pub mobile: Seq<Body>,
    /// The trace archive, oldest capture first.
    pub pinned: Seq<Body>,
    /// How many particles were seeded or spawned since the last seeding.
    pub spawned: nat,
}

impl SimulationView {
    /// The stores are consistent: the particle store holds mobile bodies
    /// only, the archive holds traces only, and together they hold every
    /// particle that was seeded or spawned.
    pub open spec fn wf(self) -> bool {
        &&& all_mobile(self.mobile)
        &&& all_traces(self.pinned)
        &&& self.mobile.len() + self.pinned.len() == self.spawned
    }

    /// The empty simulation.
    pub open spec fn empty() -> SimulationView {
        SimulationView {
            attractors: Seq::empty(),
            mobile: Seq::empty(),
            pinned: Seq::empty(),
            spawned: 0,
        }
    }

    /// The simulation with one more mobile particle at the end of the
    /// particle store, spawned at `(x, y)`.
    pub open spec fn with_particle(
        self,
        x: u64,
        y: u64,
        v_x: u64,
        v_y: u64,
        mass: u64,
        color_index: u8,
    ) -> SimulationView {
        SimulationView {
            mobile: self.mobile.push(
                Body { x, y, init_x: x, init_y: y, v_x, v_y, mass, pinned: false, color_index },
            ),
            spawned: self.spawned + 1,
            ..self
        }
    }

    /// The simulation after every trace has been set free and moved to the
    /// end of the particle store.
    pub open spec fn released(self) -> SimulationView {
        SimulationView {
            mobile: self.mobile + all_released(self.pinned),
            pinned: Seq::empty(),
            ..self
        }
    }
}

/// `post` is what `pre` can become in `n` sub-steps at the resolution `res`:
/// particle store and archive are run by the scheduler, the rest stays.
pub open spec fn stepped<A: Fn(Op, u64, u64) -> u64>(
    arith: &A,
    res: u32,
    n: nat,
    pre: SimulationView,
    post: SimulationView,
) -> bool {
    &&& post.attractors == pre.attractors
    &&& post.spawned == pre.spawned
    &&& ran(
        arith,
        pre.attractors,
        scalar_of(res),
        n,
        pre.mobile,
        pre.pinned,
        post.mobile,
        post.pinned,
    )
}

/// What one call of `step` did.
#[derive(Clone, Copy, Debug, PartialEq, Eq, Structural)]
pub struct StepStats {
    pub particles_captured_this_call: usize,
}

/// Tells whether every body of `bodies` is mobile, as seeding asks of the
/// particles.
pub fn none_pinned(bodies: &Vec<Body>) -> (r: bool)
    ensures
        r == all_mobile(bodies@),
{
    let mut i: usize = 0;
    while i < bodies.len()
        invariant
            i <= bodies.len(),
            all_mobile(bodies@.take(i as int)),
        decreases bodies.len() - i,
    {
        if bodies[i].pinned {
            return false;
        }
        assert forall|j: int| 0 <= j < i + 1 implies !(#[trigger] bodies@.take(i + 1)[j]).pinned by {
            if j < i {
                assert(bodies@.take(i as int)[j] == bodies@[j]);
            }
        }
        i += 1;
    }
    assert(bodies@.take(i as int) =~= bodies@);
    true
}

/// The simulation context.
pub struct Simulation {
    attractors: Vec<Body>,
    mobile: Vec<Body>,
    pinned: Vec<Body>,
    spawned: Ghost<nat>,
}

impl View for Simulation {
    type V = SimulationView;

    closed spec fn view(&self) -> SimulationView {
        SimulationView {
            attractors: self.attractors@,
            mobile: self.mobile@,
            pinned: self.pinned@,
            spawned: self.spawned@,
        }
    }
}

impl Simulation {
    /// Creates an empty simulation.
    pub fn new() -> (sim: Simulation)
        ensures
            sim@ == SimulationView::empty(),
            sim@.wf(),
    {
        Simulation {
            attractors: Vec::new(),
            mobile: Vec::new(),
            pinned: Vec::new(),
            spawned: Ghost(0),
        }
    }

    /// Runs `sub_steps` sub-steps at the resolution `res`, over the
    /// arithmetic `arith`: the scheduler runs the particle store against the
    /// attractor set, and the bodies that it pinned are appended to the archive.
    /// Reports how many bodies were captured.
    pub fn step<A>(&mut self, arith: &A, sub_steps: u32, res: u32) -> (stats: StepStats) where
        A: Fn(Op, u64, u64) -> u64 + Sync,

        requires
            old(self)@.wf(),
            arith_total(arith),
        ensures
            final(self)@.wf(),
            stepped(arith, res, sub_steps as nat, old(self)@, final(self)@),
            stats.particles_captured_this_call == final(self)@.pinned.len()
                - old(self)@.pinned.len(),
            old(self)@.pinned.is_prefix_of(final(self)@.pinned),
    {
        let mut store: Vec<Body> = Vec::new();
        std::mem::swap(&mut self.mobile, &mut store);
        let (mobile, mut newly) = run(arith, store, &self.attractors, sub_steps, res);
        let captured = newly.len();
        proof {
            let pre = old(self)@;
            let n = sub_steps as nat;
            let r = scalar_of(res);
            lemma_ran_onto(
                arith,
                pre.attractors,
                r,
                n,
                pre.mobile,
                pre.pinned,
                Seq::empty(),
                mobile@,
                newly@,
            );
            assert(pre.pinned + Seq::<Body>::empty() =~= pre.pinned);
            lemma_ran_outcome(
                arith,
                pre.attractors,
                r,
                n,
                pre.mobile,
                pre.pinned,
                mobile@,
                pre.pinned + newly@,
            );
        }
        self.mobile = mobile;
        self.pinned.append(&mut newly);
        StepStats { particles_captured_this_call: captured }
    }

    /// Replaces the whole state: `attractors` becomes the attractor set,
    /// `particles` the particle store, and the archive is emptied.
    pub fn seed(&mut self, attractors: Vec<Body>, particles: Vec<Body>)
        requires
            all_mobile(particles@),
        ensures
            final(self)@ == (SimulationView {
                attractors: attractors@,
                mobile: particles@,
                pinned: Seq::empty(),
                spawned: particles@.len(),
            }),
            final(self)@.wf(),
    {
        self.spawned = Ghost(particles@.len());
        self.attractors = attractors;
        self.mobile = particles;
        self.pinned = Vec::new();
    }

    /// Adds a mobile particle at the end of the particle store.
    pub fn spawn(&mut self, x: u64, y: u64, v_x: u64, v_y: u64, mass: u64, color_index: u8)
        requires
            old(self)@.wf(),
        ensures
            final(self)@ == old(self)@.with_particle(x, y, v_x, v_y, mass, color_index),
            final(self)@.wf(),
    {
        self.mobile.push(Body::new(x, y, v_x, v_y, mass, false, color_index));
        self.spawned = Ghost((self.spawned@ + 1) as nat);
    }

    /// The particle store, the attractor set and the trace archive, to be
    /// read until the next call that changes the simulation.
    pub fn snapshot_for_render(&self) -> (views: (&[Body], &[Body], &[Body]))
        ensures
            views.0@ == self@.mobile,
            views.1@ == self@.attractors,
            views.2@ == self@.pinned,
    {
        (self.mobile.as_slice(), self.attractors.as_slice(), self.pinned.as_slice())
    }

    /// The traces that carry the tag `tag`, oldest capture first.
    pub fn traces_of(&self, tag: u8) -> (traces: Vec<Body>)
        ensures
            traces@ == tagged(self@.pinned, tag),
    {
        let mut traces: Vec<Body> = Vec::new();
        let mut i: usize = 0;
        proof {
            reveal(Seq::filter);
            assert(self.pinned@.take(0) =~= Seq::empty());
        }
        while i < self.pinned.len()
            invariant
                i <= self.pinned@.len(),
                traces@ == tagged(self.pinned@.take(i as int), tag),
            decreases self.pinned.len() - i,
        {
            let body = self.pinned[i];
            proof {
                reveal(Seq::filter);
                assert(self.pinned@.take(i + 1).drop_last() =~= self.pinned@.take(i as int));
                assert(self.pinned@.take(i + 1).last() == body);
            }
            if body.color_index == tag {
                traces.push(body);
            }
            i += 1;
        }
        proof {
            assert(self.pinned@.take(i as int) =~= self.pinned@);
        }
        traces
    }

    /// Sets every trace free and moves it to the end of the particle store,
    /// oldest capture first. With an empty archive nothing changes.
    pub fn release_all_pinned(&mut self)
        requires
            old(self)@.wf(),
        ensures
            final(self)@ == old(self)@.released(),
            final(self)@.wf(),
            old(self)@.pinned.len() == 0 ==> final(self)@ == old(self)@,
    {
        let ghost start = self@;
        let mut i: usize = 0;
        while i < self.pinned.len()
            invariant
                i <= self.pinned@.len(),
                self.pinned@ == start.pinned,
                self.attractors@ == start.attractors,
                self.spawned@ == start.spawned,
                self.mobile@ == start.mobile + all_released(start.pinned.take(i as int)),
                all_mobile(self.mobile@),
            decreases self.pinned.len() - i,
        {
            let mut body = self.pinned[i];
            body.release();
            self.mobile.push(body);
            proof {
                assert(all_released(start.pinned.take(i + 1)) =~= all_released(
                    start.pinned.take(i as int),
                ).push(start.pinned[i as int].released()));
            }
            i += 1;
        }
        proof {
            assert(start.pinned.take(i as int) =~= start.pinned);
        }
        self.pinned.clear();
        proof {
            if start.pinned.len() == 0 {
                assert(start.mobile + all_released(start.pinned) =~= start.mobile);
                assert(start.pinned =~= Seq::empty());
            }
        }
    }

    /// Clears the attractor set, the particle store and the archive.
    pub fn reset(&mut self)
        ensures
            final(self)@ == SimulationView::empty(),
            final(self)@.wf(),
    {
        self.attractors.clear();
        self.mobile.clear();
        self.pinned.clear();
        self.spawned = Ghost(0);
    }
}

} // verus!
