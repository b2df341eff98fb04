use vstd::prelude::*;

verus! {

/// Number of independent scenarios packed into one batch.
pub const LANES: usize = 8;

/// Number of Newton-Raphson updates a solver makes before it gives up on
/// the lanes that have not reached their target.
pub const ITERATION_LIMIT: u32 = 100;

/// True when every lane of the mask is set.
pub open spec fn all_lanes(mask: Seq<bool>) -> bool {
    forall|i: int| 0 <= i < mask.len() ==> #[trigger] mask[i]
}

/// Reduces a per-lane mask to one flag: whether every lane is set.
pub fn all_set(mask: &[bool; LANES]) -> (r: bool)
    ensures
        r == all_lanes(mask@),
{
    let mut i: usize = 0;
    while i < LANES
        invariant
            0 <= i <= LANES,
            mask@.len() == LANES,
            forall|j: int| 0 <= j < i ==> #[trigger] mask@[j],
        decreases LANES - i,
    {
        if !mask[i] {
            return false;
        }
        i = i + 1;
    }
    true
}

/// What a solver does after it has measured, lane by lane, whether its
/// current guess reproduces the target within tolerance.
#[derive(Clone, Copy, Debug, PartialEq, Eq, Structural)]
pub enum Step {
    /// Some lane is still off target: apply one more update to every lane.
    Update,
    /// Every lane is on target at once: the current guess is the result.
    Converged,
    /// The update budget is spent while some lane is still off target: the
    /// current guess is returned together with the per-lane flags.
    Exhausted,
}

/// Mathematical model of a [`NewtonLoop`].
pub struct LoopView {
    /// Updates made so far.
    pub iterations: nat,
    /// The most updates the loop will make.
    pub limit: nat,
    /// Whether the loop has stopped.
    pub finished: bool,
    /// The per-lane convergence mask of the latest observation.
    pub converged: Seq<bool>,
}

/// The state of a loop that has made no update and observed nothing yet.
pub open spec fn fresh(limit: nat) -> LoopView {
    LoopView {
        iterations: 0,
        limit,
        finished: false,
        converged: Seq::new(LANES as nat, |i: int| false),
    }
}

impl LoopView {
    pub open spec fn wf(self) -> bool {
        self.iterations <= self.limit
    }

    /// The verdict that a stopped loop repeats.
    pub open spec fn verdict(self) -> Step {
        if all_lanes(self.converged) {
            Step::Converged
        } else {
            Step::Exhausted
        }
    }

    /// The step decided on observing `mask`: stop when every lane is within
    /// tolerance at once, else update while the budget lasts.
    pub open spec fn step(self, mask: Seq<bool>) -> Step {
        if self.finished {
            self.verdict()
        } else if all_lanes(mask) {
            Step::Converged
        } else if self.iterations < self.limit {
            Step::Update
        } else {
            Step::Exhausted
        }
    }

    /// The state after observing `mask`.
    pub open spec fn next(self, mask: Seq<bool>) -> LoopView {
        if self.finished {
            self
        } else {
            let s = self.step(mask);
            LoopView {
                iterations: if s is Update {
                    self.iterations + 1
                } else {
                    self.iterations
                },
                limit: self.limit,
                finished: !(s is Update),
                converged: mask,
            }
        }
    }
}

/// The state reached from `v` by observing each mask of `masks` in order.
pub open spec fn run(v: LoopView, masks: Seq<Seq<bool>>) -> LoopView
    decreases masks.len(),
{
    if masks.len() == 0 {
        v
    } else {
        run(v.next(masks[0]), masks.drop_first())
    }
}

/// A stopped loop stays as it is, whatever it observes.
pub proof fn lemma_finished_stays(v: LoopView, masks: Seq<Seq<bool>>)
    requires
        v.finished,
    ensures
        run(v, masks) == v,
    decreases masks.len(),
{
    if masks.len() > 0 {
        lemma_finished_stays(v.next(masks[0]), masks.drop_first());
    }
}

/// Whatever the per-lane masks, a well-formed loop stops once it has made
/// the updates left in its budget and observed once more.
pub proof fn lemma_run_stops(v: LoopView, masks: Seq<Seq<bool>>)
    requires
        v.wf(),
        masks.len() > v.limit - v.iterations,
    ensures
        run(v, masks).finished,
    decreases masks.len(),
{
    if v.finished {
        lemma_finished_stays(v, masks);
    } else {
        let w = v.next(masks[0]);
        if w.finished {
            lemma_finished_stays(w, masks.drop_first());
        } else {
            lemma_run_stops(w, masks.drop_first());
        }
    }
}

/// A loop started with an update budget of `limit` has stopped after any
/// `limit + 1` observations: the solvers always terminate.
pub proof fn lemma_solver_terminates(limit: nat, masks: Seq<Seq<bool>>)
    requires
        masks.len() == limit + 1,
    ensures
        run(fresh(limit), masks).finished,
        run(fresh(limit), masks).iterations <= limit,
{
    lemma_run_stops(fresh(limit), masks);
    lemma_run_keeps_wf(fresh(limit), masks);
}

/// Observing never takes a loop past its update budget.
pub proof fn lemma_run_keeps_wf(v: LoopView, masks: Seq<Seq<bool>>)
    requires
        v.wf(),
    ensures
        run(v, masks).wf(),
        run(v, masks).limit == v.limit,
    decreases masks.len(),
{
    if masks.len() > 0 {
        lemma_run_keeps_wf(v.next(masks[0]), masks.drop_first());
    }
}

/// Control state of a lane-parallel Newton-Raphson loop.
///
/// The numeric work of each iteration (evaluate, compare, update) is done
/// by the caller; this type decides, from the per-lane convergence mask,
/// whether the loop goes on, and bounds the number of updates.
pub struct NewtonLoop {
    iterations: u32,
    limit: u32,
    finished: bool,
    converged: [bool; LANES],
}

impl View for NewtonLoop {
    type V = LoopView;

    closed spec fn view(&self) -> LoopView {
        LoopView {
            iterations: self.iterations as nat,
            limit: self.limit as nat,
            finished: self.finished,
            converged: self.converged@,
        }
    }
}

impl NewtonLoop {
    /// A loop that has made no update and observed nothing yet.
    pub fn new(limit: u32) -> (r: NewtonLoop)
        ensures
            r@ == fresh(limit as nat),
    {
        let r = NewtonLoop { iterations: 0, limit, finished: false, converged: [false; LANES] };
        assert(r.converged@ =~= Seq::new(LANES as nat, |i: int| false));
        r
    }

    pub fn iterations(&self) -> (r: u32)
        ensures
            r == self@.iterations,
    {
        self.iterations
    }

    pub fn limit(&self) -> (r: u32)
        ensures
            r == self@.limit,
    {
        self.limit
    }

    pub fn is_finished(&self) -> (r: bool)
        ensures
            r == self@.finished,
    {
        self.finished
    }

    /// Per-lane flags of the latest observation: set where that lane was
    /// within tolerance.
    pub fn converged(&self) -> (r: [bool; LANES])
        ensures
            r@ == self@.converged,
    {
        self.converged
    }

    /// Takes the per-lane result of the tolerance test on the current guess
    /// and decides the next step.
    ///
    /// The loop ends only when all lanes are within tolerance in the same
    /// observation, or when the update budget is spent. A loop that has
    /// already ended ignores the mask and repeats its verdict.
    pub fn observe(&mut self, within_tolerance: [bool; LANES]) -> (s: Step)
        requires
            old(self)@.wf(),
        ensures
            s == old(self)@.step(within_tolerance@),
            final(self)@ == old(self)@.next(within_tolerance@),
            final(self)@.wf(),
    {
        if self.finished {
            if all_set(&self.converged) {
                return Step::Converged;
            } else {
                return Step::Exhausted;
            }
        }
        self.converged = within_tolerance;
        if all_set(&within_tolerance) {
            self.finished = true;
            Step::Converged
        } else if self.iterations < self.limit {
            self.iterations = self.iterations + 1;
            Step::Update
        } else {
            self.finished = true;
            Step::Exhausted
        }
    }
}

} // verus!
