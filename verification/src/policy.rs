//! Configuration and termination policy of the simplex search.
//!
//! The initial simplex is seeded with eight vertices clustered around the
//! classic constants; every coordinate is a one-digit decimal, so the
//! vertices are carried here exactly, in tenths.
//!
//! The search runs the external minimizer one iteration at a time.  After
//! each iteration the minimizer reports whether the standard deviation of
//! the vertex objective values has fallen below the tolerance; the policy
//! then either stops (converged, or iteration budget exhausted) or goes on.
//! The policy is exact integer bookkeeping, whatever the objective values
//! were, so the search can never loop indefinitely.

use vstd::prelude::*;

verus! {

/// Iteration budget of the simplex search.
pub const ITERATION_CAP: u64 = 1000;

/// Denominator turning a seed coordinate, carried in tenths, into its
/// real value.
pub const SEED_DENOMINATOR: u32 = 10;

/// The eight seed vertices of the initial simplex, in tenths, as
/// `(subtractant, three_halves, one_half)`: every corner of the box
/// `{190.3, 190.7} x {1.4, 1.6} x {0.4, 0.6}` around the classic
/// constants.  The seeding is critical: the error surface is non-convex
/// with several comparable local minima.
pub fn seed_vertices() -> (r: Vec<(u32, u32, u32)>)
    ensures
        r@ =~= seq![
            (1903u32, 14u32, 4u32),
            (1903u32, 14u32, 6u32),
            (1903u32, 16u32, 4u32),
            (1903u32, 16u32, 6u32),
            (1907u32, 16u32, 4u32),
            (1907u32, 16u32, 6u32),
            (1907u32, 14u32, 4u32),
            (1907u32, 14u32, 6u32),
        ],
{
    let mut v: Vec<(u32, u32, u32)> = Vec::new();
    v.push((1903, 14, 4));
    v.push((1903, 14, 6));
    v.push((1903, 16, 4));
    v.push((1903, 16, 6));
    v.push((1907, 16, 4));
    v.push((1907, 16, 6));
    v.push((1907, 14, 4));
    v.push((1907, 14, 6));
    v
}

/// Why the search stopped.
#[derive(Clone, Copy, Debug, PartialEq, Eq, Structural)]
pub enum TerminationReason {
    /// The standard deviation of the vertex objective values fell below
    /// the convergence tolerance.
    Converged,
    /// The iteration budget was exhausted; the best vertex so far stands.
    IterationCapReached,
}

/// Progress of the search: iterations run so far, and whether (and why)
/// it has stopped.
#[derive(Clone, Copy, Debug, PartialEq, Eq)]
pub struct SearchProgress {
    /// Iterations of the minimizer completed so far.
    pub iterations: u64,
    /// `None` while the search is still running.
    pub outcome: Option<TerminationReason>,
}

/// The progress before any iteration has run.
pub open spec fn initial_progress() -> SearchProgress {
    SearchProgress { iterations: 0, outcome: None }
}

/// What always holds of the search's progress: the iteration budget is
/// respected, the cap outcome appears exactly at the cap, and a search
/// still running has budget left.
pub open spec fn progress_invariant(s: SearchProgress) -> bool {
    &&& s.iterations <= ITERATION_CAP
    &&& (s.outcome == Some(TerminationReason::IterationCapReached) ==> s.iterations
        == ITERATION_CAP)
    &&& (s.outcome is None ==> s.iterations < ITERATION_CAP)
    &&& (s.outcome == Some(TerminationReason::Converged) ==> s.iterations >= 1)
}

/// Progress after one more iteration whose convergence check returned
/// `converged`.  Convergence wins over the budget when both hold at once.
pub open spec fn step_result(s: SearchProgress, converged: bool) -> SearchProgress {
    let next = (s.iterations + 1) as u64;
    SearchProgress {
        iterations: next,
        outcome: if converged {
            Some(TerminationReason::Converged)
        } else if next == ITERATION_CAP {
            Some(TerminationReason::IterationCapReached)
        } else {
            None
        },
    }
}

/// Progress after feeding `events` (one convergence flag per iteration) to
/// a running search; events after the search has stopped are ignored.
pub open spec fn run_from(s: SearchProgress, events: Seq<bool>) -> SearchProgress
    decreases events.len(),
{
    if s.outcome is Some || events.len() == 0 {
        s
    } else {
        run_from(step_result(s, events[0]), events.skip(1))
    }
}

impl SearchProgress {
    /// A search that has not run any iteration yet.
    pub fn new() -> (r: SearchProgress)
        ensures
            r == initial_progress(),
            progress_invariant(r),
    {
        SearchProgress { iterations: 0, outcome: None }
    }

    /// Record one more iteration of the minimizer and decide whether the
    /// search stops here.
    pub fn step(&mut self, converged: bool)
        requires
            progress_invariant(*old(self)),
            old(self).outcome is None,
        ensures
            *final(self) == step_result(*old(self), converged),
            progress_invariant(*final(self)),
    {
        self.iterations = self.iterations + 1;
        if converged {
            self.outcome = Some(TerminationReason::Converged);
        } else if self.iterations == ITERATION_CAP {
            self.outcome = Some(TerminationReason::IterationCapReached);
        }
    }
}

/// Run the policy over a whole schedule of convergence flags.
pub fn run_schedule(events: &Vec<bool>) -> (r: SearchProgress)
    ensures
        r == run_from(initial_progress(), events@),
        progress_invariant(r),
{
    let mut s = SearchProgress::new();
    let mut i: usize = 0;
    proof {
        assert(events@.skip(0) =~= events@);
    }
    while i < events.len() && s.outcome.is_none()
        invariant
            0 <= i <= events@.len(),
            progress_invariant(s),
            run_from(s, events@.skip(i as int)) == run_from(initial_progress(), events@),
        decreases events@.len() - i,
    {
        proof {
            assert(events@.skip(i as int).len() > 0);
            assert(events@.skip(i as int)[0] == events@[i as int]);
            assert(events@.skip(i as int).skip(1) =~= events@.skip(i as int + 1));
        }
        s.step(events[i]);
        i = i + 1;
    }
    s
}

/// The invariant holds of a run from any state that satisfies it.
pub proof fn lemma_run_preserves_invariant(s: SearchProgress, events: Seq<bool>)
    requires
        progress_invariant(s),
    ensures
        progress_invariant(run_from(s, events)),
    decreases events.len(),
{
    if s.outcome is None && events.len() > 0 {
        lemma_run_preserves_invariant(step_result(s, events[0]), events.skip(1));
    }
}

/// A search that still has iterations on offer past its remaining budget
/// has stopped by the end of them.
pub proof fn lemma_run_exhausts_budget(s: SearchProgress, events: Seq<bool>)
    requires
        progress_invariant(s),
        s.iterations + events.len() >= ITERATION_CAP,
    ensures
        run_from(s, events).outcome is Some,
    decreases events.len(),
{
    if s.outcome is None {
        lemma_run_exhausts_budget(step_result(s, events[0]), events.skip(1));
    }
}

/// Termination guarantee: whatever the convergence checks report, the
/// search stops within the iteration budget — at the cap at the latest,
/// earlier upon convergence — and never runs a single iteration beyond it.
pub proof fn lemma_termination(events: Seq<bool>)
    ensures
        run_from(initial_progress(), events).iterations <= ITERATION_CAP,
        events.len() >= ITERATION_CAP ==> run_from(initial_progress(), events).outcome is Some,
{
    lemma_run_preserves_invariant(initial_progress(), events);
    if events.len() >= ITERATION_CAP {
        lemma_run_exhausts_budget(initial_progress(), events);
    }
}

} // verus!
