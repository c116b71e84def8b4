//! Phase decisions and the bisection that locates a phase boundary.
//!
//! The flow itself is computed elsewhere; what is decided here is which
//! phase a flowed parameter vector belongs to, and how a bisection between
//! an ordered and a disordered end moves after each classification.
use vstd::prelude::*;

verus! {

/// A fleet phase.
#[derive(Clone, Copy, Debug, PartialEq, Eq, Structural)]
pub enum FleetPhase {
    /// Ordered phase: agents are aligned
    Ordered,
    /// Disordered phase: agents are random
    Disordered,
    /// Critical: on the boundary between phases
    Critical,
}

/// The phase of a flow that diverged (`diverged`) or died out (`vanished`):
/// a divergent flow is ordered, one that vanished is disordered, and one that
/// did neither sits on the critical surface.
pub open spec fn phase_of(diverged: bool, vanished: bool) -> FleetPhase {
    if diverged {
        FleetPhase::Ordered
    } else if vanished {
        FleetPhase::Disordered
    } else {
        FleetPhase::Critical
    }
}

/// Decide the phase from whether the flowed parameters grew past the
/// divergence threshold and whether they fell below the vanishing threshold.
pub fn classify_phase(diverged: bool, vanished: bool) -> (phase: FleetPhase)
    ensures
        phase == phase_of(diverged, vanished),
{
    if diverged {
        FleetPhase::Ordered
    } else if vanished {
        FleetPhase::Disordered
    } else {
        FleetPhase::Critical
    }
}

/// What the bisection learns about the current midpoint.
#[derive(Clone, Copy, Debug, PartialEq, Eq, Structural)]
pub enum BisectionEvent {
    /// The two ends are closer than the tolerance.
    Converged,
    /// The midpoint flowed into this phase.
    Classified(FleetPhase),
}

/// What the bisection does next.
#[derive(Clone, Copy, Debug, PartialEq, Eq, Structural)]
pub enum BisectionAction {
    /// Stop and return the current midpoint.
    ReturnMidpoint,
    /// The midpoint is ordered: it becomes the ordered end.
    MoveOrderedEnd,
    /// The midpoint is disordered: it becomes the disordered end.
    MoveDisorderedEnd,
}

/// The action the bisection takes on an event.
pub open spec fn bisection_action(event: BisectionEvent) -> BisectionAction {
    match event {
        BisectionEvent::Converged => BisectionAction::ReturnMidpoint,
        BisectionEvent::Classified(FleetPhase::Ordered) => BisectionAction::MoveOrderedEnd,
        BisectionEvent::Classified(FleetPhase::Disordered) => BisectionAction::MoveDisorderedEnd,
        BisectionEvent::Classified(FleetPhase::Critical) => BisectionAction::ReturnMidpoint,
    }
}

/// State of a bisection between an ordered and a disordered end: how many
/// midpoints it may still examine.
#[derive(Clone, Copy, Debug, PartialEq, Eq, Structural)]
pub struct Bisection {
    /// Midpoints that may still be examined
    pub iterations_left: usize,
}

impl Bisection {
    /// A bisection that examines at most `max_iter` midpoints.
    pub fn new(max_iter: usize) -> (b: Self)
        ensures
            b.iterations_left == max_iter,
    {
        Bisection { iterations_left: max_iter }
    }

    /// No midpoint may be examined any more: the bisection returns the
    /// midpoint of its two ends.
    pub fn is_exhausted(&self) -> (done: bool)
        ensures
            done == (self.iterations_left == 0),
    {
        self.iterations_left == 0
    }

    /// Take one event about the current midpoint: uses up one iteration and
    /// says whether to stop or which end the midpoint replaces.
    pub fn step(&mut self, event: BisectionEvent) -> (action: BisectionAction)
        requires
            old(self).iterations_left > 0,
        ensures
            final(self).iterations_left == old(self).iterations_left - 1,
            action == bisection_action(event),
    {
        self.iterations_left = self.iterations_left - 1;
        match event {
            BisectionEvent::Converged => BisectionAction::ReturnMidpoint,
            BisectionEvent::Classified(phase) => match phase {
                FleetPhase::Ordered => BisectionAction::MoveOrderedEnd,
                FleetPhase::Disordered => BisectionAction::MoveDisorderedEnd,
                FleetPhase::Critical => BisectionAction::ReturnMidpoint,
            },
        }
    }
}

/// The bisection keeps its ends on either side of the boundary: it moves the
/// ordered end only to an ordered midpoint, the disordered end only to a
/// disordered one, and stops on convergence or a critical midpoint.
pub proof fn lemma_bisection_keeps_ends(event: BisectionEvent)
    ensures
        bisection_action(event) == BisectionAction::MoveOrderedEnd <==> event
            == BisectionEvent::Classified(FleetPhase::Ordered),
        bisection_action(event) == BisectionAction::MoveDisorderedEnd <==> event
            == BisectionEvent::Classified(FleetPhase::Disordered),
        bisection_action(event) == BisectionAction::ReturnMidpoint <==> (event
            == BisectionEvent::Converged || event == BisectionEvent::Classified(
            FleetPhase::Critical,
        )),
{
}

} // verus!
