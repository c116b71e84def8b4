//! RG flow state, its evolution from scale to scale, and convergence of a
//! trajectory.
//!
//! The flow equation maps the parameters at one scale to those at the next.
//! Evolving a flow applies it once per step and records the state after each
//! step. A trajectory has converged when each of its last `n_check` steps
//! moved the parameters by less than the tolerance; whether one step is small
//! is measured by the caller, the window over the trajectory is decided here.
use vstd::prelude::*;

verus! {

/// The RG flow equation: maps parameters at scale ℓ to scale ℓ+1.
/// This is the beta function in RG language.
pub trait FlowEquation<V>: Send + Sync {
    /// Compute parameters at the next scale given current parameters.
    fn flow_step(&self, params: &[V], scale: usize) -> Vec<V>;

    /// Dimensionality of parameter space
    fn dim(&self) -> usize;
}

/// `next` is a result that `flow_eq.flow_step` can return when handed
/// parameters `params` at scale `scale`.
#[verifier::opaque]
pub open spec fn is_flow_step<V, F: FlowEquation<V>>(
    flow_eq: &F,
    params: Seq<V>,
    scale: usize,
    next: Seq<V>,
) -> bool {
    exists|arg: &[V], out: Vec<V>|
        #![trigger call_ensures(F::flow_step, (flow_eq, arg, scale), out)]
        arg@ == params && out@ == next && call_ensures(F::flow_step, (flow_eq, arg, scale), out)
}

/// The parameters a trajectory starts each step from: `start` for the first
/// step, the parameters recorded by the previous step otherwise.
pub open spec fn params_before<V>(start: Seq<V>, steps: Seq<FlowState<V>>, k: int) -> Seq<V> {
    if k == 0 {
        start
    } else {
        steps[k - 1].parameters@
    }
}

/// The parameters at the end of a trajectory (`start` if it has no step).
pub open spec fn params_after<V>(start: Seq<V>, steps: Seq<FlowState<V>>) -> Seq<V> {
    params_before(start, steps, steps.len() as int)
}

/// `steps` is a trajectory of `flow_eq` from `start` at `scale`: step k is
/// recorded at scale `scale + k + 1` and holds what `flow_step` returned for
/// the parameters before it at scale `scale + k`.
pub open spec fn is_flow_trajectory<V, F: FlowEquation<V>>(
    flow_eq: &F,
    start: Seq<V>,
    scale: usize,
    steps: Seq<FlowState<V>>,
) -> bool {
    forall|k: int|
        0 <= k < steps.len() ==> {
            &&& (#[trigger] steps[k]).scale == scale + k + 1
            &&& is_flow_step(
                flow_eq,
                params_before(start, steps, k),
                (scale + k) as usize,
                steps[k].parameters@,
            )
        }
}

/// The first `m` steps of a trajectory form a trajectory, and the rest form
/// one that starts where they ended.
#[verifier::spinoff_prover]
#[verifier::rlimit(50)]
proof fn lemma_trajectory_parts<V, F: FlowEquation<V>>(
    flow_eq: &F,
    start: Seq<V>,
    scale: usize,
    first: Seq<FlowState<V>>,
    second: Seq<FlowState<V>>,
)
    requires
        scale + first.len() <= usize::MAX,
        is_flow_trajectory(flow_eq, start, scale, first + second),
    ensures
        is_flow_trajectory(flow_eq, start, scale, first),
        is_flow_trajectory(flow_eq, params_after(start, first), (scale + first.len()) as usize, second),
{
    let all = first + second;
    let m = first.len() as int;
    let mid = params_after(start, first);
    let s2 = (scale + first.len()) as usize;
    assert forall|k: int| 0 <= k < first.len() implies {
        &&& (#[trigger] first[k]).scale == scale + k + 1
        &&& is_flow_step(flow_eq, params_before(start, first, k), (scale + k) as usize, first[k].parameters@)
    } by {
        assert(all[k] == first[k]);
        if k > 0 {
            assert(all[k - 1] == first[k - 1]);
        }
        assert(params_before(start, all, k) == params_before(start, first, k));
    }
    assert forall|k: int| 0 <= k < second.len() implies {
        &&& (#[trigger] second[k]).scale == s2 + k + 1
        &&& is_flow_step(flow_eq, params_before(mid, second, k), (s2 + k) as usize, second[k].parameters@)
    } by {
        assert(all[m + k] == second[k]);
        if k > 0 {
            assert(all[m + k - 1] == second[k - 1]);
        } else if m > 0 {
            assert(all[m - 1] == first[m - 1]);
        }
        assert(params_before(start, all, m + k) == params_before(mid, second, k));
        assert((scale + (m + k)) as usize == (s2 + k) as usize);
    }
}

/// A trajectory followed by one that starts where it ended is a trajectory.
#[verifier::spinoff_prover]
#[verifier::rlimit(50)]
proof fn lemma_trajectory_join<V, F: FlowEquation<V>>(
    flow_eq: &F,
    start: Seq<V>,
    scale: usize,
    first: Seq<FlowState<V>>,
    second: Seq<FlowState<V>>,
)
    requires
        scale + first.len() <= usize::MAX,
        is_flow_trajectory(flow_eq, start, scale, first),
        is_flow_trajectory(flow_eq, params_after(start, first), (scale + first.len()) as usize, second),
    ensures
        is_flow_trajectory(flow_eq, start, scale, first + second),
{
    let all = first + second;
    let m = first.len() as int;
    let mid = params_after(start, first);
    let s2 = (scale + first.len()) as usize;
    assert forall|k: int| 0 <= k < all.len() implies {
        &&& (#[trigger] all[k]).scale == scale + k + 1
        &&& is_flow_step(flow_eq, params_before(start, all, k), (scale + k) as usize, all[k].parameters@)
    } by {
        if k < m {
            assert(all[k] == first[k]);
            if k > 0 {
                assert(all[k - 1] == first[k - 1]);
            }
            assert(params_before(start, all, k) == params_before(start, first, k));
        } else {
            let j = k - m;
            assert(all[k] == second[j]);
            assert(second[j].scale == s2 + j + 1);
            if j > 0 {
                assert(all[k - 1] == second[j - 1]);
            } else if m > 0 {
                assert(all[k - 1] == first[m - 1]);
            }
            assert(params_before(start, all, k) == params_before(mid, second, j));
            assert((scale + k) as usize == (s2 + j) as usize);
        }
    }
}

/// Evolving in two runs is evolving once: a trajectory of `m` steps followed
/// by one that starts where it ended (same parameters, scale `scale + m`)
/// form a trajectory of `m + n` steps; and every trajectory splits that way.
pub proof fn lemma_trajectory_split<V, F: FlowEquation<V>>(
    flow_eq: &F,
    start: Seq<V>,
    scale: usize,
    first: Seq<FlowState<V>>,
    second: Seq<FlowState<V>>,
)
    requires
        scale + first.len() <= usize::MAX,
    ensures
        is_flow_trajectory(flow_eq, start, scale, first + second) <==> (is_flow_trajectory(
            flow_eq,
            start,
            scale,
            first,
        ) && is_flow_trajectory(
            flow_eq,
            params_after(start, first),
            (scale + first.len()) as usize,
            second,
        )),
{
    if is_flow_trajectory(flow_eq, start, scale, first + second) {
        lemma_trajectory_parts(flow_eq, start, scale, first, second);
    }
    if is_flow_trajectory(flow_eq, start, scale, first) && is_flow_trajectory(
        flow_eq,
        params_after(start, first),
        (scale + first.len()) as usize,
        second,
    ) {
        lemma_trajectory_join(flow_eq, start, scale, first, second);
    }
}

/// State of the RG flow at a particular scale.
#[derive(Debug)]
pub struct RGFlow<V> {
    /// Current parameter values (coupling constants, fields, etc.)
    pub parameters: Vec<V>,
    /// Current scale level
    pub scale: usize,
}

/// The state reached by one step of a flow: its scale and parameters.
#[derive(Debug)]
pub struct FlowState<V> {
    /// Scale at this step
    pub scale: usize,
    /// Parameter values
    pub parameters: Vec<V>,
}

fn copy_params<V: Copy>(v: &Vec<V>) -> (c: Vec<V>)
    ensures
        c@ == v@,
{
    let mut c: Vec<V> = Vec::new();
    let mut i: usize = 0;
    while i < v.len()
        invariant
            i <= v@.len(),
            c@ == v@.subrange(0, i as int),
        decreases v@.len() - i,
    {
        c.push(v[i]);
        i = i + 1;
        assert(c@ =~= v@.subrange(0, i as int));
    }
    assert(v@.subrange(0, i as int) =~= v@);
    c
}

impl<V: Copy> RGFlow<V> {
    /// Create a new RG flow state at scale 0.
    pub fn new(parameters: Vec<V>) -> (flow: Self)
        ensures
            flow.parameters@ == parameters@,
            flow.scale == 0,
    {
        RGFlow { parameters, scale: 0 }
    }

    /// Evolve the flow for `n_steps` steps: each step replaces the parameters
    /// by what `flow_eq.flow_step` gives for them at the current scale, then
    /// moves one scale up. Returns the state after each step, in order.
    pub fn evolve<F: FlowEquation<V>>(&mut self, flow_eq: &F, n_steps: usize) -> (trajectory: Vec<
        FlowState<V>,
    >)
        requires
            old(self).scale + n_steps <= usize::MAX,
        ensures
            final(self).scale == old(self).scale + n_steps,
            trajectory@.len() == n_steps,
            is_flow_trajectory(flow_eq, old(self).parameters@, old(self).scale, trajectory@),
            final(self).parameters@ == params_after(old(self).parameters@, trajectory@),
    {
        let ghost start = self.scale;
        let ghost start_params = self.parameters@;
        let mut trajectory: Vec<FlowState<V>> = Vec::new();
        let mut k: usize = 0;
        while k < n_steps
            invariant
                k <= n_steps,
                start + n_steps <= usize::MAX,
                self.scale == start + k,
                trajectory@.len() == k,
                is_flow_trajectory(flow_eq, start_params, start, trajectory@),
                self.parameters@ == params_after(start_params, trajectory@),
            decreases n_steps - k,
        {
            let current = self.parameters.as_slice();
            let next = flow_eq.flow_step(current, self.scale);
            assert(is_flow_step(flow_eq, current@, self.scale, next@)) by {
                reveal(is_flow_step);
                assert(call_ensures(F::flow_step, (flow_eq, current, self.scale), next));
            }
            let ghost before = trajectory@;
            self.scale = self.scale + 1;
            self.parameters = next;
            let recorded = copy_params(&self.parameters);
            trajectory.push(FlowState { scale: self.scale, parameters: recorded });
            assert forall|i: int| 0 <= i < k implies #[trigger] trajectory@[i] == before[i] by {}
            assert(params_before(start_params, trajectory@, k as int) == params_after(start_params, before));
            k = k + 1;
        }
        trajectory
    }
}

/// The last `n_check` entries of `small` all hold (and there are that many).
pub open spec fn last_steps_small(small: Seq<bool>, n_check: nat) -> bool {
    &&& n_check <= small.len()
    &&& forall|i: int| small.len() - n_check <= i < small.len() ==> #[trigger] small[i]
}

/// Whether a trajectory whose steps were small as `small` says (one entry per
/// step, in order) has converged: it needs at least `n_check` steps, and each
/// of the last `n_check` must be small.
pub fn converged_window(small: &[bool], n_check: usize) -> (converged: bool)
    ensures
        converged == last_steps_small(small@, n_check as nat),
        converged ==> n_check <= small@.len(),
        converged ==> forall|i: int| small@.len() - n_check <= i < small@.len() ==> small@[i],
        n_check <= small@.len() && (forall|i: int|
            small@.len() - n_check <= i < small@.len() ==> small@[i]) ==> converged,
{
    let n = small.len();
    if n < n_check {
        return false;
    }
    let mut i: usize = n - n_check;
    while i < n
        invariant
            n == small@.len(),
            n_check <= n,
            n - n_check <= i <= n,
            forall|j: int| n - n_check <= j < i ==> #[trigger] small@[j],
        decreases n - i,
    {
        if !small[i] {
            return false;
        }
        i = i + 1;
    }
    true
}

/// A step that moved too much defeats every window that contains it: if the
/// last step is not small, no window of one step or more has converged.
pub proof fn lemma_large_last_step_not_converged(small: Seq<bool>, n_check: nat)
    requires
        n_check >= 1,
        small.len() >= 1,
        !small.last(),
    ensures
        !last_steps_small(small, n_check),
{
    if n_check <= small.len() {
        assert(!small[small.len() - 1]);
    }
}

/// Adding one step to a trajectory: the window of `n + 1` last steps has
/// converged exactly when the new step is small and the `n` steps before it
/// had converged.
pub proof fn lemma_window_push(small: Seq<bool>, b: bool, n: nat)
    ensures
        last_steps_small(small.push(b), n + 1) == (b && last_steps_small(small, n)),
{
    let t = small.push(b);
    if b && last_steps_small(small, n) {
        assert forall|i: int| t.len() - (n + 1) <= i < t.len() implies #[trigger] t[i] by {
            if i < small.len() {
                assert(t[i] == small[i]);
            }
        }
    }
    if last_steps_small(t, n + 1) {
        assert(t[t.len() - 1] == b);
        assert forall|i: int| small.len() - n <= i < small.len() implies #[trigger] small[i] by {
            assert(t[i] == small[i]);
        }
    }
}

/// The empty window has always converged; a window longer than the
/// trajectory never has.
pub proof fn lemma_window_bounds(small: Seq<bool>, n_check: nat)
    ensures
        last_steps_small(small, 0),
        n_check > small.len() ==> !last_steps_small(small, n_check),
{
}

/// A longer window asks more: convergence over the last `n_check` steps
/// implies convergence over any shorter window.
pub proof fn lemma_window_monotone(small: Seq<bool>, n_check: nat, m: nat)
    requires
        last_steps_small(small, n_check),
        m <= n_check,
    ensures
        last_steps_small(small, m),
{
}

} // verus!
