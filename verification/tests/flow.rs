use renormalization_group::flow::{converged_window, FlowEquation, RGFlow};

struct Doubling;

impl FlowEquation<f64> for Doubling {
    fn flow_step(&self, params: &[f64], _scale: usize) -> Vec<f64> {
        params.iter().map(|p| 2.0 * p).collect()
    }
    fn dim(&self) -> usize {
        1
    }
}

#[test]
fn evolve_advances_scale_and_records_each_step() {
    let mut flow = RGFlow::new(vec![1.0]);
    assert_eq!(flow.scale, 0);
    let traj = flow.evolve(&Doubling, 3);
    assert_eq!(flow.scale, 3);
    assert_eq!(traj.len(), 3);
    assert_eq!(traj[0].scale, 1);
    assert_eq!(traj[2].scale, 3);
    assert_eq!(traj[0].parameters, vec![2.0]);
    assert_eq!(traj[2].parameters, vec![8.0]);
    assert_eq!(flow.parameters, vec![8.0]);
}

#[test]
fn evolve_twice_adds_scales() {
    let mut flow = RGFlow::new(vec![0.5]);
    flow.evolve(&Doubling, 2);
    let traj = flow.evolve(&Doubling, 4);
    assert_eq!(flow.scale, 6);
    assert_eq!(traj[0].scale, 3);
}

#[test]
fn evolve_zero_steps_changes_nothing() {
    let mut flow = RGFlow::new(vec![0.25, 1.0]);
    let traj = flow.evolve(&Doubling, 0);
    assert!(traj.is_empty());
    assert_eq!(flow.scale, 0);
    assert_eq!(flow.parameters, vec![0.25, 1.0]);
}

#[test]
fn window_needs_enough_steps() {
    assert!(!converged_window(&[true, true], 3));
    assert!(converged_window(&[true, true, true], 3));
}

#[test]
fn window_looks_at_last_steps_only() {
    assert!(converged_window(&[false, false, true, true, true], 3));
    assert!(!converged_window(&[true, true, false, true, true], 3));
    assert!(converged_window(&[false], 0));
}

struct AddScale;

impl FlowEquation<f64> for AddScale {
    fn flow_step(&self, params: &[f64], scale: usize) -> Vec<f64> {
        params.iter().map(|p| p + scale as f64).collect()
    }
    fn dim(&self) -> usize {
        1
    }
}

#[test]
fn evolve_hands_each_step_the_previous_parameters_and_scale() {
    let mut flow = RGFlow::new(vec![0.0]);
    flow.scale = 2;
    let traj = flow.evolve(&AddScale, 3);
    // 0 + 2 = 2, 2 + 3 = 5, 5 + 4 = 9
    assert_eq!(traj[0].parameters, vec![2.0]);
    assert_eq!(traj[1].parameters, vec![5.0]);
    assert_eq!(traj[2].parameters, vec![9.0]);
    assert_eq!(flow.parameters, vec![9.0]);
    assert_eq!(flow.scale, 5);
}

#[test]
fn evolve_in_two_runs_matches_one_run() {
    let mut split = RGFlow::new(vec![1.0]);
    let mut first = split.evolve(&AddScale, 2);
    let second = split.evolve(&AddScale, 3);
    first.extend(second);
    let mut whole = RGFlow::new(vec![1.0]);
    let all = whole.evolve(&AddScale, 5);
    assert_eq!(first.len(), all.len());
    for (a, b) in first.iter().zip(all.iter()) {
        assert_eq!(a.scale, b.scale);
        assert_eq!(a.parameters, b.parameters);
    }
    assert_eq!(split.parameters, whole.parameters);
    assert_eq!(split.scale, whole.scale);
}
