use renormalization_group::scaling;
use renormalization_group::universality::{CriticalExponent, FleetModel, UniversalityClass};

fn exp(name: &str, value: f64) -> CriticalExponent<f64> {
    CriticalExponent { name: name.to_string(), value, description: String::new() }
}

fn class(name: &str, exps: Vec<CriticalExponent<f64>>) -> UniversalityClass<f64> {
    UniversalityClass {
        name: name.to_string(),
        exponents: exps,
        dimension: 3,
        n_components: 1,
        description: String::new(),
    }
}

#[test]
fn test_fleet_model_creation() {
    let model = FleetModel::new("test", vec![1.0, 2.0], "1D chain");
    assert_eq!(model.name, "test");
    assert_eq!(model.parameters.len(), 2);
}

#[test]
fn fleet_model_keeps_topology() {
    let model = FleetModel::new("m", vec![0.5f64], "ring");
    assert_eq!(model.topology, "ring");
    assert_eq!(model.parameters, vec![0.5]);
}

#[test]
fn exponent_lookup_by_name() {
    let c = class("c", vec![exp("alpha", 0.0), exp("beta", 0.5), exp("gamma", 1.0)]);
    assert_eq!(c.exponent("beta"), Some(0.5));
    assert_eq!(c.exponent("gamma"), Some(1.0));
    assert_eq!(c.exponent("delta"), None);
    assert_eq!(c.exponent(""), None);
}

#[test]
fn exponent_lookup_takes_first_of_a_name() {
    let c = class("c", vec![exp("nu", 0.6), exp("nu", 0.7)]);
    assert_eq!(c.exponent("nu"), Some(0.6));
}

#[test]
fn pairs_match_by_name_not_position() {
    let a = class("a", vec![exp("beta", 0.3), exp("nu", 0.6)]);
    let b = class("b", vec![exp("nu", 0.61), exp("beta", 0.31)]);
    let pairs = a.exponent_pairs(&b).unwrap();
    assert_eq!(pairs, vec![(0.3, 0.31), (0.6, 0.61)]);
}

#[test]
fn pairs_of_renamed_copy_are_equal() {
    let a = class("3D Ising", vec![exp("beta", 0.326), exp("nu", 0.630)]);
    let b = class("Fleet Ising 3D", vec![exp("beta", 0.326), exp("nu", 0.630)]);
    let pairs = a.exponent_pairs(&b).unwrap();
    assert!(pairs.iter().all(|(x, y)| x == y));
}

#[test]
fn pairs_none_on_length_mismatch() {
    let a = class("a", vec![exp("beta", 0.3)]);
    let b = class("b", vec![exp("beta", 0.3), exp("nu", 0.6)]);
    assert!(a.exponent_pairs(&b).is_none());
}

#[test]
fn pairs_none_on_missing_name() {
    let a = class("a", vec![exp("beta", 0.3), exp("eta", 0.03)]);
    let b = class("b", vec![exp("beta", 0.3), exp("nu", 0.6)]);
    assert!(a.exponent_pairs(&b).is_none());
}

#[test]
fn scaling_exponent_new() {
    let e = scaling::CriticalExponent::new("gamma/nu", 2.0);
    assert_eq!(e.name, "gamma/nu");
    assert_eq!(e.value, 2.0);
}
