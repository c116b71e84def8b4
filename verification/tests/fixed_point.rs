use renormalization_group::fixed_point::{param_names, DirectionClass, FixedPoint};

#[test]
fn test_direction_classification() {
    // eigenvalues 4.0 (relevant) and 0.5 (irrelevant)
    let fp = FixedPoint {
        directions: vec![DirectionClass::Relevant, DirectionClass::Irrelevant],
    };
    assert_eq!(fp.classify_direction(0), DirectionClass::Relevant);
    assert_eq!(fp.classify_direction(1), DirectionClass::Irrelevant);
    assert_eq!(fp.n_relevant(), 1);
    assert_eq!(fp.n_irrelevant(), 1);
    assert_eq!(fp.codimension(), 1);
}

#[test]
fn out_of_range_direction_is_marginal() {
    let fp = FixedPoint { directions: vec![DirectionClass::Relevant] };
    assert_eq!(fp.classify_direction(1), DirectionClass::Marginal);
    assert_eq!(fp.classify_direction(usize::MAX), DirectionClass::Marginal);
}

#[test]
fn counts_partition_directions() {
    let fp = FixedPoint {
        directions: vec![
            DirectionClass::Relevant,
            DirectionClass::Marginal,
            DirectionClass::Relevant,
            DirectionClass::Irrelevant,
            DirectionClass::Relevant,
        ],
    };
    assert_eq!(fp.n_relevant(), 3);
    assert_eq!(fp.n_irrelevant(), 1);
    assert_eq!(fp.codimension(), 3);
    assert_eq!(fp.n_relevant() + fp.n_irrelevant() + 1, fp.directions.len());
}

#[test]
fn no_directions_no_relevant() {
    let fp = FixedPoint { directions: vec![] };
    assert_eq!(fp.n_relevant(), 0);
    assert_eq!(fp.n_irrelevant(), 0);
    assert_eq!(fp.codimension(), 0);
}

#[test]
fn param_names_are_numbered() {
    let names = param_names(12);
    assert_eq!(names.len(), 12);
    assert_eq!(names[0], "param_0");
    assert_eq!(names[1], "param_1");
    assert_eq!(names[10], "param_10");
    assert_eq!(names[11], "param_11");
    assert!(param_names(0).is_empty());
}

#[test]
fn param_names_large_index() {
    let names = param_names(1235);
    assert_eq!(names[1234], "param_1234");
    assert_eq!(names[100], "param_100");
}
