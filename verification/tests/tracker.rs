use luminal::bindings::Bindings;
use luminal::error::ShapeError;
use luminal::expression::{Expression, Operator};
use luminal::permutation::inverse;
use luminal::shape::slice::{SliceOfShape, SliceRange};
use luminal::shape::{Dimension, ReshapeDim, Shape};
use luminal::tracker::{is_inverted, Axis, ShapeTracker};

fn num(n: usize) -> Expression {
    Expression::Num(n)
}

fn var(c: char) -> Expression {
    Expression::Var(c)
}

fn axis(source: usize, start: usize, end: usize) -> Axis {
    Axis { source: Some(source), start: num(start), end: num(end) }
}

fn constants(sizes: &[usize]) -> Shape {
    Shape::new(sizes.iter().map(|n| Dimension::Constant(*n)).collect())
}

#[test]
fn new_tracker_reads_everything_in_storage_order() {
    let t = ShapeTracker::new(&Shape::new(vec![Dimension::Dynamic('b'), Dimension::Constant(3)]));
    assert_eq!(t.rank(), 2);
    assert_eq!(
        t.axes,
        vec![Axis { source: Some(0), start: num(0), end: var('b') }, axis(1, 0, 3)]
    );
    let u = ShapeTracker::from_sizes(vec![var('b'), num(3)]);
    assert_eq!(u, t);
    assert_eq!(t.clone(), t);
}

#[test]
fn extent_is_end_minus_start() {
    assert_eq!(axis(0, 2, 8).extent(), num(6));
    let a = Axis { source: Some(0), start: num(2), end: var('n') };
    assert_eq!(a.extent(), Expression::Binary(Operator::Sub, Box::new(var('n')), Box::new(num(2))));
}

#[test]
fn inverted_only_when_known() {
    assert!(is_inverted(&num(6), &num(3)));
    assert!(!is_inverted(&num(3), &num(3)));
    assert!(!is_inverted(&num(3), &num(6)));
    assert!(!is_inverted(&num(6), &var('n')));
    assert!(!is_inverted(&var('n'), &num(0)));
}

#[test]
fn nested_slices_compose() {
    for size in [8usize, 9, 100] {
        let t = ShapeTracker::new(&constants(&[size]));
        let once = t.slice(&vec![(num(3), num(6))]).unwrap();
        let twice = t
            .slice(&vec![(num(2), num(8))])
            .unwrap()
            .slice(&vec![(num(1), num(4))])
            .unwrap();
        assert_eq!(twice, once);
        assert_eq!(twice.axes, vec![axis(0, 3, 6)]);
    }
}

#[test]
fn nested_slices_compose_under_bindings() {
    let shape = Shape::new(vec![Dimension::Dynamic('n')]);
    let t = ShapeTracker::new(&shape);
    let twice = t
        .slice(&vec![(var('a'), var('b'))])
        .unwrap()
        .slice(&vec![(num(1), var('c'))])
        .unwrap();
    let once = t.slice(&vec![(var('a') + num(1), (var('a') + var('c')).min(var('b')))]).unwrap();
    let mut env = Bindings::new();
    env.bind('n', 20);
    env.bind('a', 2);
    env.bind('b', 8);
    env.bind('c', 4);
    assert_eq!(twice.resolve(&env), Ok(vec![(3, 6)]));
    assert_eq!(once.resolve(&env), Ok(vec![(3, 6)]));
    env.bind('c', 40);
    assert_eq!(twice.resolve(&env), Ok(vec![(3, 8)]));
    assert_eq!(once.resolve(&env), Ok(vec![(3, 8)]));
}

#[test]
fn slice_is_cut_off_at_the_end_of_the_axis() {
    let t = ShapeTracker::new(&constants(&[10]));
    let s = t.slice(&vec![(num(3), num(2147483647))]).unwrap();
    assert_eq!(s.axes, vec![axis(0, 3, 10)]);
    let s = s.slice(&vec![(num(0), num(2147483647))]).unwrap();
    assert_eq!(s.axes, vec![axis(0, 3, 10)]);
}

#[test]
fn slice_of_a_run_time_axis_keeps_symbols() {
    let t = ShapeTracker::new(&Shape::new(vec![Dimension::Dynamic('s')]));
    let s = t.slice(&vec![(num(3), num(2147483647))]).unwrap();
    assert_eq!(
        s.axes,
        vec![Axis {
            source: Some(0),
            start: num(3),
            end: Expression::Binary(
                Operator::Min,
                Box::new(num(2147483647)),
                Box::new(var('s'))
            ),
        }]
    );
    let mut env = Bindings::new();
    env.bind('s', 12);
    assert_eq!(s.resolve(&env), Ok(vec![(3, 12)]));
    env.bind('s', 2);
    assert_eq!(s.resolve(&env), Err(ShapeError::InvalidRange));
}

#[test]
fn inverted_slice_is_an_invalid_range() {
    let t = ShapeTracker::new(&constants(&[10]));
    assert_eq!(t.slice(&vec![(num(6), num(3))]), Err(ShapeError::InvalidRange));
    let d = ShapeTracker::new(&Shape::new(vec![Dimension::Dynamic('s')]));
    assert_eq!(d.slice(&vec![(num(6), num(3))]), Err(ShapeError::InvalidRange));
}

#[test]
fn slice_past_the_end_is_an_invalid_range() {
    let t = ShapeTracker::new(&constants(&[10]));
    assert_eq!(t.slice(&vec![(num(12), num(15))]), Err(ShapeError::InvalidRange));
    assert!(t.slice(&vec![(num(10), num(15))]).is_ok());
    let inner = t.slice(&vec![(num(2), num(8))]).unwrap();
    assert_eq!(inner.slice(&vec![(num(7), num(9))]), Err(ShapeError::InvalidRange));
}

#[test]
fn tracker_slice_of_the_wrong_rank_is_a_mismatch() {
    let t = ShapeTracker::new(&constants(&[10, 10]));
    assert_eq!(t.slice(&vec![(num(0), num(3))]), Err(ShapeError::ShapeMismatch));
    assert_eq!(t.slice(&vec![]), Err(ShapeError::ShapeMismatch));
}

#[test]
fn empty_slice_is_accepted() {
    let t = ShapeTracker::new(&constants(&[10]));
    let s = t.slice(&vec![(num(4), num(4))]).unwrap();
    assert_eq!(s.axes, vec![axis(0, 4, 4)]);
}

#[test]
fn permute_relabels_and_round_trips() {
    let t = ShapeTracker::new(&constants(&[2, 3, 5]))
        .slice(&vec![(num(0), num(2)), (num(1), num(3)), (num(2), num(4))])
        .unwrap();
    let p = vec![2, 0, 1];
    let permuted = t.permute(&p).unwrap();
    assert_eq!(permuted.axes, vec![axis(2, 2, 4), axis(0, 0, 2), axis(1, 1, 3)]);
    let q = inverse(&p).unwrap();
    assert_eq!(permuted.permute(&q), Ok(t.clone()));
    assert_eq!(t.permute(&q).unwrap().permute(&p), Ok(t));
}

#[test]
fn tracker_permute_refuses_what_is_no_bijection() {
    let t = ShapeTracker::new(&constants(&[2, 3]));
    assert_eq!(t.permute(&vec![0, 0]), Err(ShapeError::InvalidRange));
    assert_eq!(t.permute(&vec![0]), Err(ShapeError::InvalidRange));
    assert_eq!(t.permute(&vec![0, 2]), Err(ShapeError::InvalidRange));
}

#[test]
fn slice_after_permute_applies_to_the_relabelled_axis() {
    let t = ShapeTracker::new(&constants(&[4, 9])).permute(&vec![1, 0]).unwrap();
    let s = t.slice(&vec![(num(2), num(5)), (num(0), num(4))]).unwrap();
    assert_eq!(s.axes, vec![axis(1, 2, 5), axis(0, 0, 4)]);
}

#[test]
fn expand_puts_in_an_axis_that_visits_no_storage() {
    let t = ShapeTracker::new(&constants(&[4]));
    let e = t.expand(0, var('b')).unwrap();
    assert_eq!(e.axes, vec![Axis { source: None, start: num(0), end: var('b') }, axis(0, 0, 4)]);
    let e = t.expand(1, num(7)).unwrap();
    assert_eq!(e.axes, vec![axis(0, 0, 4), Axis { source: None, start: num(0), end: num(7) }]);
    assert_eq!(t.expand(2, num(7)), Err(ShapeError::ShapeMismatch));
}

#[test]
fn broadcast_turns_an_axis_into_one_that_visits_no_storage() {
    let t = ShapeTracker::new(&constants(&[1, 4]));
    let e = t.broadcast(0, num(6)).unwrap();
    assert_eq!(e.axes, vec![Axis { source: None, start: num(0), end: num(6) }, axis(1, 0, 4)]);
    assert_eq!(t.broadcast(2, num(6)), Err(ShapeError::ShapeMismatch));
}

#[test]
fn tracker_reshape_passes_run_time_sizes_through() {
    let shape =
        Shape::new(vec![Dimension::Dynamic('b'), Dimension::Dynamic('s'), Dimension::Constant(8)]);
    let t = ShapeTracker::new(&shape);
    let target = vec![
        ReshapeDim::PrevDim(0),
        ReshapeDim::PrevDim(1),
        ReshapeDim::Const(2),
        ReshapeDim::Const(4),
    ];
    let r = t.reshape(&target).unwrap();
    assert_eq!(r.rank(), 4);
    let mut env = Bindings::new();
    env.bind('b', 2);
    env.bind('s', 5);
    assert_eq!(t.sizes(&env), Ok(vec![2, 5, 8]));
    assert_eq!(r.sizes(&env), Ok(vec![2, 5, 2, 4]));
    assert_eq!(r.resolve(&env), Ok(vec![(0, 2), (0, 5), (0, 2), (0, 4)]));
    assert_eq!(
        shape.reshape(&target),
        Ok(Shape::new(vec![
            Dimension::Dynamic('b'),
            Dimension::Dynamic('s'),
            Dimension::Constant(2),
            Dimension::Constant(4),
        ]))
    );
}

#[test]
fn reshape_of_a_slice_takes_the_size_of_the_slice() {
    let t = ShapeTracker::new(&constants(&[10])).slice(&vec![(num(2), num(8))]).unwrap();
    let r = t.reshape(&vec![ReshapeDim::PrevDim(0), ReshapeDim::Const(1)]).unwrap();
    assert_eq!(r.axes, vec![axis(0, 0, 6), axis(1, 0, 1)]);
    assert_eq!(t.reshape(&vec![ReshapeDim::PrevDim(1)]), Err(ShapeError::InvalidRange));
}

#[test]
fn concat_then_slice_recovers_the_inputs() {
    let a = constants(&[4, 3]);
    let b = constants(&[4, 5]);
    let joined_shape = a.concat(&b, 1).unwrap();
    assert_eq!(joined_shape, constants(&[4, 8]));
    let joined = ShapeTracker::new(&a).concat(&ShapeTracker::new(&b), 1).unwrap();
    assert_eq!(joined, ShapeTracker::new(&joined_shape));

    let env = Bindings::new();
    let first = vec![SliceRange::Full, SliceRange::Range(num(0), num(3))];
    let second = vec![SliceRange::Full, SliceRange::Range(num(3), num(8))];
    let left = joined.slice(&first.to_range_vec(&joined_shape).unwrap()).unwrap();
    let right = joined.slice(&second.to_range_vec(&joined_shape).unwrap()).unwrap();
    assert_eq!(left.resolve(&env), Ok(vec![(0, 4), (0, 3)]));
    assert_eq!(right.resolve(&env), Ok(vec![(0, 4), (3, 8)]));
    assert_eq!(left.sizes(&env), Ok(vec![4, 3]));
    assert_eq!(right.sizes(&env), Ok(vec![4, 5]));
}

#[test]
fn sizes_are_the_lengths_of_the_ranges() {
    let t = ShapeTracker::new(&Shape::new(vec![Dimension::Dynamic('s'), Dimension::Constant(9)]))
        .slice(&vec![(num(1), var('s')), (num(2), num(7))])
        .unwrap();
    let mut env = Bindings::new();
    assert_eq!(t.sizes(&env), Err(ShapeError::UnboundSymbol));
    env.bind('s', 6);
    assert_eq!(t.sizes(&env), Ok(vec![5, 5]));
    env.bind('s', 1);
    assert_eq!(t.sizes(&env), Ok(vec![0, 5]));
    env.bind('s', 0);
    assert_eq!(t.sizes(&env), Err(ShapeError::InvalidRange));
    assert_eq!(ShapeTracker::new(&Shape::new(vec![])).sizes(&env), Ok(vec![]));
}

#[test]
fn concat_of_run_time_sizes_adds_them_when_bound() {
    let a = ShapeTracker::new(&Shape::new(vec![Dimension::Dynamic('m')]));
    let b = ShapeTracker::new(&Shape::new(vec![Dimension::Dynamic('n')]));
    let joined = a.concat(&b, 0).unwrap();
    let mut env = Bindings::new();
    env.bind('m', 3);
    env.bind('n', 5);
    assert_eq!(joined.resolve(&env), Ok(vec![(0, 8)]));
}

#[test]
fn concat_refuses_ranks_that_differ() {
    let a = ShapeTracker::new(&constants(&[4, 3]));
    let b = ShapeTracker::new(&constants(&[4]));
    assert_eq!(a.concat(&b, 0), Err(ShapeError::ShapeMismatch));
    assert_eq!(a.concat(&a, 2), Err(ShapeError::ShapeMismatch));
}

#[test]
fn resolve_reports_unbound_symbols_first() {
    let t = ShapeTracker {
        axes: vec![axis(0, 6, 3), Axis { source: Some(1), start: num(0), end: var('s') }],
    };
    let mut env = Bindings::new();
    assert_eq!(t.resolve(&env), Err(ShapeError::UnboundSymbol));
    assert_eq!(t.resolved(&env), Err(ShapeError::UnboundSymbol));
    env.bind('s', 4);
    assert_eq!(t.resolve(&env), Err(ShapeError::InvalidRange));
    assert_eq!(t.resolved(&env), Err(ShapeError::InvalidRange));
}

#[test]
fn resolved_view_has_literal_bounds() {
    let t = ShapeTracker::new(&Shape::new(vec![Dimension::Dynamic('s'), Dimension::Constant(4)]))
        .permute(&vec![1, 0])
        .unwrap();
    let mut env = Bindings::new();
    env.bind('s', 9);
    assert_eq!(t.resolved(&env), Ok(ShapeTracker { axes: vec![axis(1, 0, 4), axis(0, 0, 9)] }));
}
