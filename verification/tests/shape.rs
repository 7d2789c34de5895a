use luminal::bindings::Bindings;
use luminal::error::ShapeError;
use luminal::expression::Expression;
use luminal::permutation::inverse;
use luminal::shape::{Dimension, ReshapeDim, Shape, UNKNOWN};

fn c(n: usize) -> Dimension {
    Dimension::Constant(n)
}

fn d(s: char) -> Dimension {
    Dimension::Dynamic(s)
}

#[test]
fn size_of_a_dimension() {
    assert_eq!(c(8).const_size(), Expression::Num(8));
    assert_eq!(d('s').const_size(), Expression::Var('s'));
    let mut env = Bindings::new();
    env.bind('s', 5);
    assert_eq!(c(8).resolve(&env), Some(8));
    assert_eq!(d('s').resolve(&env), Some(5));
    assert_eq!(d('t').resolve(&env), None);
    assert_eq!(UNKNOWN, '-');
}

#[test]
fn rank_and_axes_of_a_shape() {
    let shape = Shape::new(vec![d('b'), c(3)]);
    assert_eq!(shape.rank(), 2);
    assert_eq!(shape.dim(0), Some(d('b')));
    assert_eq!(shape.dim(1), Some(c(3)));
    assert_eq!(shape.dim(2), None);
    assert_eq!(Shape::new(vec![]).rank(), 0);
}

#[test]
fn shapes_are_equal_when_classified_alike() {
    assert_eq!(Shape::new(vec![d('b'), c(3)]), Shape::new(vec![d('b'), c(3)]));
    assert_ne!(Shape::new(vec![d('b'), c(3)]), Shape::new(vec![d('c'), c(3)]));
    assert_ne!(Shape::new(vec![c(3)]), Shape::new(vec![d('s')]));
    assert_ne!(Shape::new(vec![c(3)]), Shape::new(vec![c(3), c(1)]));
    let shape = Shape::new(vec![d('b'), c(3)]);
    assert_eq!(shape.clone(), shape);
}

#[test]
fn permute_relabels_axes() {
    let shape = Shape::new(vec![d('b'), c(3), c(5)]);
    assert_eq!(shape.permute(&vec![2, 0, 1]), Ok(Shape::new(vec![c(5), d('b'), c(3)])));
    assert_eq!(shape.permute(&vec![0, 1, 2]), Ok(shape));
}

#[test]
fn permute_refuses_what_is_no_bijection() {
    let shape = Shape::new(vec![d('b'), c(3), c(5)]);
    assert_eq!(shape.permute(&vec![0, 0, 1]), Err(ShapeError::InvalidRange));
    assert_eq!(shape.permute(&vec![0, 1]), Err(ShapeError::InvalidRange));
    assert_eq!(shape.permute(&vec![0, 1, 3]), Err(ShapeError::InvalidRange));
    assert_eq!(shape.permute(&vec![0, 1, 2, 3]), Err(ShapeError::InvalidRange));
}

#[test]
fn permute_round_trip_restores_the_shape() {
    let shape = Shape::new(vec![d('b'), c(3), d('s'), c(7)]);
    let p = vec![0, 2, 1, 3];
    let q = inverse(&p).unwrap();
    assert_eq!(shape.permute(&p).unwrap().permute(&q), Ok(shape.clone()));
    let p = vec![3, 0, 2, 1];
    let q = inverse(&p).unwrap();
    assert_eq!(shape.permute(&p).unwrap().permute(&q), Ok(shape.clone()));
    assert_eq!(shape.permute(&q).unwrap().permute(&p), Ok(shape));
}

#[test]
fn expand_puts_in_a_new_axis() {
    let shape = Shape::new(vec![d('s'), c(4)]);
    let target = Shape::new(vec![d('b'), d('s'), c(4)]);
    assert_eq!(shape.expand(0, &target), Ok(target));
    let target = Shape::new(vec![d('s'), c(4), c(9)]);
    assert_eq!(shape.expand(2, &target), Ok(target));
}

#[test]
fn expand_stretches_an_axis_of_size_one() {
    let shape = Shape::new(vec![c(1), c(4)]);
    let target = Shape::new(vec![d('b'), c(4)]);
    assert_eq!(shape.expand(0, &target), Ok(target));
}

#[test]
fn expand_refuses_a_target_that_does_not_match() {
    let shape = Shape::new(vec![d('s'), c(4)]);
    let target = Shape::new(vec![d('b'), d('s'), c(4)]);
    assert_eq!(shape.expand(1, &target), Err(ShapeError::ShapeMismatch));
    assert_eq!(shape.expand(3, &target), Err(ShapeError::ShapeMismatch));
    let other = Shape::new(vec![d('b'), d('s'), c(5)]);
    assert_eq!(shape.expand(0, &other), Err(ShapeError::ShapeMismatch));
    let same_rank = Shape::new(vec![d('b'), c(4)]);
    assert_eq!(shape.expand(0, &same_rank), Err(ShapeError::ShapeMismatch));
    let too_long = Shape::new(vec![d('b'), d('b'), d('s'), c(4)]);
    assert_eq!(shape.expand(0, &too_long), Err(ShapeError::ShapeMismatch));
}

#[test]
fn reshape_takes_constants_and_earlier_axes() {
    let shape = Shape::new(vec![d('b'), d('s'), c(8)]);
    let target = vec![
        ReshapeDim::PrevDim(0),
        ReshapeDim::PrevDim(1),
        ReshapeDim::Const(2),
        ReshapeDim::Const(4),
    ];
    assert_eq!(shape.reshape(&target), Ok(Shape::new(vec![d('b'), d('s'), c(2), c(4)])));
    assert_eq!(
        shape.reshape(&vec![ReshapeDim::PrevDim(2), ReshapeDim::PrevDim(2)]),
        Ok(Shape::new(vec![c(8), c(8)]))
    );
    assert_eq!(shape.reshape(&vec![]), Ok(Shape::new(vec![])));
}

#[test]
fn reshape_refuses_an_axis_that_is_not_there() {
    let shape = Shape::new(vec![d('b'), d('s'), c(8)]);
    assert_eq!(
        shape.reshape(&vec![ReshapeDim::PrevDim(0), ReshapeDim::PrevDim(3)]),
        Err(ShapeError::InvalidRange)
    );
}

#[test]
fn concat_adds_constants() {
    let a = Shape::new(vec![c(4), c(3)]);
    let b = Shape::new(vec![c(4), c(5)]);
    assert_eq!(a.concat(&b, 1), Ok(Shape::new(vec![c(4), c(8)])));
}

#[test]
fn concat_with_a_run_time_size_is_dynamic() {
    let a = Shape::new(vec![c(4), d('s')]);
    let b = Shape::new(vec![c(4), c(5)]);
    assert_eq!(a.concat(&b, 1), Ok(Shape::new(vec![c(4), d('-')])));
    assert_eq!(b.concat(&a, 1), Ok(Shape::new(vec![c(4), d('-')])));
    let e = Shape::new(vec![d('b'), d('s')]);
    assert_eq!(e.concat(&e, 0), Ok(Shape::new(vec![d('-'), d('s')])));
}

#[test]
fn concat_refuses_disagreeing_shapes() {
    let a = Shape::new(vec![c(4), c(3)]);
    assert_eq!(a.concat(&Shape::new(vec![c(5), c(3)]), 1), Err(ShapeError::ShapeMismatch));
    assert_eq!(a.concat(&Shape::new(vec![d('b'), c(3)]), 1), Err(ShapeError::ShapeMismatch));
    assert_eq!(a.concat(&Shape::new(vec![c(4)]), 0), Err(ShapeError::ShapeMismatch));
    assert_eq!(a.concat(&Shape::new(vec![c(4), c(3)]), 2), Err(ShapeError::ShapeMismatch));
}
