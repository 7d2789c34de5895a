use luminal::bindings::Bindings;
use luminal::expression::{Expression, Operator};

fn num(n: usize) -> Expression {
    Expression::Num(n)
}

fn var(c: char) -> Expression {
    Expression::Var(c)
}

fn node(op: Operator, a: Expression, b: Expression) -> Expression {
    Expression::Binary(op, Box::new(a), Box::new(b))
}

#[test]
fn literals_fold_under_every_operator() {
    assert_eq!(num(2) + num(3), num(5));
    assert_eq!(num(7) - num(3), num(4));
    assert_eq!(num(4) * num(5), num(20));
    assert_eq!(num(17) / num(5), num(3));
    assert_eq!(num(4).min(num(9)), num(4));
    assert_eq!(num(4).max(num(9)), num(9));
}

#[test]
fn apply_is_checked_arithmetic() {
    assert_eq!(Operator::Add.apply(usize::MAX, 1), None);
    assert_eq!(Operator::Add.apply(usize::MAX - 1, 1), Some(usize::MAX));
    assert_eq!(Operator::Sub.apply(3, 4), None);
    assert_eq!(Operator::Sub.apply(4, 4), Some(0));
    assert_eq!(Operator::Mul.apply(usize::MAX, 2), None);
    assert_eq!(Operator::Mul.apply(6, 7), Some(42));
    assert_eq!(Operator::Div.apply(6, 0), None);
    assert_eq!(Operator::Div.apply(7, 2), Some(3));
    assert_eq!(Operator::Min.apply(7, 2), Some(2));
    assert_eq!(Operator::Max.apply(7, 2), Some(7));
}

#[test]
fn undefined_literal_arithmetic_is_not_folded() {
    assert_eq!(num(usize::MAX) + num(1), node(Operator::Add, num(usize::MAX), num(1)));
    assert_eq!(num(3) - num(4), node(Operator::Sub, num(3), num(4)));
    assert_eq!(num(3) / num(0), node(Operator::Div, num(3), num(0)));
    assert_eq!((num(3) - num(4)).to_usize(), None);
}

#[test]
fn symbols_stay_symbolic() {
    assert_eq!(var('s') + num(1), node(Operator::Add, var('s'), num(1)));
    assert_eq!(num(0) + var('s'), node(Operator::Add, num(0), var('s')));
    assert_eq!((var('s') + num(1)).to_usize(), None);
    assert_eq!(var('s').to_usize(), None);
}

#[test]
fn closed_terms_convert_to_integers() {
    assert_eq!(num(12).to_usize(), Some(12));
    let unfolded = node(Operator::Mul, node(Operator::Add, num(1), num(2)), num(4));
    assert_eq!(unfolded.to_usize(), Some(12));
}

#[test]
fn resolve_binds_symbols() {
    let mut env = Bindings::new();
    env.bind('b', 2);
    env.bind('s', 5);
    let e = (var('b') * var('s')) + num(1);
    assert_eq!(e.resolve(&env), Some(11));
    assert_eq!((var('s') - var('b')).resolve(&env), Some(3));
    assert_eq!((var('b') - var('s')).resolve(&env), None);
    assert_eq!((var('s') / (var('b') - num(2))).resolve(&env), None);
    assert_eq!(var('x').resolve(&env), None);
    assert_eq!(var('s').min(var('b')).resolve(&env), Some(2));
    assert_eq!(var('s').max(var('b')).resolve(&env), Some(5));
}

#[test]
fn later_binding_replaces_earlier() {
    let mut env = Bindings::new();
    assert_eq!(env.get('s'), None);
    env.bind('s', 5);
    env.bind('t', 1);
    env.bind('s', 9);
    assert_eq!(env.get('s'), Some(9));
    assert_eq!(env.get('t'), Some(1));
    assert_eq!(var('s').resolve(&env), Some(9));
}

#[test]
fn folding_keeps_the_value() {
    let mut env = Bindings::new();
    env.bind('n', 7);
    let folded = num(2) + num(3);
    let raw = node(Operator::Add, num(2), num(3));
    assert_eq!(folded.resolve(&env), raw.resolve(&env));
    let folded = Expression::binary(Operator::Mul, var('n'), num(3));
    let raw = node(Operator::Mul, var('n'), num(3));
    assert_eq!(folded.resolve(&env), Some(21));
    assert_eq!(raw.resolve(&env), Some(21));
}

#[test]
fn equality_is_structural() {
    assert_eq!(var('a') + num(1), var('a') + num(1));
    assert_ne!(var('a') + num(1), num(1) + var('a'));
    assert_ne!(var('a'), var('b'));
    assert_ne!(num(1), var('a'));
    assert_ne!(var('a') + num(1), var('a') - num(1));
    assert_ne!(node(Operator::Add, num(1), num(2)), num(3));
}

#[test]
fn clone_is_the_same_term() {
    let e = (var('a') + num(1)) * var('b');
    assert_eq!(e.clone(), e);
}

#[test]
fn conversions_make_literals_symbols_and_copies() {
    assert_eq!(Expression::from(4usize), num(4));
    assert_eq!(Expression::from('s'), var('s'));
    let e = var('a') + num(1);
    assert_eq!(Expression::from(&e), e);
}

#[test]
fn simplify_folds_terms_put_together_by_hand() {
    let raw = node(Operator::Mul, node(Operator::Add, num(1), num(2)), num(4));
    assert_eq!(raw.simplify(), num(12));
    let raw = node(Operator::Add, var('s'), node(Operator::Sub, num(5), num(2)));
    assert_eq!(raw.simplify(), node(Operator::Add, var('s'), num(3)));
    let raw = node(Operator::Add, num(1), node(Operator::Sub, num(2), num(5)));
    assert_eq!(raw.simplify(), raw);
    assert_eq!(var('s').simplify(), var('s'));
    assert_eq!(num(3).simplify(), num(3));
}
