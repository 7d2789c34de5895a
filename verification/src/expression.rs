//! Symbolic integer arithmetic over literals and named run-time symbols.
//!
//! An [`Expression`] is a term built from machine-word literals, symbols and binary
//! operators. Its meaning is its [`Expression::value`] under a binding of symbols to
//! integers; the arithmetic is checked, so a term whose evaluation would leave the
//! machine word, subtract below zero or divide by zero has no value.

use vstd::prelude::*;
use crate::bindings::Bindings;

verus! {

/// A binary operator of the algebra.
#[derive(Clone, Copy, Debug, PartialEq, Eq, Structural)]
pub enum Operator {
    Add,
    Sub,
    Mul,
    Div,
    Min,
    Max,
}

impl Operator {
    /// The result of the operator on two integers, where it is defined and fits a
    /// machine word.
    pub open spec fn spec_apply(self, a: usize, b: usize) -> Option<usize> {
        match self {
            Operator::Add => if a + b <= usize::MAX {
                Some((a + b) as usize)
            } else {
                None
            },
            Operator::Sub => if b <= a {
                Some((a - b) as usize)
            } else {
                None
            },
            Operator::Mul => if a * b <= usize::MAX {
                Some((a * b) as usize)
            } else {
                None
            },
            Operator::Div => if b != 0 {
                Some(a / b)
            } else {
                None
            },
            Operator::Min => Some(if a <= b { a } else { b }),
            Operator::Max => Some(if a <= b { b } else { a }),
        }
    }

    /// Applies the operator with checked arithmetic.
    pub fn apply(self, a: usize, b: usize) -> (r: Option<usize>)
        ensures
            r == self.spec_apply(a, b),
    {
        match self {
            Operator::Add => a.checked_add(b),
            Operator::Sub => a.checked_sub(b),
            Operator::Mul => a.checked_mul(b),
            Operator::Div => a.checked_div(b),
            Operator::Min => Some(if a <= b { a } else { b }),
            Operator::Max => Some(if a <= b { b } else { a }),
        }
    }
}

/// A symbolic integer term.
#[derive(Debug)]
pub enum Expression {
    /// A literal.
    Num(usize),
    /// A symbol whose value is bound when the graph runs.
    Var(char),
    /// An operator applied to two terms.
    Binary(Operator, Box<Expression>, Box<Expression>),
}

impl Expression {
    /// The integer this term denotes under `env`, if every symbol in it is bound and
    /// every operation on the way is defined.
    pub open spec fn value(self, env: Map<char, usize>) -> Option<usize>
        decreases self,
    {
        match self {
            Expression::Num(n) => Some(n),
            Expression::Var(c) => Bindings::lookup(env, c),
            Expression::Binary(op, a, b) => match (a.value(env), b.value(env)) {
                (Some(x), Some(y)) => op.spec_apply(x, y),
                _ => None,
            },
        }
    }

    /// The integer this term denotes without any binding: `None` as soon as a symbol
    /// occurs in it.
    pub open spec fn known(self) -> Option<usize> {
        self.value(Map::empty())
    }

    /// The symbols that occur in this term.
    pub open spec fn symbols(self) -> Set<char>
        decreases self,
    {
        match self {
            Expression::Num(_) => Set::empty(),
            Expression::Var(c) => set![c],
            Expression::Binary(_, a, b) => a.symbols().union(b.symbols()),
        }
    }

    /// The term for `a op b` with literal operands folded: two literals whose result
    /// is defined become that literal, anything else stays an operator node.
    pub open spec fn fold(op: Operator, a: Expression, b: Expression) -> Expression {
        match (a, b) {
            (Expression::Num(x), Expression::Num(y)) => match op.spec_apply(x, y) {
                Some(v) => Expression::Num(v),
                None => Expression::Binary(op, Box::new(a), Box::new(b)),
            },
            _ => Expression::Binary(op, Box::new(a), Box::new(b)),
        }
    }

    /// The term with every operator node folded whose operands come out as literals.
    pub open spec fn folded(self) -> Expression
        decreases self,
    {
        match self {
            Expression::Binary(op, a, b) => Self::fold(op, a.folded(), b.folded()),
            _ => self,
        }
    }

    /// Builds `a op b`, folding literal operands eagerly.
    pub fn binary(op: Operator, a: Expression, b: Expression) -> (r: Expression)
        ensures
            r == Self::fold(op, a, b),
    {
        let folded: Option<usize> = match (&a, &b) {
            (Expression::Num(x), Expression::Num(y)) => op.apply(*x, *y),
            _ => None,
        };
        match folded {
            Some(v) => Expression::Num(v),
            None => Expression::Binary(op, Box::new(a), Box::new(b)),
        }
    }

    /// The smaller of two terms.
    pub fn min(self, other: Expression) -> (r: Expression)
        ensures
            r == Self::fold(Operator::Min, self, other),
    {
        Expression::binary(Operator::Min, self, other)
    }

    /// The larger of two terms.
    pub fn max(self, other: Expression) -> (r: Expression)
        ensures
            r == Self::fold(Operator::Max, self, other),
    {
        Expression::binary(Operator::Max, self, other)
    }

    /// Folds the term from the leaves up. Terms built by the operators of this module
    /// are folded already; this is for terms put together by hand.
    pub fn simplify(&self) -> (r: Expression)
        ensures
            r == self.folded(),
        decreases *self,
    {
        match self {
            Expression::Num(n) => Expression::Num(*n),
            Expression::Var(c) => Expression::Var(*c),
            Expression::Binary(op, a, b) => {
                let x = (**a).simplify();
                let y = (**b).simplify();
                Expression::binary(*op, x, y)
            },
        }
    }

    /// Evaluates the term under `env`.
    pub fn resolve(&self, env: &Bindings) -> (r: Option<usize>)
        ensures
            r == self.value(env@),
        decreases *self,
    {
        match self {
            Expression::Num(n) => Some(*n),
            Expression::Var(c) => env.get(*c),
            Expression::Binary(op, a, b) => {
                match ((**a).resolve(env), (**b).resolve(env)) {
                    (Some(x), Some(y)) => op.apply(x, y),
                    _ => None,
                }
            },
        }
    }

    /// Converts a term without symbols to the integer it denotes.
    pub fn to_usize(&self) -> (r: Option<usize>)
        ensures
            r == self.known(),
        decreases *self,
    {
        match self {
            Expression::Num(n) => Some(*n),
            Expression::Var(_) => None,
            Expression::Binary(op, a, b) => {
                match ((**a).to_usize(), (**b).to_usize()) {
                    (Some(x), Some(y)) => op.apply(x, y),
                    _ => None,
                }
            },
        }
    }
}

/// Folding literal operands does not change what a term denotes: the value of a folded
/// term is the operator applied to the values of its operands.
pub proof fn lemma_fold_keeps_value(
    op: Operator,
    a: Expression,
    b: Expression,
    env: Map<char, usize>,
)
    ensures
        Expression::fold(op, a, b).value(env) == match (a.value(env), b.value(env)) {
            (Some(x), Some(y)) => op.spec_apply(x, y),
            _ => None,
        },
{
    reveal_with_fuel(Expression::value, 2);
}

/// Folding a whole term does not change what it denotes.
pub proof fn lemma_folded_keeps_value(e: Expression, env: Map<char, usize>)
    ensures
        e.folded().value(env) == e.value(env),
    decreases e,
{
    match e {
        Expression::Binary(op, a, b) => {
            lemma_folded_keeps_value(*a, env);
            lemma_folded_keeps_value(*b, env);
            lemma_fold_keeps_value(op, a.folded(), b.folded(), env);
        },
        _ => {},
    }
}

/// A term that denotes an integer without bindings folds to that literal.
pub proof fn lemma_known_folds_to_literal(e: Expression)
    requires
        e.known() is Some,
    ensures
        e.folded() == Expression::Num(e.known().unwrap()),
    decreases e,
{
    match e {
        Expression::Binary(_, a, b) => {
            lemma_known_folds_to_literal(*a);
            lemma_known_folds_to_literal(*b);
        },
        _ => {},
    }
}

/// What a term denotes depends only on the symbols that occur in it: two bindings that
/// agree on those give it the same value.
pub proof fn lemma_value_depends_on_symbols(
    e: Expression,
    env1: Map<char, usize>,
    env2: Map<char, usize>,
)
    requires
        forall|c: char| #[trigger]
            e.symbols().contains(c) ==> Bindings::lookup(env1, c) == Bindings::lookup(env2, c),
    ensures
        e.value(env1) == e.value(env2),
    decreases e,
{
    match e {
        Expression::Num(_) => {},
        Expression::Var(c) => {
            assert(e.symbols().contains(c));
        },
        Expression::Binary(_, a, b) => {
            assert forall|c: char| a.symbols().contains(c) implies Bindings::lookup(env1, c)
                == Bindings::lookup(env2, c) by {
                assert(e.symbols().contains(c));
            }
            assert forall|c: char| b.symbols().contains(c) implies Bindings::lookup(env1, c)
                == Bindings::lookup(env2, c) by {
                assert(e.symbols().contains(c));
            }
            lemma_value_depends_on_symbols(*a, env1, env2);
            lemma_value_depends_on_symbols(*b, env1, env2);
        },
    }
}

/// A term that converts to an integer without bindings denotes that integer under
/// every binding.
pub proof fn lemma_known_under_every_binding(e: Expression, env: Map<char, usize>)
    requires
        e.known() is Some,
    ensures
        e.value(env) == e.known(),
    decreases e,
{
    match e {
        Expression::Num(_) => {},
        Expression::Var(_) => {},
        Expression::Binary(_, a, b) => {
            lemma_known_under_every_binding(*a, env);
            lemma_known_under_every_binding(*b, env);
        },
    }
}

/// A term converts to an integer without bindings only if no symbol occurs in it.
pub proof fn lemma_known_has_no_symbols(e: Expression)
    requires
        e.known() is Some,
    ensures
        e.symbols() == Set::<char>::empty(),
    decreases e,
{
    match e {
        Expression::Num(_) => {},
        Expression::Var(_) => {},
        Expression::Binary(_, a, b) => {
            lemma_known_has_no_symbols(*a);
            lemma_known_has_no_symbols(*b);
        },
    }
}

impl Clone for Expression {
    fn clone(&self) -> (r: Self)
        ensures
            r == *self,
        decreases *self,
    {
        match self {
            Expression::Num(n) => Expression::Num(*n),
            Expression::Var(c) => Expression::Var(*c),
            Expression::Binary(op, a, b) => {
                let x = (**a).clone();
                let y = (**b).clone();
                Expression::Binary(*op, Box::new(x), Box::new(y))
            },
        }
    }
}

/// Terms are compared by structure: two terms are equal when they are the same tree,
/// not when they denote the same integer.
impl PartialEq for Expression {
    fn eq(&self, other: &Self) -> (r: bool)
        decreases *self,
    {
        match (self, other) {
            (Expression::Num(a), Expression::Num(b)) => *a == *b,
            (Expression::Var(a), Expression::Var(b)) => *a == *b,
            (Expression::Binary(o1, a1, b1), Expression::Binary(o2, a2, b2)) => {
                *o1 == *o2 && (**a1).eq(&**a2) && (**b1).eq(&**b2)
            },
            _ => false,
        }
    }
}

impl vstd::std_specs::cmp::PartialEqSpecImpl for Expression {
    open spec fn obeys_eq_spec() -> bool {
        true
    }

    open spec fn eq_spec(&self, other: &Self) -> bool {
        *self == *other
    }
}

impl Eq for Expression {

}

impl From<usize> for Expression {
    fn from(n: usize) -> (r: Expression) {
        Expression::Num(n)
    }
}

impl vstd::std_specs::convert::FromSpecImpl<usize> for Expression {
    open spec fn obeys_from_spec() -> bool {
        true
    }

    open spec fn from_spec(n: usize) -> Expression {
        Expression::Num(n)
    }
}

impl From<char> for Expression {
    fn from(c: char) -> (r: Expression) {
        Expression::Var(c)
    }
}

impl vstd::std_specs::convert::FromSpecImpl<char> for Expression {
    open spec fn obeys_from_spec() -> bool {
        true
    }

    open spec fn from_spec(c: char) -> Expression {
        Expression::Var(c)
    }
}

impl<'a> From<&'a Expression> for Expression {
    fn from(e: &'a Expression) -> (r: Expression) {
        e.clone()
    }
}

impl<'a> vstd::std_specs::convert::FromSpecImpl<&'a Expression> for Expression {
    open spec fn obeys_from_spec() -> bool {
        true
    }

    open spec fn from_spec(e: &'a Expression) -> Expression {
        *e
    }
}

impl std::ops::Add for Expression {
    type Output = Expression;

    fn add(self, rhs: Expression) -> (r: Expression) {
        Expression::binary(Operator::Add, self, rhs)
    }
}

impl vstd::std_specs::ops::AddSpecImpl for Expression {
    open spec fn obeys_add_spec() -> bool {
        true
    }

    open spec fn add_req(self, rhs: Expression) -> bool {
        true
    }

    open spec fn add_spec(self, rhs: Expression) -> Expression {
        Expression::fold(Operator::Add, self, rhs)
    }
}

impl std::ops::Sub for Expression {
    type Output = Expression;

    fn sub(self, rhs: Expression) -> (r: Expression) {
        Expression::binary(Operator::Sub, self, rhs)
    }
}

impl vstd::std_specs::ops::SubSpecImpl for Expression {
    open spec fn obeys_sub_spec() -> bool {
        true
    }

    open spec fn sub_req(self, rhs: Expression) -> bool {
        true
    }

    open spec fn sub_spec(self, rhs: Expression) -> Expression {
        Expression::fold(Operator::Sub, self, rhs)
    }
}

impl std::ops::Mul for Expression {
    type Output = Expression;

    fn mul(self, rhs: Expression) -> (r: Expression) {
        Expression::binary(Operator::Mul, self, rhs)
    }
}

impl vstd::std_specs::ops::MulSpecImpl for Expression {
    open spec fn obeys_mul_spec() -> bool {
        true
    }

    open spec fn mul_req(self, rhs: Expression) -> bool {
        true
    }

    open spec fn mul_spec(self, rhs: Expression) -> Expression {
        Expression::fold(Operator::Mul, self, rhs)
    }
}

impl std::ops::Div for Expression {
    type Output = Expression;

    fn div(self, rhs: Expression) -> (r: Expression) {
        Expression::binary(Operator::Div, self, rhs)
    }
}

impl vstd::std_specs::ops::DivSpecImpl for Expression {
    open spec fn obeys_div_spec() -> bool {
        true
    }

    open spec fn div_req(self, rhs: Expression) -> bool {
        true
    }

    open spec fn div_spec(self, rhs: Expression) -> Expression {
        Expression::fold(Operator::Div, self, rhs)
    }
}

} // verus!
