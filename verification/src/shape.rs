//! Axis classification and shapes.
//!
//! A [`Dimension`] says of one axis whether its size is fixed when the graph is built or
//! bound when it runs; a [`Shape`] is one dimension per axis. The operations here move
//! classifications around: the ranges behind them are the business of
//! [`crate::tracker`].

pub mod slice;

use vstd::prelude::*;
use crate::bindings::Bindings;
use crate::error::ShapeError;
use crate::expression::Expression;
use crate::permutation::{is_bijection, is_permutation, permuted};

verus! {

/// The symbol of a run-time size that has no name of its own.
pub const UNKNOWN: char = '-';

/// How the size of one axis is known.
#[derive(Clone, Copy, Debug, PartialEq, Eq, Structural)]
pub enum Dimension {
    /// The size is fixed when the graph is built.
    Constant(usize),
    /// The size is the value of a symbol, bound when the graph runs.
    Dynamic(char),
}

impl Dimension {
    /// The size of the axis as a term: a literal or a symbol.
    pub open spec fn size(self) -> Expression {
        match self {
            Dimension::Constant(n) => Expression::Num(n),
            Dimension::Dynamic(c) => Expression::Var(c),
        }
    }

    /// The size of the axis as a term.
    pub fn const_size(&self) -> (r: Expression)
        ensures
            r == self.size(),
    {
        match self {
            Dimension::Constant(n) => Expression::Num(*n),
            Dimension::Dynamic(c) => Expression::Var(*c),
        }
    }

    /// The size of the axis under `env`.
    pub fn resolve(&self, env: &Bindings) -> (r: Option<usize>)
        ensures
            r == self.size().value(env@),
    {
        match self {
            Dimension::Constant(n) => Some(*n),
            Dimension::Dynamic(c) => env.get(*c),
        }
    }
}

/// One axis of a reshape target.
#[derive(Clone, Copy, Debug, PartialEq, Eq, Structural)]
pub enum ReshapeDim {
    /// The axis has this fixed size.
    Const(usize),
    /// The axis takes over the size of this axis of the input.
    PrevDim(usize),
}

/// The classification of every axis of a tensor, outermost first.
#[derive(Debug)]
pub struct Shape {
    pub dims: Vec<Dimension>,
}

impl View for Shape {
    type V = Seq<Dimension>;

    open spec fn view(&self) -> Seq<Dimension> {
        self.dims@
    }
}

impl Clone for Shape {
    fn clone(&self) -> (r: Self)
        ensures
            r@ == self@,
    {
        let mut dims: Vec<Dimension> = Vec::new();
        let mut i: usize = 0;
        while i < self.dims.len()
            invariant
                i <= self.dims.len(),
                dims@ == self.dims@.take(i as int),
            decreases self.dims.len() - i,
        {
            dims.push(self.dims[i]);
            i += 1;
        }
        Shape { dims }
    }
}

/// Two shapes are equal when they classify every axis alike.
impl PartialEq for Shape {
    fn eq(&self, other: &Self) -> (r: bool) {
        if self.dims.len() != other.dims.len() {
            return false;
        }
        let mut i: usize = 0;
        while i < self.dims.len()
            invariant
                i <= self.dims.len(),
                self.dims.len() == other.dims.len(),
                forall|j: int| 0 <= j < i ==> self.dims@[j] == other.dims@[j],
            decreases self.dims.len() - i,
        {
            if self.dims[i] != other.dims[i] {
                return false;
            }
            i += 1;
        }
        proof {
            assert(self.dims@ =~= other.dims@);
        }
        true
    }
}

impl vstd::std_specs::cmp::PartialEqSpecImpl for Shape {
    open spec fn obeys_eq_spec() -> bool {
        true
    }

    open spec fn eq_spec(&self, other: &Self) -> bool {
        self@ == other@
    }
}

impl Eq for Shape {

}

impl Shape {
    /// Whether `target` is `src` with a broadcast axis at `axis`: either one more axis,
    /// put in at that place, or the same axes with a size of one replaced there.
    pub open spec fn expands_to(src: Seq<Dimension>, axis: int, target: Seq<Dimension>) -> bool {
        ||| 0 <= axis < target.len() && target.len() == src.len() + 1 && target.remove(axis)
            == src
        ||| 0 <= axis < src.len() && target.len() == src.len() && src[axis]
            == Dimension::Constant(1) && src.update(axis, target[axis]) == target
    }

    /// Whether every axis of a reshape target can be resolved against an input of this
    /// rank.
    pub open spec fn reshape_total(rank: nat, target: Seq<ReshapeDim>) -> bool {
        forall|j: int|
            0 <= j < target.len() ==> (#[trigger] target[j] matches ReshapeDim::PrevDim(i) ==> i
                < rank)
    }

    /// The classification that one axis of a reshape target asks for.
    pub open spec fn reshaped_dim(src: Seq<Dimension>, dim: ReshapeDim) -> Dimension {
        match dim {
            ReshapeDim::Const(n) => Dimension::Constant(n),
            ReshapeDim::PrevDim(i) => src[i as int],
        }
    }

    /// The shape that a reshape target asks for.
    pub open spec fn reshaped(src: Seq<Dimension>, target: Seq<ReshapeDim>) -> Seq<Dimension> {
        Seq::new(target.len(), |j: int| Self::reshaped_dim(src, target[j]))
    }

    /// Whether two shapes can be joined along `axis`: same rank, and equal everywhere
    /// else.
    pub open spec fn concat_agrees(a: Seq<Dimension>, b: Seq<Dimension>, axis: int) -> bool {
        &&& a.len() == b.len()
        &&& 0 <= axis < a.len()
        &&& forall|j: int| 0 <= j < a.len() && j != axis ==> a[j] == b[j]
    }

    /// Whether the joined size of two axes fits a machine word, where both are fixed.
    pub open spec fn concat_fits(x: Dimension, y: Dimension) -> bool {
        x matches Dimension::Constant(m) ==> (y matches Dimension::Constant(n) ==> m + n
            <= usize::MAX)
    }

    /// The classification of two axes joined end to end: the sum where both sizes are
    /// fixed, a run-time size otherwise.
    pub open spec fn concat_dim(x: Dimension, y: Dimension) -> Dimension {
        match (x, y) {
            (Dimension::Constant(m), Dimension::Constant(n)) => Dimension::Constant(
                (m + n) as usize,
            ),
            _ => Dimension::Dynamic(UNKNOWN),
        }
    }

    /// The shape with the given axes.
    pub fn new(dims: Vec<Dimension>) -> (r: Shape)
        ensures
            r@ == dims@,
    {
        Shape { dims }
    }

    /// The number of axes.
    pub fn rank(&self) -> (r: usize)
        ensures
            r == self@.len(),
    {
        self.dims.len()
    }

    /// The classification of one axis, if the shape has it.
    pub fn dim(&self, axis: usize) -> (r: Option<Dimension>)
        ensures
            r == if axis < self@.len() {
                Some(self@[axis as int])
            } else {
                None
            },
    {
        if axis < self.dims.len() {
            Some(self.dims[axis])
        } else {
            None
        }
    }

    /// Relabels the axes: axis `i` of the result is axis `axes[i]` of `self`. Rejected
    /// with `InvalidRange` unless `axes` names every axis exactly once.
    pub fn permute(&self, axes: &Vec<usize>) -> (r: Result<Shape, ShapeError>)
        ensures
            r is Ok <==> is_permutation(axes@, self@.len()),
            r matches Ok(s) ==> s@ == permuted(self@, axes@),
            r matches Err(e) ==> e == ShapeError::InvalidRange,
    {
        if !is_bijection(axes, self.dims.len()) {
            return Err(ShapeError::InvalidRange);
        }
        let mut dims: Vec<Dimension> = Vec::new();
        let mut i: usize = 0;
        while i < axes.len()
            invariant
                i <= axes.len(),
                is_permutation(axes@, self@.len()),
                dims@.len() == i,
                forall|j: int| 0 <= j < i ==> dims@[j] == self@[axes@[j] as int],
            decreases axes.len() - i,
        {
            dims.push(self.dims[axes[i]]);
            i += 1;
        }
        Ok(Shape { dims })
    }

    /// Broadcasts along `axis` to `target`, which supplies the classification of the
    /// broadcast axis. Rejected with `ShapeMismatch` unless `target` is this shape with
    /// one axis put in at `axis`, or with a size of one replaced there.
    pub fn expand(&self, axis: usize, target: &Shape) -> (r: Result<Shape, ShapeError>)
        ensures
            r is Ok <==> Self::expands_to(self@, axis as int, target@),
            r matches Ok(s) ==> s@ == target@,
            r matches Err(e) ==> e == ShapeError::ShapeMismatch,
    {
        let n: usize = self.dims.len();
        let m: usize = target.dims.len();
        if n < m && m - n == 1 && axis < m {
            let mut j: usize = 0;
            while j < n
                invariant
                    j <= n,
                    n == self@.len(),
                    m == target@.len(),
                    m == n + 1,
                    axis < m,
                    forall|k: int| 0 <= k < j ==> self@[k] == target@.remove(axis as int)[k],
                decreases n - j,
            {
                let from: usize = if j < axis {
                    j
                } else {
                    j + 1
                };
                if self.dims[j] != target.dims[from] {
                    return Err(ShapeError::ShapeMismatch);
                }
                j += 1;
            }
            proof {
                assert(target@.remove(axis as int) =~= self@);
            }
            Ok(target.clone())
        } else if n == m && axis < n && self.dims[axis] == Dimension::Constant(1) {
            let mut j: usize = 0;
            while j < n
                invariant
                    j <= n,
                    n == self@.len(),
                    m == target@.len(),
                    m == n,
                    axis < n,
                    forall|k: int|
                        0 <= k < j ==> self@.update(axis as int, target@[axis as int])[k]
                            == target@[k],
                decreases n - j,
            {
                if j != axis && self.dims[j] != target.dims[j] {
                    return Err(ShapeError::ShapeMismatch);
                }
                j += 1;
            }
            proof {
                assert(self@.update(axis as int, target@[axis as int]) =~= target@);
            }
            Ok(target.clone())
        } else {
            Err(ShapeError::ShapeMismatch)
        }
    }

    /// Reshapes to `target`, each axis of which is a fixed size or takes over an axis of
    /// this shape. Rejected with `InvalidRange` if `target` names an axis that this
    /// shape does not have.
    pub fn reshape(&self, target: &Vec<ReshapeDim>) -> (r: Result<Shape, ShapeError>)
        ensures
            r is Ok <==> Self::reshape_total(self@.len(), target@),
            r matches Ok(s) ==> s@ == Self::reshaped(self@, target@),
            r matches Err(e) ==> e == ShapeError::InvalidRange,
    {
        let mut dims: Vec<Dimension> = Vec::new();
        let mut j: usize = 0;
        while j < target.len()
            invariant
                j <= target.len(),
                dims@.len() == j,
                Self::reshape_total(self@.len(), target@.take(j as int)),
                forall|k: int| 0 <= k < j ==> dims@[k] == Self::reshaped_dim(self@, target@[k]),
            decreases target.len() - j,
        {
            let dim: Dimension = match target[j] {
                ReshapeDim::Const(n) => Dimension::Constant(n),
                ReshapeDim::PrevDim(i) => {
                    if i >= self.dims.len() {
                        return Err(ShapeError::InvalidRange);
                    }
                    self.dims[i]
                },
            };
            dims.push(dim);
            j += 1;
        }
        proof {
            assert(target@.take(j as int) =~= target@);
        }
        Ok(Shape { dims })
    }

    /// Joins this shape and `other` along `axis`. Rejected with `ShapeMismatch` unless
    /// the two have the same rank, `axis` is one of their axes, and they agree on every
    /// other axis.
    pub fn concat(&self, other: &Shape, axis: usize) -> (r: Result<Shape, ShapeError>)
        requires
            axis < self@.len() && axis < other@.len() ==> Self::concat_fits(
                self@[axis as int],
                other@[axis as int],
            ),
        ensures
            r is Ok <==> Self::concat_agrees(self@, other@, axis as int),
            r matches Ok(s) ==> s@ == self@.update(
                axis as int,
                Self::concat_dim(self@[axis as int], other@[axis as int]),
            ),
            r matches Err(e) ==> e == ShapeError::ShapeMismatch,
    {
        let n: usize = self.dims.len();
        if n != other.dims.len() || axis >= n {
            return Err(ShapeError::ShapeMismatch);
        }
        let mut dims: Vec<Dimension> = Vec::new();
        let mut j: usize = 0;
        while j < n
            invariant
                j <= n,
                n == self@.len(),
                n == other@.len(),
                axis < n,
                Self::concat_fits(self@[axis as int], other@[axis as int]),
                dims@.len() == j,
                forall|k: int| 0 <= k < j && k != axis ==> self@[k] == other@[k],
                forall|k: int|
                    0 <= k < j ==> dims@[k] == self@.update(
                        axis as int,
                        Self::concat_dim(self@[axis as int], other@[axis as int]),
                    )[k],
            decreases n - j,
        {
            if j == axis {
                let joined: Dimension = match (self.dims[j], other.dims[j]) {
                    (Dimension::Constant(a), Dimension::Constant(b)) => Dimension::Constant(a + b),
                    _ => Dimension::Dynamic(UNKNOWN),
                };
                dims.push(joined);
            } else {
                if self.dims[j] != other.dims[j] {
                    return Err(ShapeError::ShapeMismatch);
                }
                dims.push(self.dims[j]);
            }
            j += 1;
        }
        Ok(Shape { dims })
    }
}

} // verus!
