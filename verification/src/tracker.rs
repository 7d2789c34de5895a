//! Views of a tensor that move no data.
//!
//! A [`ShapeTracker`] says, for each axis of a view, which axis of the stored tensor it
//! reads and which half-open range of it. Slicing, permuting, broadcasting, reshaping and
//! joining all produce a new tracker from an old one; none touches storage.

use vstd::prelude::*;
use crate::bindings::Bindings;
use crate::error::ShapeError;
use crate::expression::{
    lemma_fold_keeps_value, lemma_known_under_every_binding, Expression, Operator,
};
use crate::permutation::{is_bijection, is_permutation, permuted};
use crate::shape::{Dimension, ReshapeDim, Shape};

verus! {

/// One axis of a view.
#[derive(Debug, PartialEq, Eq)]
pub struct Axis {
    /// The axis of the stored tensor that this axis reads. `None` for a broadcast axis,
    /// which visits no storage: what is read along the other axes is replicated along
    /// it.
    pub source: Option<usize>,
    /// The first index of the range.
    pub start: Expression,
    /// The index just past the range.
    pub end: Expression,
}

/// Whether a range is known to start past its end: neither bound holds a symbol, and
/// the start denotes the larger integer.
pub open spec fn inverted(start: Expression, end: Expression) -> bool {
    match (start.known(), end.known()) {
        (Some(a), Some(b)) => a > b,
        _ => false,
    }
}

/// Tells whether a range is known to start past its end.
pub fn is_inverted(start: &Expression, end: &Expression) -> (r: bool)
    ensures
        r == inverted(*start, *end),
{
    match (start.to_usize(), end.to_usize()) {
        (Some(a), Some(b)) => a > b,
        _ => false,
    }
}

impl Axis {
    /// The number of indices in the range, as a term.
    pub open spec fn size(self) -> Expression {
        Expression::fold(Operator::Sub, self.end, self.start)
    }

    /// The axis that reads all of an axis of the given size.
    pub open spec fn whole(source: int, size: Expression) -> Axis {
        Axis { source: Some(source as usize), start: Expression::Num(0), end: size }
    }

    /// A broadcast axis of the given size.
    pub open spec fn replicated(size: Expression) -> Axis {
        Axis { source: None, start: Expression::Num(0), end: size }
    }

    /// The axis after a slice `[range.0, range.1)` of it has been taken: the slice counts
    /// from the start of what the axis covers now, and what of it lies past the end of
    /// the axis is cut off.
    pub open spec fn sliced(self, range: (Expression, Expression)) -> Axis {
        Axis {
            source: self.source,
            start: Expression::fold(Operator::Add, self.start, range.0),
            end: Expression::fold(
                Operator::Min,
                Expression::fold(Operator::Add, self.start, range.1),
                self.end,
            ),
        }
    }

    /// Whether a slice of this axis is refused: the slice itself, or what is left of the
    /// axis, is known to start past its end.
    pub open spec fn refuses(self, range: (Expression, Expression)) -> bool {
        inverted(range.0, range.1) || inverted(self.sliced(range).start, self.sliced(range).end)
    }

    /// The range under `env`, if both bounds have a value.
    pub open spec fn bounds(self, env: Map<char, usize>) -> Option<(usize, usize)> {
        match (self.start.value(env), self.end.value(env)) {
            (Some(a), Some(b)) => Some((a, b)),
            _ => None,
        }
    }

    /// The number of indices in the range, as a term.
    pub fn extent(&self) -> (r: Expression)
        ensures
            r == self.size(),
    {
        self.end.clone() - self.start.clone()
    }
}

impl Clone for Axis {
    fn clone(&self) -> (r: Self)
        ensures
            r == *self,
    {
        Axis { source: self.source, start: self.start.clone(), end: self.end.clone() }
    }
}

/// A view of a stored tensor: one [`Axis`] per axis of the view, outermost first.
#[derive(Debug, PartialEq, Eq)]
pub struct ShapeTracker {
    pub axes: Vec<Axis>,
}

impl View for ShapeTracker {
    type V = Seq<Axis>;

    open spec fn view(&self) -> Seq<Axis> {
        self.axes@
    }
}

impl Clone for ShapeTracker {
    fn clone(&self) -> (r: Self)
        ensures
            r@ == self@,
    {
        let mut axes: Vec<Axis> = Vec::new();
        let mut i: usize = 0;
        while i < self.axes.len()
            invariant
                i <= self.axes.len(),
                axes@.len() == i,
                forall|k: int| 0 <= k < i ==> axes@[k] == self.axes@[k],
            decreases self.axes.len() - i,
        {
            axes.push(self.axes[i].clone());
            i += 1;
        }
        ShapeTracker { axes }
    }
}

impl ShapeTracker {
    /// No range of the view is known to start past its end.
    pub open spec fn well_formed(axes: Seq<Axis>) -> bool {
        forall|i: int| 0 <= i < axes.len() ==> !inverted((#[trigger] axes[i]).start, axes[i].end)
    }

    /// The view that reads all of a stored tensor with the given axis sizes, in storage
    /// order.
    pub open spec fn whole(sizes: Seq<Expression>) -> Seq<Axis> {
        Seq::new(sizes.len(), |i: int| Axis::whole(i, sizes[i]))
    }

    /// The sizes of the axes of a shape, as terms.
    pub open spec fn sizes_of(shape: Seq<Dimension>) -> Seq<Expression> {
        Seq::new(shape.len(), |i: int| shape[i].size())
    }

    /// The view after a slice has been taken of every axis.
    pub open spec fn sliced(axes: Seq<Axis>, ranges: Seq<(Expression, Expression)>) -> Seq<Axis> {
        Seq::new(axes.len(), |i: int| axes[i].sliced(ranges[i]))
    }

    /// Whether some axis refuses its slice.
    pub open spec fn refuses(axes: Seq<Axis>, ranges: Seq<(Expression, Expression)>) -> bool {
        exists|i: int| 0 <= i < axes.len() && (#[trigger] axes[i]).refuses(ranges[i])
    }

    /// The size of one axis of a reshape target: the fixed size, or the size of the axis
    /// of the view that it takes over.
    pub open spec fn reshaped_size(axes: Seq<Axis>, dim: ReshapeDim) -> Expression {
        match dim {
            ReshapeDim::Const(n) => Expression::Num(n),
            ReshapeDim::PrevDim(i) => axes[i as int].size(),
        }
    }

    /// The sizes of the axes of a reshape target.
    pub open spec fn reshaped_sizes(axes: Seq<Axis>, target: Seq<ReshapeDim>) -> Seq<Expression> {
        Seq::new(target.len(), |j: int| Self::reshaped_size(axes, target[j]))
    }

    /// The sizes of the axes of two views joined along `axis`: the sum of the two sizes
    /// there, the size of the first view elsewhere.
    pub open spec fn joined_sizes(a: Seq<Axis>, b: Seq<Axis>, axis: int) -> Seq<Expression> {
        Seq::new(
            a.len(),
            |j: int|
                if j == axis {
                    Expression::fold(Operator::Add, a[j].size(), b[j].size())
                } else {
                    a[j].size()
                },
        )
    }

    /// Whether every bound of the view has a value under `env`.
    pub open spec fn bound_under(axes: Seq<Axis>, env: Map<char, usize>) -> bool {
        forall|i: int| 0 <= i < axes.len() ==> (#[trigger] axes[i]).bounds(env) is Some
    }

    /// Whether every range of the view has its start at or before its end under `env`.
    pub open spec fn ordered_under(axes: Seq<Axis>, env: Map<char, usize>) -> bool {
        forall|i: int|
            0 <= i < axes.len() ==> ((#[trigger] axes[i]).bounds(env) matches Some(r) ==> r.0
                <= r.1)
    }

    /// The ranges of the view under `env`.
    pub open spec fn ranges_under(axes: Seq<Axis>, env: Map<char, usize>) -> Seq<(usize, usize)> {
        Seq::new(axes.len(), |i: int| axes[i].bounds(env).unwrap())
    }

    /// The sizes of the axes of the view under `env`.
    pub open spec fn sizes_under(axes: Seq<Axis>, env: Map<char, usize>) -> Seq<usize> {
        Seq::new(
            axes.len(),
            |i: int| (axes[i].bounds(env).unwrap().1 - axes[i].bounds(env).unwrap().0) as usize,
        )
    }

    /// The view with every bound replaced by the literal it denotes under `env`.
    pub open spec fn literal_under(axes: Seq<Axis>, env: Map<char, usize>) -> Seq<Axis> {
        Seq::new(
            axes.len(),
            |i: int|
                Axis {
                    source: axes[i].source,
                    start: Expression::Num(axes[i].bounds(env).unwrap().0),
                    end: Expression::Num(axes[i].bounds(env).unwrap().1),
                },
        )
    }

    /// The view that reads all of a stored tensor of the given shape.
    pub fn new(shape: &Shape) -> (r: ShapeTracker)
        ensures
            r@ == Self::whole(Self::sizes_of(shape@)),
            Self::well_formed(r@),
    {
        let mut axes: Vec<Axis> = Vec::new();
        let mut i: usize = 0;
        while i < shape.dims.len()
            invariant
                i <= shape.dims.len(),
                axes@.len() == i,
                forall|k: int| 0 <= k < i ==> axes@[k] == Axis::whole(k, shape@[k].size()),
            decreases shape.dims.len() - i,
        {
            axes.push(
                Axis { source: Some(i), start: Expression::Num(0), end: shape.dims[i].const_size() },
            );
            i += 1;
        }
        ShapeTracker { axes }
    }

    /// The view that reads all of a stored tensor with the given axis sizes.
    pub fn from_sizes(sizes: Vec<Expression>) -> (r: ShapeTracker)
        ensures
            r@ == Self::whole(sizes@),
            Self::well_formed(r@),
    {
        let mut axes: Vec<Axis> = Vec::new();
        let mut i: usize = 0;
        while i < sizes.len()
            invariant
                i <= sizes.len(),
                axes@.len() == i,
                forall|k: int| 0 <= k < i ==> axes@[k] == Axis::whole(k, sizes@[k]),
            decreases sizes.len() - i,
        {
            axes.push(Axis { source: Some(i), start: Expression::Num(0), end: sizes[i].clone() });
            i += 1;
        }
        ShapeTracker { axes }
    }

    /// The number of axes of the view.
    pub fn rank(&self) -> (r: usize)
        ensures
            r == self@.len(),
    {
        self.axes.len()
    }

    /// Takes the slice `[ranges[i].0, ranges[i].1)` of every axis `i`, counted from the
    /// start of what the axis covers now and cut off at its end.
    ///
    /// Rejected with `ShapeMismatch` unless there is one range per axis, and with
    /// `InvalidRange` if on some axis the slice, or what is left of the axis, is known to
    /// start past its end.
    pub fn slice(&self, ranges: &Vec<(Expression, Expression)>) -> (r: Result<
        ShapeTracker,
        ShapeError,
    >)
        ensures
            r is Ok <==> ranges@.len() == self@.len() && !Self::refuses(self@, ranges@),
            r matches Ok(t) ==> t@ == Self::sliced(self@, ranges@) && (Self::well_formed(self@)
                ==> Self::well_formed(t@)),
            r matches Err(e) ==> e == if ranges@.len() != self@.len() {
                ShapeError::ShapeMismatch
            } else {
                ShapeError::InvalidRange
            },
    {
        if ranges.len() != self.axes.len() {
            return Err(ShapeError::ShapeMismatch);
        }
        let mut axes: Vec<Axis> = Vec::new();
        let mut i: usize = 0;
        while i < self.axes.len()
            invariant
                i <= self.axes.len(),
                ranges@.len() == self@.len(),
                axes@.len() == i,
                forall|k: int| 0 <= k < i ==> !(#[trigger] self@[k]).refuses(ranges@[k]),
                forall|k: int| 0 <= k < i ==> axes@[k] == self@[k].sliced(ranges@[k]),
            decreases self.axes.len() - i,
        {
            let axis = &self.axes[i];
            let range = &ranges[i];
            if is_inverted(&range.0, &range.1) {
                return Err(ShapeError::InvalidRange);
            }
            let start = axis.start.clone() + range.0.clone();
            let end = (axis.start.clone() + range.1.clone()).min(axis.end.clone());
            if is_inverted(&start, &end) {
                return Err(ShapeError::InvalidRange);
            }
            axes.push(Axis { source: axis.source, start, end });
            i += 1;
        }
        Ok(ShapeTracker { axes })
    }

    /// Relabels the axes: axis `i` of the result is axis `axes[i]` of this view. Rejected
    /// with `InvalidRange` unless `axes` names every axis exactly once.
    pub fn permute(&self, axes: &Vec<usize>) -> (r: Result<ShapeTracker, ShapeError>)
        ensures
            r is Ok <==> is_permutation(axes@, self@.len()),
            r matches Ok(t) ==> t@ == permuted(self@, axes@) && (Self::well_formed(self@)
                ==> Self::well_formed(t@)),
            r matches Err(e) ==> e == ShapeError::InvalidRange,
    {
        if !is_bijection(axes, self.axes.len()) {
            return Err(ShapeError::InvalidRange);
        }
        let mut out: Vec<Axis> = Vec::new();
        let mut i: usize = 0;
        while i < axes.len()
            invariant
                i <= axes.len(),
                is_permutation(axes@, self@.len()),
                out@.len() == i,
                forall|j: int| 0 <= j < i ==> out@[j] == self@[axes@[j] as int],
            decreases axes.len() - i,
        {
            out.push(self.axes[axes[i]].clone());
            i += 1;
        }
        Ok(ShapeTracker { axes: out })
    }

    /// Puts a broadcast axis of the given size in at `axis`. Rejected with
    /// `ShapeMismatch` if `axis` lies past the end of the view.
    pub fn expand(&self, axis: usize, size: Expression) -> (r: Result<ShapeTracker, ShapeError>)
        ensures
            r is Ok <==> axis <= self@.len(),
            r matches Ok(t) ==> t@ == self@.insert(axis as int, Axis::replicated(size)) && (
            Self::well_formed(self@) ==> Self::well_formed(t@)),
            r matches Err(e) ==> e == ShapeError::ShapeMismatch,
    {
        if axis > self.axes.len() {
            return Err(ShapeError::ShapeMismatch);
        }
        let mut out = self.clone();
        out.axes.insert(axis, Axis { source: None, start: Expression::Num(0), end: size });
        Ok(out)
    }

    /// Turns `axis` into a broadcast axis of the given size. Rejected with
    /// `ShapeMismatch` if the view has no such axis.
    pub fn broadcast(&self, axis: usize, size: Expression) -> (r: Result<ShapeTracker, ShapeError>)
        ensures
            r is Ok <==> axis < self@.len(),
            r matches Ok(t) ==> t@ == self@.update(axis as int, Axis::replicated(size)) && (
            Self::well_formed(self@) ==> Self::well_formed(t@)),
            r matches Err(e) ==> e == ShapeError::ShapeMismatch,
    {
        if axis >= self.axes.len() {
            return Err(ShapeError::ShapeMismatch);
        }
        let mut out = self.clone();
        out.axes.set(axis, Axis { source: None, start: Expression::Num(0), end: size });
        Ok(out)
    }

    /// The view of the reshaped tensor: all of a tensor whose axes have the sizes that
    /// `target` asks for. Rejected with `InvalidRange` if `target` names an axis that
    /// this view does not have.
    pub fn reshape(&self, target: &Vec<ReshapeDim>) -> (r: Result<ShapeTracker, ShapeError>)
        ensures
            r is Ok <==> Shape::reshape_total(self@.len(), target@),
            r matches Ok(t) ==> t@ == Self::whole(Self::reshaped_sizes(self@, target@))
                && Self::well_formed(t@),
            r matches Err(e) ==> e == ShapeError::InvalidRange,
    {
        let mut sizes: Vec<Expression> = Vec::new();
        let mut j: usize = 0;
        while j < target.len()
            invariant
                j <= target.len(),
                sizes@.len() == j,
                Shape::reshape_total(self@.len(), target@.take(j as int)),
                forall|k: int| 0 <= k < j ==> sizes@[k] == Self::reshaped_size(self@, target@[k]),
            decreases target.len() - j,
        {
            let size = match target[j] {
                ReshapeDim::Const(n) => Expression::Num(n),
                ReshapeDim::PrevDim(i) => {
                    if i >= self.axes.len() {
                        return Err(ShapeError::InvalidRange);
                    }
                    self.axes[i].extent()
                },
            };
            sizes.push(size);
            j += 1;
        }
        proof {
            assert(target@.take(j as int) =~= target@);
        }
        Ok(Self::from_sizes(sizes))
    }

    /// The view of this view and `other` joined along `axis`: all of a tensor that is
    /// as long there as the two together. Rejected with `ShapeMismatch` unless the two
    /// have the same rank and `axis` is one of their axes.
    pub fn concat(&self, other: &ShapeTracker, axis: usize) -> (r: Result<
        ShapeTracker,
        ShapeError,
    >)
        ensures
            r is Ok <==> self@.len() == other@.len() && axis < self@.len(),
            r matches Ok(t) ==> t@ == Self::whole(Self::joined_sizes(self@, other@, axis as int))
                && Self::well_formed(t@),
            r matches Err(e) ==> e == ShapeError::ShapeMismatch,
    {
        let n: usize = self.axes.len();
        if n != other.axes.len() || axis >= n {
            return Err(ShapeError::ShapeMismatch);
        }
        let mut sizes: Vec<Expression> = Vec::new();
        let mut j: usize = 0;
        while j < n
            invariant
                j <= n,
                n == self@.len(),
                n == other@.len(),
                sizes@.len() == j,
                forall|k: int|
                    0 <= k < j ==> sizes@[k] == Self::joined_sizes(self@, other@, axis as int)[k],
            decreases n - j,
        {
            let size = if j == axis {
                self.axes[j].extent() + other.axes[j].extent()
            } else {
                self.axes[j].extent()
            };
            sizes.push(size);
            j += 1;
        }
        Ok(Self::from_sizes(sizes))
    }

    /// The ranges of the view under `env`.
    ///
    /// Rejected with `UnboundSymbol` if some bound has no value under `env`; failing
    /// that, with `InvalidRange` if some range starts past its end.
    pub fn resolve(&self, env: &Bindings) -> (r: Result<Vec<(usize, usize)>, ShapeError>)
        ensures
            r is Ok <==> Self::bound_under(self@, env@) && Self::ordered_under(self@, env@),
            r matches Ok(v) ==> v@ == Self::ranges_under(self@, env@),
            r matches Err(e) ==> e == if !Self::bound_under(self@, env@) {
                ShapeError::UnboundSymbol
            } else {
                ShapeError::InvalidRange
            },
    {
        let mut ranges: Vec<(usize, usize)> = Vec::new();
        let mut ordered: bool = true;
        let mut i: usize = 0;
        while i < self.axes.len()
            invariant
                i <= self.axes.len(),
                ranges@.len() == i,
                Self::bound_under(self@.take(i as int), env@),
                ordered == Self::ordered_under(self@.take(i as int), env@),
                forall|k: int| 0 <= k < i ==> Some(ranges@[k]) == self@[k].bounds(env@),
            decreases self.axes.len() - i,
        {
            let start = self.axes[i].start.resolve(env);
            let end = self.axes[i].end.resolve(env);
            match (start, end) {
                (Some(a), Some(b)) => {
                    proof {
                        assert(self@.take(i + 1)[i as int].bounds(env@) == Some((a, b)));
                    }
                    if a > b {
                        ordered = false;
                    }
                    ranges.push((a, b));
                },
                _ => {
                    return Err(ShapeError::UnboundSymbol);
                },
            }
            i += 1;
        }
        proof {
            assert(self@.take(i as int) =~= self@);
        }
        if ordered {
            Ok(ranges)
        } else {
            Err(ShapeError::InvalidRange)
        }
    }

    /// The sizes of the axes of the view under `env`: the length of each range. Fails as
    /// [`ShapeTracker::resolve`] does.
    pub fn sizes(&self, env: &Bindings) -> (r: Result<Vec<usize>, ShapeError>)
        ensures
            r is Ok <==> Self::bound_under(self@, env@) && Self::ordered_under(self@, env@),
            r matches Ok(v) ==> v@ == Self::sizes_under(self@, env@),
            r matches Err(e) ==> e == if !Self::bound_under(self@, env@) {
                ShapeError::UnboundSymbol
            } else {
                ShapeError::InvalidRange
            },
    {
        let ranges = match self.resolve(env) {
            Ok(ranges) => ranges,
            Err(e) => {
                return Err(e);
            },
        };
        let mut sizes: Vec<usize> = Vec::new();
        let mut i: usize = 0;
        while i < ranges.len()
            invariant
                i <= ranges.len(),
                ranges@ == Self::ranges_under(self@, env@),
                Self::bound_under(self@, env@),
                Self::ordered_under(self@, env@),
                sizes@.len() == i,
                forall|k: int| 0 <= k < i ==> sizes@[k] == Self::sizes_under(self@, env@)[k],
            decreases ranges.len() - i,
        {
            proof {
                assert(self@[i as int].bounds(env@) is Some);
            }
            sizes.push(ranges[i].1 - ranges[i].0);
            i += 1;
        }
        Ok(sizes)
    }

    /// The view under `env`: the same axes, with literal bounds. Fails as
    /// [`ShapeTracker::resolve`] does.
    pub fn resolved(&self, env: &Bindings) -> (r: Result<ShapeTracker, ShapeError>)
        ensures
            r is Ok <==> Self::bound_under(self@, env@) && Self::ordered_under(self@, env@),
            r matches Ok(t) ==> t@ == Self::literal_under(self@, env@) && Self::well_formed(t@),
            r matches Err(e) ==> e == if !Self::bound_under(self@, env@) {
                ShapeError::UnboundSymbol
            } else {
                ShapeError::InvalidRange
            },
    {
        let ranges = match self.resolve(env) {
            Ok(ranges) => ranges,
            Err(e) => {
                return Err(e);
            },
        };
        let mut axes: Vec<Axis> = Vec::new();
        let mut i: usize = 0;
        while i < ranges.len()
            invariant
                i <= ranges.len(),
                ranges@ == Self::ranges_under(self@, env@),
                Self::bound_under(self@, env@),
                Self::ordered_under(self@, env@),
                axes@.len() == i,
                forall|k: int| 0 <= k < i ==> axes@[k] == Self::literal_under(self@, env@)[k],
                forall|k: int| 0 <= k < i ==> !inverted((#[trigger] axes@[k]).start, axes@[k].end),
            decreases ranges.len() - i,
        {
            axes.push(
                Axis {
                    source: self.axes[i].source,
                    start: Expression::Num(ranges[i].0),
                    end: Expression::Num(ranges[i].1),
                },
            );
            i += 1;
        }
        Ok(ShapeTracker { axes })
    }
}

/// A range that is known to start past its end does so under every binding: what is
/// refused when the graph is built would be out of order whenever the graph runs.
pub proof fn lemma_inverted_under_every_binding(axis: Axis, env: Map<char, usize>)
    requires
        inverted(axis.start, axis.end),
    ensures
        axis.bounds(env) matches Some(r) && r.0 > r.1,
{
    lemma_known_under_every_binding(axis.start, env);
    lemma_known_under_every_binding(axis.end, env);
}

/// The one slice that does what two slices, taken one after the other, do.
pub open spec fn composed(
    first: (Expression, Expression),
    second: (Expression, Expression),
) -> (Expression, Expression) {
    (
        Expression::fold(Operator::Add, first.0, second.0),
        Expression::fold(
            Operator::Min,
            Expression::fold(Operator::Add, first.0, second.1),
            first.1,
        ),
    )
}

/// Slices compose: wherever the ranges of a slice of a slice can be computed, the one
/// composed slice gives the same ranges.
pub proof fn lemma_slice_of_slice(
    axis: Axis,
    first: (Expression, Expression),
    second: (Expression, Expression),
    env: Map<char, usize>,
)
    requires
        axis.sliced(first).sliced(second).bounds(env) is Some,
    ensures
        axis.sliced(composed(first, second)).bounds(env) == axis.sliced(first).sliced(
            second,
        ).bounds(env),
{
    let inner = Expression::fold(Operator::Add, axis.start, first.0);
    lemma_fold_keeps_value(Operator::Add, axis.start, first.0, env);
    lemma_fold_keeps_value(Operator::Add, inner, second.0, env);
    lemma_fold_keeps_value(Operator::Add, inner, second.1, env);
    lemma_fold_keeps_value(Operator::Add, axis.start, first.1, env);
    let inner_end = Expression::fold(
        Operator::Min,
        Expression::fold(Operator::Add, axis.start, first.1),
        axis.end,
    );
    lemma_fold_keeps_value(
        Operator::Min,
        Expression::fold(Operator::Add, axis.start, first.1),
        axis.end,
        env,
    );
    lemma_fold_keeps_value(
        Operator::Min,
        Expression::fold(Operator::Add, inner, second.1),
        inner_end,
        env,
    );
    let both = composed(first, second);
    lemma_fold_keeps_value(Operator::Add, first.0, second.0, env);
    lemma_fold_keeps_value(Operator::Add, first.0, second.1, env);
    lemma_fold_keeps_value(
        Operator::Min,
        Expression::fold(Operator::Add, first.0, second.1),
        first.1,
        env,
    );
    lemma_fold_keeps_value(Operator::Add, axis.start, both.0, env);
    lemma_fold_keeps_value(Operator::Add, axis.start, both.1, env);
    lemma_fold_keeps_value(
        Operator::Min,
        Expression::fold(Operator::Add, axis.start, both.1),
        axis.end,
        env,
    );
}

/// Slices compose on every axis of a view at once.
pub proof fn lemma_slices_compose(
    axes: Seq<Axis>,
    first: Seq<(Expression, Expression)>,
    second: Seq<(Expression, Expression)>,
    env: Map<char, usize>,
)
    requires
        first.len() == axes.len(),
        second.len() == axes.len(),
        ShapeTracker::bound_under(
            ShapeTracker::sliced(ShapeTracker::sliced(axes, first), second),
            env,
        ),
    ensures
        ShapeTracker::bound_under(
            ShapeTracker::sliced(axes, Seq::new(axes.len(), |i: int| composed(first[i], second[i]))),
            env,
        ),
        ShapeTracker::ranges_under(
            ShapeTracker::sliced(axes, Seq::new(axes.len(), |i: int| composed(first[i], second[i]))),
            env,
        ) == ShapeTracker::ranges_under(
            ShapeTracker::sliced(ShapeTracker::sliced(axes, first), second),
            env,
        ),
{
    let twice = ShapeTracker::sliced(ShapeTracker::sliced(axes, first), second);
    let both = Seq::new(axes.len(), |i: int| composed(first[i], second[i]));
    let once = ShapeTracker::sliced(axes, both);
    assert forall|i: int| 0 <= i < axes.len() implies (#[trigger] once[i]).bounds(env)
        == twice[i].bounds(env) && twice[i].bounds(env) is Some by {
        lemma_slice_of_slice(axes[i], first[i], second[i], env);
    }
}

/// Slicing commutes with relabelling: to slice a permuted view is to slice the view with
/// the ranges put back in its own order, and then to permute.
pub proof fn lemma_slice_of_permuted(
    axes: Seq<Axis>,
    ranges: Seq<(Expression, Expression)>,
    order: Seq<usize>,
)
    requires
        is_permutation(order, axes.len()),
        ranges.len() == axes.len(),
    ensures
        ShapeTracker::sliced(permuted(axes, order), permuted(ranges, order)) == permuted(
            ShapeTracker::sliced(axes, ranges),
            order,
        ),
{
}

/// On an axis of at least eight indices, the slice `[2, 8)` followed by the slice
/// `[1, 4)` is the slice `[3, 6)`.
pub proof fn lemma_nested_slice(source: int, size: usize)
    requires
        size >= 8,
    ensures
        Axis::whole(source, Expression::Num(size)).sliced(
            (Expression::Num(2), Expression::Num(8)),
        ).sliced((Expression::Num(1), Expression::Num(4))) == Axis::whole(
            source,
            Expression::Num(size),
        ).sliced((Expression::Num(3), Expression::Num(6))),
        Axis::whole(source, Expression::Num(size)).sliced(
            (Expression::Num(3), Expression::Num(6)),
        ) == (Axis {
            source: Some(source as usize),
            start: Expression::Num(3),
            end: Expression::Num(6),
        }),
{
}

/// Taking all of an axis leaves its range as it is, provided the axis is no longer than
/// the size the slice was made for and the end of the slice fits a machine word.
pub proof fn lemma_whole_slice_keeps_range(axis: Axis, size: usize, env: Map<char, usize>)
    requires
        axis.bounds(env) matches Some(r) && r.0 <= r.1 && r.1 - r.0 <= size && r.0 + size
            <= usize::MAX,
    ensures
        axis.sliced((Expression::Num(0), Expression::Num(size))).bounds(env) == axis.bounds(env),
{
    lemma_fold_keeps_value(Operator::Add, axis.start, Expression::Num(0), env);
    lemma_fold_keeps_value(Operator::Add, axis.start, Expression::Num(size), env);
    lemma_fold_keeps_value(
        Operator::Min,
        Expression::fold(Operator::Add, axis.start, Expression::Num(size)),
        axis.end,
        env,
    );
}

/// Reshaping passes sizes through: an axis of the target that takes over an axis of the
/// view has, under every binding, the size that axis has.
pub proof fn lemma_reshape_keeps_size(
    axes: Seq<Axis>,
    target: Seq<ReshapeDim>,
    j: int,
    env: Map<char, usize>,
)
    requires
        0 <= j < target.len(),
        target[j] matches ReshapeDim::PrevDim(i) && i < axes.len(),
    ensures
        ShapeTracker::whole(ShapeTracker::reshaped_sizes(axes, target))[j].bounds(env) == match axes[target[j]->PrevDim_0 as int].size().value(
            env,
        ) {
            Some(n) => Some((0usize, n)),
            None => None,
        },
{
}

/// Joining and slicing are inverse: of two axes joined end to end, the slice up to the
/// size of the first is as long as the first, and the slice from there to the end is as
/// long as the second.
pub proof fn lemma_concat_then_slice(a: Axis, b: Axis, source: int, env: Map<char, usize>)
    requires
        a.size().value(env) is Some,
        b.size().value(env) is Some,
        a.size().value(env).unwrap() + b.size().value(env).unwrap() <= usize::MAX,
    ensures
        ({
            let joined = Axis::whole(source, Expression::fold(Operator::Add, a.size(), b.size()));
            let m = a.size().value(env).unwrap();
            let n = b.size().value(env).unwrap();
            &&& joined.sliced((Expression::Num(0), a.size())).bounds(env) == Some((0usize, m))
            &&& joined.sliced(
                (a.size(), Expression::fold(Operator::Add, a.size(), b.size())),
            ).bounds(env) == Some((m, (m + n) as usize))
        }),
{
    let total = Expression::fold(Operator::Add, a.size(), b.size());
    let zero = Expression::Num(0);
    lemma_fold_keeps_value(Operator::Add, a.size(), b.size(), env);
    lemma_fold_keeps_value(Operator::Add, zero, zero, env);
    lemma_fold_keeps_value(Operator::Add, zero, a.size(), env);
    lemma_fold_keeps_value(
        Operator::Min,
        Expression::fold(Operator::Add, zero, a.size()),
        total,
        env,
    );
    lemma_fold_keeps_value(Operator::Add, zero, total, env);
    lemma_fold_keeps_value(
        Operator::Min,
        Expression::fold(Operator::Add, zero, total),
        total,
        env,
    );
}

} // verus!
