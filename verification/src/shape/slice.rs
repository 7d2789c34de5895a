//! Slice specifications and the ranges they stand for.
//!
//! A slice is given per axis as a [`SliceRange`] in the caller's own bound style. Two
//! things are derived from it: the half-open range `[start, end)` that it selects, which
//! is the only form a tracker deals in, and the classification of the axis that
//! results.

use vstd::prelude::*;
use vstd::std_specs::convert::IntoSpec;
use crate::error::ShapeError;
use crate::expression::{Expression, Operator};
use crate::shape::{Dimension, Shape, UNKNOWN};

verus! {

/// The size that stands for an axis whose size is not known when the graph is built.
pub const UNBOUNDED_SIZE: usize = 2147483647;

/// One end of a range.
#[derive(Debug, PartialEq, Eq)]
pub enum Bound<T> {
    /// The range reaches this index and contains it.
    Included(T),
    /// The range reaches this index and leaves it out.
    Excluded(T),
    /// The range has no end on this side.
    Unbounded,
}

/// The first index of a range with this lower end.
pub open spec fn start_of<D: Into<Expression>>(bound: Bound<D>) -> Expression {
    match bound {
        Bound::Included(x) => x.into_spec(),
        Bound::Excluded(x) => Expression::fold(Operator::Add, x.into_spec(), Expression::Num(1)),
        Bound::Unbounded => Expression::Num(0),
    }
}

/// The index just past a range with this upper end, on an axis of the given size.
pub open spec fn end_of<D: Into<Expression>, S: Into<Expression>>(
    bound: Bound<D>,
    size: S,
) -> Expression {
    match bound {
        Bound::Excluded(x) => x.into_spec(),
        Bound::Included(x) => Expression::fold(Operator::Add, x.into_spec(), Expression::Num(1)),
        Bound::Unbounded => size.into_spec(),
    }
}

/// The integer a size term denotes, or the stand-in size where it has none yet.
pub open spec fn size_or_unbounded(size: Expression) -> usize {
    match size.known() {
        Some(n) => n,
        None => UNBOUNDED_SIZE,
    }
}

/// The first index that a range with the given lower end selects.
///
/// What is promised holds of every index type whose conversion to a term is specified;
/// literals and terms are.
pub fn get_start_bound<D: Into<Expression> + Copy>(bound: Bound<D>) -> (r: Expression)
    ensures
        D::obeys_into_spec() ==> r == start_of(bound),
{
    match bound {
        Bound::Included(x) => x.into(),
        Bound::Excluded(x) => x.into() + Expression::from(1),
        Bound::Unbounded => Expression::from(0),
    }
}

/// The index just past what a range with the given upper end selects; a range without
/// an upper end runs to `size`.
///
/// What is promised holds of all index and size types whose conversion to a term is
/// specified; literals and terms are.
pub fn get_end_bound<D: Into<Expression> + Copy, S: Into<Expression>>(
    bound: Bound<D>,
    size: S,
) -> (r: Expression)
    ensures
        D::obeys_into_spec() && S::obeys_into_spec() ==> r == end_of(bound, size),
{
    match bound {
        Bound::Excluded(x) => x.into(),
        Bound::Included(x) => x.into() + Expression::from(1),
        Bound::Unbounded => size.into(),
    }
}

/// The size of an axis as an integer: what the term denotes if it has no symbols, the
/// stand-in size otherwise.
pub fn dim_to_size(r: Expression) -> (size: usize)
    ensures
        size == size_or_unbounded(r),
{
    match r.to_usize() {
        Some(n) => n,
        None => UNBOUNDED_SIZE,
    }
}

/// What a slice selects along one axis.
#[derive(Debug)]
pub enum SliceRange {
    /// The whole axis.
    Full,
    /// From an index to the end of the axis.
    From(Expression),
    /// From the beginning of the axis up to an index, which is left out.
    To(Expression),
    /// From the beginning of the axis up to an index, which is contained.
    ToInclusive(Expression),
    /// From an index up to another, which is left out.
    Range(Expression, Expression),
    /// From an index up to another, which is contained.
    RangeInclusive(Expression, Expression),
}

impl SliceRange {
    /// The lower end of the range.
    pub open spec fn lower(&self) -> Bound<&Expression> {
        match self {
            SliceRange::Full => Bound::Unbounded,
            SliceRange::From(x) => Bound::Included(x),
            SliceRange::To(_) => Bound::Unbounded,
            SliceRange::ToInclusive(_) => Bound::Unbounded,
            SliceRange::Range(x, _) => Bound::Included(x),
            SliceRange::RangeInclusive(x, _) => Bound::Included(x),
        }
    }

    /// The upper end of the range.
    pub open spec fn upper(&self) -> Bound<&Expression> {
        match self {
            SliceRange::Full => Bound::Unbounded,
            SliceRange::From(_) => Bound::Unbounded,
            SliceRange::To(y) => Bound::Excluded(y),
            SliceRange::ToInclusive(y) => Bound::Included(y),
            SliceRange::Range(_, y) => Bound::Excluded(y),
            SliceRange::RangeInclusive(_, y) => Bound::Included(y),
        }
    }

    /// The first index that the range selects: the lower end itself, or zero where the
    /// range has none.
    pub open spec fn start(&self) -> Expression {
        match self {
            SliceRange::Full => Expression::Num(0),
            SliceRange::From(x) => *x,
            SliceRange::To(_) => Expression::Num(0),
            SliceRange::ToInclusive(_) => Expression::Num(0),
            SliceRange::Range(x, _) => *x,
            SliceRange::RangeInclusive(x, _) => *x,
        }
    }

    /// The index just past what the range selects on an axis of `size`: the upper end
    /// where it is left out, one more where it is contained, and `size` where the range
    /// has none.
    pub open spec fn end(&self, size: usize) -> Expression {
        match self {
            SliceRange::Full => Expression::Num(size),
            SliceRange::From(_) => Expression::Num(size),
            SliceRange::To(y) => *y,
            SliceRange::ToInclusive(y) => Expression::fold(Operator::Add, *y, Expression::Num(1)),
            SliceRange::Range(_, y) => *y,
            SliceRange::RangeInclusive(_, y) => Expression::fold(
                Operator::Add,
                *y,
                Expression::Num(1),
            ),
        }
    }

    /// The half-open range `[start, end)` that this range selects on an axis classified
    /// as `dim`. Where the size of the axis is not known yet, a range without an upper
    /// end runs to the stand-in size.
    pub open spec fn half_open(&self, dim: Dimension) -> (Expression, Expression) {
        (self.start(), self.end(size_or_unbounded(dim.size())))
    }

    /// The lower end of the range.
    pub fn start_bound(&self) -> (r: Bound<&Expression>)
        ensures
            r == self.lower(),
    {
        match self {
            SliceRange::Full => Bound::Unbounded,
            SliceRange::From(x) => Bound::Included(x),
            SliceRange::To(_) => Bound::Unbounded,
            SliceRange::ToInclusive(_) => Bound::Unbounded,
            SliceRange::Range(x, _) => Bound::Included(x),
            SliceRange::RangeInclusive(x, _) => Bound::Included(x),
        }
    }

    /// The upper end of the range.
    pub fn end_bound(&self) -> (r: Bound<&Expression>)
        ensures
            r == self.upper(),
    {
        match self {
            SliceRange::Full => Bound::Unbounded,
            SliceRange::From(_) => Bound::Unbounded,
            SliceRange::To(y) => Bound::Excluded(y),
            SliceRange::ToInclusive(y) => Bound::Included(y),
            SliceRange::Range(_, y) => Bound::Excluded(y),
            SliceRange::RangeInclusive(_, y) => Bound::Included(y),
        }
    }
}

/// The half-open range of a slice range is what its two ends give.
pub proof fn lemma_half_open_follows_bounds(range: SliceRange, size: usize)
    ensures
        range.start() == start_of(range.lower()),
        range.end(size) == end_of(range.upper(), size),
{
}

/// The classification of an axis after a range of it has been taken: the whole axis
/// keeps its classification, and any other range gives a run-time size. That holds also
/// where the bounds of the range are literals: bounds are terms, which may hold symbols,
/// and the rule never tries to show that part of an axis has a fixed length.
pub open spec fn sliced_dimension(full: bool, dim: Dimension) -> Dimension {
    if full {
        dim
    } else {
        Dimension::Dynamic(UNKNOWN)
    }
}

/// A range of one axis, as far as the classification of the sliced axis goes.
pub trait RangeToDim {
    /// Whether the range takes the whole axis.
    spec fn is_full(&self) -> bool;

    /// The classification of the sliced axis, given that of the axis.
    fn to_dim(&self, dim: Dimension) -> (r: Dimension)
        ensures
            r == sliced_dimension(self.is_full(), dim),
    ;
}

impl RangeToDim for SliceRange {
    open spec fn is_full(&self) -> bool {
        *self is Full
    }

    fn to_dim(&self, dim: Dimension) -> (r: Dimension) {
        match self {
            SliceRange::Full => dim,
            _ => Dimension::Dynamic(UNKNOWN),
        }
    }
}

/// Whether there is one range for every axis of `shape`, and no more.
pub open spec fn fits(ranges: Seq<SliceRange>, shape: Seq<Dimension>) -> bool {
    ranges.len() == shape.len()
}

/// The shape of a slice of a tensor of the given shape: every axis classified by the
/// range that is taken of it.
pub open spec fn sliced_shape(ranges: Seq<SliceRange>, shape: Seq<Dimension>) -> Seq<Dimension> {
    Seq::new(shape.len(), |i: int| sliced_dimension(ranges[i].is_full(), shape[i]))
}

/// The half-open range that a slice selects on each axis of a tensor of the given
/// shape. Each range is read against its own axis.
pub open spec fn half_open_ranges(ranges: Seq<SliceRange>, shape: Seq<Dimension>) -> Seq<
    (Expression, Expression),
> {
    Seq::new(shape.len(), |i: int| ranges[i].half_open(shape[i]))
}

/// A slice of a whole tensor: one range per axis.
pub trait SliceOfShape {
    /// The ranges that the slice is made of, outermost axis first.
    spec fn ranges(&self) -> Seq<SliceRange>;

    /// The shape of the slice. Rejected with `ShapeMismatch` unless there is one range
    /// per axis.
    fn output_shape(&self, shape: &Shape) -> (r: Result<Shape, ShapeError>)
        ensures
            r is Ok <==> fits(self.ranges(), shape@),
            r matches Ok(s) ==> s@ == sliced_shape(self.ranges(), shape@),
            r matches Err(e) ==> e == ShapeError::ShapeMismatch,
    ;

    /// The half-open range that the slice selects on each axis. Rejected with
    /// `ShapeMismatch` unless there is one range per axis.
    fn to_range_vec(&self, shape: &Shape) -> (r: Result<Vec<(Expression, Expression)>, ShapeError>)
        ensures
            r is Ok <==> fits(self.ranges(), shape@),
            r matches Ok(v) ==> v@ == half_open_ranges(self.ranges(), shape@),
            r matches Err(e) ==> e == ShapeError::ShapeMismatch,
    ;
}

impl SliceOfShape for Vec<SliceRange> {
    open spec fn ranges(&self) -> Seq<SliceRange> {
        self@
    }

    fn output_shape(&self, shape: &Shape) -> (r: Result<Shape, ShapeError>) {
        if self.len() != shape.dims.len() {
            return Err(ShapeError::ShapeMismatch);
        }
        let mut dims: Vec<Dimension> = Vec::new();
        let mut i: usize = 0;
        while i < self.len()
            invariant
                i <= self@.len(),
                self@.len() == shape@.len(),
                dims@.len() == i,
                forall|k: int|
                    0 <= k < i ==> dims@[k] == sliced_dimension(self@[k].is_full(), shape@[k]),
            decreases self@.len() - i,
        {
            dims.push(self[i].to_dim(shape.dims[i]));
            i += 1;
        }
        Ok(Shape { dims })
    }

    fn to_range_vec(&self, shape: &Shape) -> (r: Result<Vec<(Expression, Expression)>, ShapeError>) {
        if self.len() != shape.dims.len() {
            return Err(ShapeError::ShapeMismatch);
        }
        let mut ranges: Vec<(Expression, Expression)> = Vec::new();
        let mut i: usize = 0;
        while i < self.len()
            invariant
                i <= self@.len(),
                self@.len() == shape@.len(),
                ranges@.len() == i,
                forall|k: int| 0 <= k < i ==> ranges@[k] == self@[k].half_open(shape@[k]),
            decreases self@.len() - i,
        {
            let size: usize = dim_to_size(shape.dims[i].const_size());
            let start = get_start_bound(self[i].start_bound());
            let end = get_end_bound(self[i].end_bound(), size);
            ranges.push((start, end));
            i += 1;
        }
        Ok(ranges)
    }
}

/// A slice that takes every axis whole has the shape it was taken from: the same
/// classification on every axis, not merely the same sizes.
pub proof fn lemma_full_slice_keeps_shape(ranges: Seq<SliceRange>, shape: Seq<Dimension>)
    requires
        fits(ranges, shape),
        forall|i: int| 0 <= i < ranges.len() ==> ranges[i] is Full,
    ensures
        sliced_shape(ranges, shape) == shape,
{
}

/// An axis that is not taken whole has a run-time size in the slice, whatever the
/// bounds of its range are.
pub proof fn lemma_partial_slice_is_dynamic(
    ranges: Seq<SliceRange>,
    shape: Seq<Dimension>,
    axis: int,
)
    requires
        fits(ranges, shape),
        0 <= axis < shape.len(),
        !(ranges[axis] is Full),
    ensures
        sliced_shape(ranges, shape)[axis] is Dynamic,
{
}

} // verus!
