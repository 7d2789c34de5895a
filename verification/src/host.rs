//! Two host computations that depend on a size known only when the graph runs.

use vstd::prelude::*;
use crate::expression::Expression;
use crate::function::{FunctionPayload, TensorView};
use crate::tracker::{Axis, ShapeTracker};

verus! {

/// The host computations that this crate brings along.
#[derive(Clone, Copy, Debug, PartialEq, Eq, Structural)]
pub enum HostFunction {
    /// The indices `0, 1, ..` of the outermost axis of the first input: a vector as
    /// long as that axis.
    IndexSequence,
    /// The causal mask for the second axis of the first input: a square matrix, as wide
    /// as that axis is long, that masks every position after the one attended from.
    CausalMask,
}

/// What a host computation materialises.
#[derive(Debug, PartialEq, Eq)]
pub enum HostData {
    Indices(Vec<usize>),
    /// Row `i` holds, for each position `j`, whether `j` is masked when attending from
    /// `i`.
    Mask(Vec<Vec<bool>>),
}

/// What a host computation materialises, as plain sequences.
pub enum HostValues {
    Indices(Seq<usize>),
    Mask(Seq<Seq<bool>>),
}

impl View for HostData {
    type V = HostValues;

    open spec fn view(&self) -> HostValues {
        match self {
            HostData::Indices(v) => HostValues::Indices(v@),
            HostData::Mask(rows) => HostValues::Mask(Seq::new(rows@.len(), |i: int| rows@[i]@)),
        }
    }
}

/// The length of one axis of a view whose bounds are literals; `None` if the view has
/// no such axis, or a bound of it is not known, or its range starts past its end.
pub open spec fn length_of(axes: Seq<Axis>, axis: int) -> Option<usize> {
    if 0 <= axis < axes.len() {
        match (axes[axis].start.known(), axes[axis].end.known()) {
            (Some(a), Some(b)) => if a <= b {
                Some((b - a) as usize)
            } else {
                None
            },
            _ => None,
        }
    } else {
        None
    }
}

/// The length of one axis of a resolved view.
pub fn axis_length(view: &TensorView, axis: usize) -> (r: Option<usize>)
    ensures
        r == length_of(view.shape@, axis as int),
{
    if axis >= view.shape.axes.len() {
        return None;
    }
    let a = &view.shape.axes[axis];
    match (a.start.to_usize(), a.end.to_usize()) {
        (Some(x), Some(y)) => if x <= y {
            Some(y - x)
        } else {
            None
        },
        _ => None,
    }
}

/// The indices below `n`, in order.
pub open spec fn indices(n: usize) -> Seq<usize> {
    Seq::new(n as nat, |i: int| i as usize)
}

/// The causal mask of width `n`: position `j` of row `i` is masked when `j` lies after
/// `i`.
pub open spec fn causal_mask(n: usize) -> Seq<Seq<bool>> {
    Seq::new(n as nat, |i: int| Seq::new(n as nat, |j: int| j > i))
}

/// A square view of a stored tensor of the given width.
pub open spec fn square(n: usize) -> Seq<Axis> {
    ShapeTracker::whole(seq![Expression::Num(n), Expression::Num(n)])
}

impl FunctionPayload for HostFunction {
    type Data = HostData;

    open spec fn outcome(&self, inputs: Seq<(usize, (usize, Seq<Axis>))>, id: usize) -> Option<
        (Option<HostValues>, (usize, Seq<Axis>)),
    > {
        if inputs.len() == 0 {
            None
        } else {
            match self {
                HostFunction::IndexSequence => match length_of(inputs[0].1.1, 0) {
                    Some(n) => Some(
                        (
                            Some(HostValues::Indices(indices(n))),
                            (id, ShapeTracker::whole(seq![Expression::Num(n)])),
                        ),
                    ),
                    None => None,
                },
                HostFunction::CausalMask => match length_of(inputs[0].1.1, 1) {
                    Some(n) => Some((Some(HostValues::Mask(causal_mask(n))), (id, square(n)))),
                    None => None,
                },
            }
        }
    }

    fn call(&self, inputs: &Vec<(usize, TensorView)>, id: usize) -> (r: Option<
        (Option<HostData>, TensorView),
    >) {
        if inputs.len() == 0 {
            return None;
        }
        match self {
            HostFunction::IndexSequence => {
                let n: usize = match axis_length(&inputs[0].1, 0) {
                    Some(n) => n,
                    None => {
                        return None;
                    },
                };
                let mut data: Vec<usize> = Vec::new();
                let mut i: usize = 0;
                while i < n
                    invariant
                        i <= n,
                        data@.len() == i,
                        forall|k: int| 0 <= k < i ==> data@[k] == k,
                    decreases n - i,
                {
                    data.push(i);
                    i += 1;
                }
                let mut sizes: Vec<Expression> = Vec::new();
                sizes.push(Expression::Num(n));
                proof {
                    assert(data@ =~= indices(n));
                }
                Some(
                    (
                        Some(HostData::Indices(data)),
                        TensorView { tensor_id: id, shape: ShapeTracker::from_sizes(sizes) },
                    ),
                )
            },
            HostFunction::CausalMask => {
                let n: usize = match axis_length(&inputs[0].1, 1) {
                    Some(n) => n,
                    None => {
                        return None;
                    },
                };
                let mut rows: Vec<Vec<bool>> = Vec::new();
                let mut i: usize = 0;
                while i < n
                    invariant
                        i <= n,
                        rows@.len() == i,
                        forall|k: int| 0 <= k < i ==> (#[trigger] rows@[k])@ == causal_mask(n)[k],
                    decreases n - i,
                {
                    let mut row: Vec<bool> = Vec::new();
                    let mut j: usize = 0;
                    while j < n
                        invariant
                            j <= n,
                            i < n,
                            row@.len() == j,
                            forall|k: int| 0 <= k < j ==> row@[k] == (k > i),
                        decreases n - j,
                    {
                        row.push(j > i);
                        j += 1;
                    }
                    rows.push(row);
                    i += 1;
                }
                let mut sizes: Vec<Expression> = Vec::new();
                sizes.push(Expression::Num(n));
                sizes.push(Expression::Num(n));
                proof {
                    assert(Seq::new(rows@.len(), |i: int| rows@[i]@) =~= causal_mask(n));
                }
                Some(
                    (
                        Some(HostData::Mask(rows)),
                        TensorView { tensor_id: id, shape: ShapeTracker::from_sizes(sizes) },
                    ),
                )
            },
        }
    }
}

} // verus!
