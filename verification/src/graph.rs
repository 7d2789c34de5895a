//! The operation graph: an append-only arena of nodes, and the handles into it.
//!
//! Every operation on a tensor becomes a [`Node`] of the [`Graph`] that owns the tensor.
//! Nodes are numbered in the order in which they are added; a node, once added, is never
//! changed or removed, so a [`GraphTensor`] is just the number of its node together with
//! the shape the caller knows it by. An operation that is refused adds nothing.
//!
//! Operations that need to add nodes take the graph as an argument: a handle holds no
//! reference to its graph, and the graph is the only owner of its nodes.

use vstd::prelude::*;
use crate::bindings::Bindings;
use crate::error::ShapeError;
use crate::expression::Expression;
use crate::permutation::{is_permutation, permuted};
use crate::shape::slice::{fits, half_open_ranges, sliced_shape, SliceOfShape, SliceRange};
use crate::shape::{Dimension, ReshapeDim, Shape};
use crate::tracker::{inverted, Axis, ShapeTracker};

verus! {

/// What a node computes.
#[derive(Debug)]
pub enum Op<P> {
    /// A leaf: a tensor that is stored, not computed.
    Tensor,
    /// A host computation, with a name that serves diagnostics only.
    Function(String, P),
    /// A range of every axis of the input.
    Slice,
    /// The input with its axes relabelled.
    Permute,
    /// The input broadcast along an axis.
    Expand,
    /// The input under another shape.
    Reshape,
    /// Two inputs joined along an axis.
    Concat,
    /// An elementwise or matrix primitive, by name.
    Primitive(String),
}

/// One operation of the graph.
#[derive(Debug)]
pub struct Node<P> {
    /// The number of the node: its place in the graph.
    pub id: usize,
    /// What the node computes.
    pub op: Op<P>,
    /// The nodes whose results the operation reads, in order.
    pub inputs: Vec<usize>,
    /// The shape of the result.
    pub shape: Shape,
    /// How the result is laid out over what is stored.
    pub view: ShapeTracker,
}

/// A handle to the result of a node: the number of the node and the shape that the
/// caller knows the result by. It holds no data.
#[derive(Debug)]
pub struct GraphTensor {
    pub id: usize,
    pub shape: Shape,
}

impl Clone for GraphTensor {
    fn clone(&self) -> (r: Self)
        ensures
            r.id == self.id,
            r.shape@ == self.shape@,
    {
        GraphTensor { id: self.id, shape: self.shape.clone() }
    }
}

impl GraphTensor {
    /// Relabels the tensor with another shape. The node and its view stay as they are.
    ///
    /// Nothing is checked here, since sizes that hold symbols cannot be compared before
    /// the symbols are bound: that the new shape has the sizes of the view is the
    /// caller's claim, and [`check_realized`] tests it once bindings are at hand.
    pub fn realize(self, shape: Shape) -> (r: GraphTensor)
        ensures
            r.id == self.id,
            r.shape == shape,
    {
        GraphTensor { id: self.id, shape }
    }
}

/// Whether a shape has, under `env`, the sizes of the given ranges: the same number of
/// axes, and on every axis whose size has a value the length of the range.
pub open spec fn agrees(
    shape: Seq<Dimension>,
    ranges: Seq<(usize, usize)>,
    env: Map<char, usize>,
) -> bool {
    &&& shape.len() == ranges.len()
    &&& forall|i: int|
        0 <= i < shape.len() ==> ((#[trigger] shape[i]).size().value(env) matches Some(n) ==> n
            == ranges[i].1 - ranges[i].0)
}

/// Tests, with bindings at hand, the claim that a tensor known by `shape` has the sizes
/// of `view`.
///
/// Fails as resolving the view fails; failing that, with `UnresolvedDynamicMismatch` if
/// the shape and the view differ in rank, or on an axis whose size has a value.
pub fn check_realized(view: &ShapeTracker, shape: &Shape, env: &Bindings) -> (r: Result<
    (),
    ShapeError,
>)
    ensures
        r is Ok <==> ShapeTracker::bound_under(view@, env@) && ShapeTracker::ordered_under(
            view@,
            env@,
        ) && agrees(shape@, ShapeTracker::ranges_under(view@, env@), env@),
        r matches Err(e) ==> e == if !ShapeTracker::bound_under(view@, env@) {
            ShapeError::UnboundSymbol
        } else if !ShapeTracker::ordered_under(view@, env@) {
            ShapeError::InvalidRange
        } else {
            ShapeError::UnresolvedDynamicMismatch
        },
{
    let ranges = match view.resolve(env) {
        Ok(ranges) => ranges,
        Err(e) => {
            return Err(e);
        },
    };
    if ranges.len() != shape.dims.len() {
        return Err(ShapeError::UnresolvedDynamicMismatch);
    }
    let mut i: usize = 0;
    while i < ranges.len()
        invariant
            i <= ranges.len(),
            ranges@.len() == shape@.len(),
            ranges@ == ShapeTracker::ranges_under(view@, env@),
            ShapeTracker::bound_under(view@, env@),
            ShapeTracker::ordered_under(view@, env@),
            forall|k: int|
                0 <= k < i ==> ((#[trigger] shape@[k]).size().value(env@) matches Some(n) ==> n
                    == ranges@[k].1 - ranges@[k].0),
        decreases ranges.len() - i,
    {
        match shape.dims[i].resolve(env) {
            Some(n) => {
                if n != ranges[i].1 - ranges[i].0 {
                    return Err(ShapeError::UnresolvedDynamicMismatch);
                }
            },
            None => {},
        }
        i += 1;
    }
    Ok(())
}

/// Whether a slice of a tensor known by `shape` and laid out as `view` is accepted:
/// there is one range per axis, and no axis refuses its range.
pub open spec fn slice_accepted(
    view: Seq<Axis>,
    shape: Seq<Dimension>,
    ranges: Seq<SliceRange>,
) -> bool {
    &&& fits(ranges, shape)
    &&& view.len() == shape.len()
    &&& !ShapeTracker::refuses(view, half_open_ranges(ranges, shape))
}

/// A slice that on some axis is known to start past its end is not accepted, whatever
/// the tensor.
pub proof fn lemma_inverted_slice_is_rejected(
    view: Seq<Axis>,
    shape: Seq<Dimension>,
    ranges: Seq<SliceRange>,
    axis: int,
)
    requires
        0 <= axis < shape.len(),
        inverted(
            half_open_ranges(ranges, shape)[axis].0,
            half_open_ranges(ranges, shape)[axis].1,
        ),
    ensures
        !slice_accepted(view, shape, ranges),
{
    if fits(ranges, shape) && view.len() == shape.len() {
        assert(view[axis].refuses(half_open_ranges(ranges, shape)[axis]));
    }
}

/// Growing keeps what was there: every node of the graph before is a node of the graph
/// after, unchanged and under the same number.
pub proof fn lemma_growth_keeps_nodes<P>(
    before: Seq<Node<P>>,
    after: Seq<Node<P>>,
    op: Op<P>,
    inputs: Seq<usize>,
    shape: Seq<Dimension>,
    view: Seq<Axis>,
    id: int,
)
    requires
        Graph::grew(before, after, op, inputs, shape, view),
        0 <= id < before.len(),
    ensures
        after[id] == before[id],
{
}

/// The view of a tensor broadcast along `axis` to `target`: the broadcast axis is put in
/// where `target` has one axis more, and takes the place of the axis there otherwise.
pub open spec fn expanded_view(
    view: Seq<Axis>,
    shape: Seq<Dimension>,
    axis: int,
    target: Seq<Dimension>,
) -> Seq<Axis> {
    if target.len() == shape.len() + 1 {
        view.insert(axis, Axis::replicated(target[axis].size()))
    } else {
        view.update(axis, Axis::replicated(target[axis].size()))
    }
}

/// The nodes of one model, in the order in which they were added.
///
/// The nodes can be read but not written from outside: a graph is well formed by
/// construction, and stays so.
#[derive(Debug)]
pub struct Graph<P> {
    nodes: Vec<Node<P>>,
}

impl<P> View for Graph<P> {
    type V = Seq<Node<P>>;

    closed spec fn view(&self) -> Seq<Node<P>> {
        self.nodes@
    }
}

impl<P> Graph<P> {
    /// Every node sits at the place its number names, reads only nodes that were added
    /// before it, and has a view of the rank of its shape.
    pub open spec fn well_formed(&self) -> bool {
        forall|i: int|
            0 <= i < self@.len() ==> {
                let node = #[trigger] self@[i];
                &&& node.id == i
                &&& forall|k: int| 0 <= k < node.inputs@.len() ==> node.inputs@[k] < i
                &&& node.view@.len() == node.shape@.len()
                &&& ShapeTracker::well_formed(node.view@)
            }
    }

    /// What holds of every graph: it is well formed.
    #[verifier::type_invariant]
    spec fn holds(&self) -> bool {
        self.well_formed()
    }

    /// The handle names a node of this graph.
    pub open spec fn owns(&self, tensor: &GraphTensor) -> bool {
        tensor.id < self@.len()
    }

    /// `after` is `before` with one node added at the end: every node of `before` is
    /// still there, unchanged and at its place, and the new node is as given.
    pub open spec fn grew(
        before: Seq<Node<P>>,
        after: Seq<Node<P>>,
        op: Op<P>,
        inputs: Seq<usize>,
        shape: Seq<Dimension>,
        view: Seq<Axis>,
    ) -> bool {
        &&& after.len() == before.len() + 1
        &&& after.drop_last() == before
        &&& after.last().id == before.len()
        &&& after.last().op == op
        &&& after.last().inputs@ == inputs
        &&& after.last().shape@ == shape
        &&& after.last().view@ == view
    }

    /// The graph without nodes.
    pub fn new() -> (r: Graph<P>)
        ensures
            r@.len() == 0,
            r.well_formed(),
    {
        Graph { nodes: Vec::new() }
    }

    /// The number of nodes.
    pub fn len(&self) -> (r: usize)
        ensures
            r == self@.len(),
    {
        self.nodes.len()
    }

    /// Tells whether the handle names a node of this graph.
    pub fn contains(&self, tensor: &GraphTensor) -> (r: bool)
        ensures
            r == self.owns(tensor),
    {
        tensor.id < self.nodes.len()
    }

    /// The nodes of the graph, in the order in which they were added. They are well
    /// formed, as the nodes of every graph are.
    pub fn nodes(&self) -> (r: &Vec<Node<P>>)
        ensures
            r@ == self@,
            self.well_formed(),
    {
        proof {
            use_type_invariant(self);
        }
        &self.nodes
    }

    /// The node with the given number, if there is one.
    pub fn node(&self, id: usize) -> (r: Option<&Node<P>>)
        ensures
            r is Some <==> id < self@.len(),
            r matches Some(node) ==> *node == self@[id as int],
    {
        if id < self.nodes.len() {
            Some(&self.nodes[id])
        } else {
            None
        }
    }

    /// The node `id` is a leaf: a stored tensor.
    pub open spec fn is_leaf(&self, id: int) -> bool {
        0 <= id < self@.len() && self@[id].op is Tensor
    }

    /// The leaves of the graph, in the order in which they were added: what a
    /// checkpoint has to hold.
    pub fn leaves(&self) -> (r: Vec<usize>)
        ensures
            forall|k: int| 0 <= k < r@.len() ==> self.is_leaf(#[trigger] r@[k] as int),
            forall|j: int, k: int| 0 <= j < k < r@.len() ==> r@[j] < r@[k],
            forall|id: int| self.is_leaf(id) ==> r@.contains(id as usize),
    {
        let mut found: Vec<usize> = Vec::new();
        let mut i: usize = 0;
        while i < self.nodes.len()
            invariant
                i <= self.nodes.len(),
                forall|k: int|
                    0 <= k < found@.len() ==> self.is_leaf(#[trigger] found@[k] as int)
                        && found@[k] < i,
                forall|j: int, k: int| 0 <= j < k < found@.len() ==> found@[j] < found@[k],
                forall|id: int| self.is_leaf(id) && id < i ==> found@.contains(id as usize),
            decreases self.nodes.len() - i,
        {
            let ghost before = found@;
            let leaf: bool = match &self.nodes[i].op {
                Op::Tensor => true,
                _ => false,
            };
            if leaf {
                found.push(i);
            }
            proof {
                assert forall|id: int| self.is_leaf(id) && id < i + 1 implies found@.contains(
                    id as usize,
                ) by {
                    if id < i {
                        let k = choose|k: int| 0 <= k < before.len() && before[k] == id as usize;
                        assert(found@[k] == id as usize);
                    } else {
                        assert(found@[found@.len() - 1] == i);
                    }
                }
            }
            i += 1;
        }
        found
    }

    /// Tests, with bindings at hand, that a tensor has the sizes of the shape it is
    /// known by: [`check_realized`] on the view of its node.
    pub fn check_tensor(&self, tensor: &GraphTensor, env: &Bindings) -> (r: Result<(), ShapeError>)
        requires
            self.owns(tensor),
        ensures
            r is Ok <==> ShapeTracker::bound_under(self@[tensor.id as int].view@, env@)
                && ShapeTracker::ordered_under(self@[tensor.id as int].view@, env@)
                && agrees(
                tensor.shape@,
                ShapeTracker::ranges_under(self@[tensor.id as int].view@, env@),
                env@,
            ),
            r matches Err(e) ==> e == if !ShapeTracker::bound_under(
                self@[tensor.id as int].view@,
                env@,
            ) {
                ShapeError::UnboundSymbol
            } else if !ShapeTracker::ordered_under(self@[tensor.id as int].view@, env@) {
                ShapeError::InvalidRange
            } else {
                ShapeError::UnresolvedDynamicMismatch
            },
    {
        check_realized(&self.nodes[tensor.id].view, &tensor.shape, env)
    }

    fn push(&mut self, op: Op<P>, inputs: Vec<usize>, shape: Shape, view: ShapeTracker) -> (t:
        GraphTensor)
        requires
            forall|k: int| 0 <= k < inputs@.len() ==> inputs@[k] < old(self)@.len(),
            view@.len() == shape@.len(),
            ShapeTracker::well_formed(view@),
        ensures
            final(self).well_formed(),
            Self::grew(old(self)@, final(self)@, op, inputs@, shape@, view@),
            t.id == old(self)@.len(),
            t.shape@ == shape@,
            final(self).owns(&t),
    {
        proof {
            use_type_invariant(&*self);
        }
        let id: usize = self.nodes.len();
        let handle = GraphTensor { id, shape: shape.clone() };
        let ghost before = self@;
        // The list is taken out to grow and put back whole, so that the graph is well
        // formed at every step.
        let mut nodes: Vec<Node<P>> = Vec::new();
        std::mem::swap(&mut nodes, &mut self.nodes);
        nodes.push(Node { id, op, inputs, shape, view });
        proof {
            assert(nodes@.drop_last() =~= before);
        }
        std::mem::swap(&mut nodes, &mut self.nodes);
        handle
    }

    /// Adds a node for `op` that reads the given nodes and yields a tensor of the given
    /// shape, stored whole. The node gets the next number; the handle to it is returned.
    pub fn add_op(&mut self, op: Op<P>, inputs: Vec<usize>, shape: Shape) -> (t: GraphTensor)
        requires
            forall|k: int| 0 <= k < inputs@.len() ==> inputs@[k] < old(self)@.len(),
        ensures
            final(self).well_formed(),
            Self::grew(
                old(self)@,
                final(self)@,
                op,
                inputs@,
                shape@,
                ShapeTracker::whole(ShapeTracker::sizes_of(shape@)),
            ),
            t.id == old(self)@.len(),
            t.shape@ == shape@,
            final(self).owns(&t),
    {
        let view = ShapeTracker::new(&shape);
        self.push(op, inputs, shape, view)
    }

    /// Adds a leaf: a stored tensor of the given shape.
    pub fn new_tensor(&mut self, shape: Shape) -> (t: GraphTensor)
        requires
        ensures
            final(self).well_formed(),
            Self::grew(
                old(self)@,
                final(self)@,
                Op::Tensor,
                Seq::empty(),
                shape@,
                ShapeTracker::whole(ShapeTracker::sizes_of(shape@)),
            ),
            t.id == old(self)@.len(),
            t.shape@ == shape@,
            final(self).owns(&t),
    {
        self.add_op(Op::Tensor, Vec::new(), shape)
    }

    /// Slices a tensor, one range per axis. Each range is read against the
    /// classification that the axis has now, and applies to what the axis covers now.
    ///
    /// Rejected with `ShapeMismatch` unless there is one range per axis, and with
    /// `InvalidRange` if on some axis the range, or what is left of the axis, is known
    /// to start past its end. A rejected slice leaves the graph as it was.
    pub fn slice<S: SliceOfShape>(&mut self, tensor: &GraphTensor, slices: &S) -> (r: Result<
        GraphTensor,
        ShapeError,
    >)
        requires
            old(self).owns(tensor),
        ensures
            final(self).well_formed(),
            r is Ok <==> slice_accepted(
                old(self)@[tensor.id as int].view@,
                tensor.shape@,
                slices.ranges(),
            ),
            r matches Ok(t) ==> Self::grew(
                old(self)@,
                final(self)@,
                Op::Slice,
                seq![tensor.id],
                sliced_shape(slices.ranges(), tensor.shape@),
                ShapeTracker::sliced(
                    old(self)@[tensor.id as int].view@,
                    half_open_ranges(slices.ranges(), tensor.shape@),
                ),
            ) && t.id == old(self)@.len() && t.shape@ == sliced_shape(
                slices.ranges(),
                tensor.shape@,
            ),
            r matches Err(e) ==> *final(self) == *old(self) && e == if !fits(
                slices.ranges(),
                tensor.shape@,
            ) || old(self)@[tensor.id as int].view@.len() != tensor.shape@.len() {
                ShapeError::ShapeMismatch
            } else {
                ShapeError::InvalidRange
            },
    {
        proof {
            use_type_invariant(&*self);
        }
        let shape = match slices.output_shape(&tensor.shape) {
            Ok(shape) => shape,
            Err(e) => {
                return Err(e);
            },
        };
        let ranges = match slices.to_range_vec(&tensor.shape) {
            Ok(ranges) => ranges,
            Err(e) => {
                return Err(e);
            },
        };
        let view = match self.nodes[tensor.id].view.slice(&ranges) {
            Ok(view) => view,
            Err(e) => {
                return Err(e);
            },
        };
        let mut inputs: Vec<usize> = Vec::new();
        inputs.push(tensor.id);
        Ok(self.push(Op::Slice, inputs, shape, view))
    }

    /// Relabels the axes of a tensor: axis `i` of the result is axis `axes[i]` of the
    /// tensor. Rejected with `InvalidRange` unless `axes` names every axis exactly once;
    /// a rejected permutation leaves the graph as it was.
    pub fn permute(&mut self, tensor: &GraphTensor, axes: &Vec<usize>) -> (r: Result<
        GraphTensor,
        ShapeError,
    >)
        requires
            old(self).owns(tensor),
        ensures
            final(self).well_formed(),
            r is Ok <==> is_permutation(axes@, tensor.shape@.len()) && is_permutation(
                axes@,
                old(self)@[tensor.id as int].view@.len(),
            ),
            r matches Ok(t) ==> Self::grew(
                old(self)@,
                final(self)@,
                Op::Permute,
                seq![tensor.id],
                permuted(tensor.shape@, axes@),
                permuted(old(self)@[tensor.id as int].view@, axes@),
            ) && t.id == old(self)@.len() && t.shape@ == permuted(tensor.shape@, axes@),
            r matches Err(e) ==> *final(self) == *old(self) && e == ShapeError::InvalidRange,
    {
        proof {
            use_type_invariant(&*self);
        }
        let shape = match tensor.shape.permute(axes) {
            Ok(shape) => shape,
            Err(e) => {
                return Err(e);
            },
        };
        let view = match self.nodes[tensor.id].view.permute(axes) {
            Ok(view) => view,
            Err(e) => {
                return Err(e);
            },
        };
        let mut inputs: Vec<usize> = Vec::new();
        inputs.push(tensor.id);
        Ok(self.push(Op::Permute, inputs, shape, view))
    }

    /// Broadcasts a tensor along `axis` to the shape `target`, from which the broadcast
    /// axis takes its classification. The axis is new, or was of size one; it visits no
    /// storage.
    ///
    /// Rejected with `ShapeMismatch` unless `target` is the shape of the tensor with an
    /// axis put in at `axis`, or with a size of one replaced there. A rejected broadcast
    /// leaves the graph as it was.
    pub fn expand(&mut self, tensor: &GraphTensor, axis: usize, target: &Shape) -> (r: Result<
        GraphTensor,
        ShapeError,
    >)
        requires
            old(self).owns(tensor),
        ensures
            final(self).well_formed(),
            r is Ok <==> Shape::expands_to(tensor.shape@, axis as int, target@) && old(self)@[tensor.id as int].view@.len() == tensor.shape@.len(),
            r matches Ok(t) ==> Self::grew(
                old(self)@,
                final(self)@,
                Op::Expand,
                seq![tensor.id],
                target@,
                expanded_view(
                    old(self)@[tensor.id as int].view@,
                    tensor.shape@,
                    axis as int,
                    target@,
                ),
            ) && t.id == old(self)@.len() && t.shape@ == target@,
            r matches Err(e) ==> *final(self) == *old(self) && e == ShapeError::ShapeMismatch,
    {
        proof {
            use_type_invariant(&*self);
        }
        let shape = match tensor.shape.expand(axis, target) {
            Ok(shape) => shape,
            Err(e) => {
                return Err(e);
            },
        };
        if self.nodes[tensor.id].view.rank() != tensor.shape.rank() {
            return Err(ShapeError::ShapeMismatch);
        }
        let size = target.dims[axis].const_size();
        let expanded = if target.rank() != tensor.shape.rank() {
            self.nodes[tensor.id].view.expand(axis, size)
        } else {
            self.nodes[tensor.id].view.broadcast(axis, size)
        };
        let view = match expanded {
            Ok(view) => view,
            Err(e) => {
                return Err(e);
            },
        };
        let mut inputs: Vec<usize> = Vec::new();
        inputs.push(tensor.id);
        Ok(self.push(Op::Expand, inputs, shape, view))
    }

    /// Reshapes a tensor to `target`, each axis of which has a fixed size or takes over
    /// the classification and the size of an axis of the tensor.
    ///
    /// Rejected with `InvalidRange` if `target` names an axis that the tensor does not
    /// have; a rejected reshape leaves the graph as it was.
    pub fn reshape(&mut self, tensor: &GraphTensor, target: &Vec<ReshapeDim>) -> (r: Result<
        GraphTensor,
        ShapeError,
    >)
        requires
            old(self).owns(tensor),
        ensures
            final(self).well_formed(),
            r is Ok <==> Shape::reshape_total(tensor.shape@.len(), target@)
                && Shape::reshape_total(
                old(self)@[tensor.id as int].view@.len(),
                target@,
            ),
            r matches Ok(t) ==> Self::grew(
                old(self)@,
                final(self)@,
                Op::Reshape,
                seq![tensor.id],
                Shape::reshaped(tensor.shape@, target@),
                ShapeTracker::whole(
                    ShapeTracker::reshaped_sizes(old(self)@[tensor.id as int].view@, target@),
                ),
            ) && t.id == old(self)@.len() && t.shape@ == Shape::reshaped(
                tensor.shape@,
                target@,
            ),
            r matches Err(e) ==> *final(self) == *old(self) && e == ShapeError::InvalidRange,
    {
        proof {
            use_type_invariant(&*self);
        }
        let shape = match tensor.shape.reshape(target) {
            Ok(shape) => shape,
            Err(e) => {
                return Err(e);
            },
        };
        let view = match self.nodes[tensor.id].view.reshape(target) {
            Ok(view) => view,
            Err(e) => {
                return Err(e);
            },
        };
        let mut inputs: Vec<usize> = Vec::new();
        inputs.push(tensor.id);
        Ok(self.push(Op::Reshape, inputs, shape, view))
    }

    /// Joins two tensors along `axis`. The joined axis has a fixed size where both
    /// tensors have one there, and a run-time size otherwise.
    ///
    /// Rejected with `ShapeMismatch` unless the tensors have the same rank, `axis` is
    /// one of their axes, and they are classified alike on every other axis. A rejected
    /// join leaves the graph as it was.
    pub fn concat(&mut self, first: &GraphTensor, second: &GraphTensor, axis: usize) -> (r:
        Result<GraphTensor, ShapeError>)
        requires
            old(self).owns(first),
            old(self).owns(second),
            axis < first.shape@.len() && axis < second.shape@.len() ==> Shape::concat_fits(
                first.shape@[axis as int],
                second.shape@[axis as int],
            ),
        ensures
            final(self).well_formed(),
            r is Ok <==> Shape::concat_agrees(first.shape@, second.shape@, axis as int) && old(self)@[first.id as int].view@.len() == first.shape@.len() && old(self)@[second.id as int].view@.len() == first.shape@.len(),
            r matches Ok(t) ==> Self::grew(
                old(self)@,
                final(self)@,
                Op::Concat,
                seq![first.id, second.id],
                first.shape@.update(
                    axis as int,
                    Shape::concat_dim(first.shape@[axis as int], second.shape@[axis as int]),
                ),
                ShapeTracker::whole(
                    ShapeTracker::joined_sizes(
                        old(self)@[first.id as int].view@,
                        old(self)@[second.id as int].view@,
                        axis as int,
                    ),
                ),
            ) && t.id == old(self)@.len() && t.shape@ == first.shape@.update(
                axis as int,
                Shape::concat_dim(first.shape@[axis as int], second.shape@[axis as int]),
            ),
            r matches Err(e) ==> *final(self) == *old(self) && e == ShapeError::ShapeMismatch,
    {
        proof {
            use_type_invariant(&*self);
        }
        let shape = match first.shape.concat(&second.shape, axis) {
            Ok(shape) => shape,
            Err(e) => {
                return Err(e);
            },
        };
        if self.nodes[first.id].view.rank() != first.shape.rank() {
            return Err(ShapeError::ShapeMismatch);
        }
        let view = match self.nodes[first.id].view.concat(&self.nodes[second.id].view, axis) {
            Ok(view) => view,
            Err(e) => {
                return Err(e);
            },
        };
        let mut inputs: Vec<usize> = Vec::new();
        inputs.push(first.id);
        inputs.push(second.id);
        proof {
            assert(inputs@ =~= seq![first.id, second.id]);
        }
        Ok(self.push(Op::Concat, inputs, shape, view))
    }
}

} // verus!
