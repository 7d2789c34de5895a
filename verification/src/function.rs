//! Function nodes: host computations spliced into the graph.
//!
//! A function node stands for an operation whose result, or even whose shape, depends
//! on sizes that are known only when the graph runs: an index sequence as long as some
//! axis of another tensor, a mask sized by a sequence length. The graph records the
//! node with the rank it declares; once sizes are bound, the payload is run on the
//! resolved views of its inputs, and what it returns is held against the declaration.

use vstd::prelude::*;
use crate::bindings::Bindings;
use crate::error::ShapeError;
use crate::graph::{Graph, Op};
use crate::tracker::{Axis, ShapeTracker};

verus! {

/// A tensor as a payload sees it: the node it belongs to, and its view.
#[derive(Debug)]
pub struct TensorView {
    pub tensor_id: usize,
    pub shape: ShapeTracker,
}

impl View for TensorView {
    type V = (usize, Seq<Axis>);

    open spec fn view(&self) -> (usize, Seq<Axis>) {
        (self.tensor_id, self.shape@)
    }
}

/// The inputs of a payload, as node numbers and views.
pub open spec fn inputs_of(inputs: Seq<(usize, TensorView)>) -> Seq<(usize, (usize, Seq<Axis>))> {
    Seq::new(inputs.len(), |i: int| (inputs[i].0, inputs[i].1@))
}

/// What a payload returned, as data and view; `None` if it failed.
pub open spec fn result_of<D: View>(result: Option<(Option<D>, TensorView)>) -> Option<
    (Option<D::V>, (usize, Seq<Axis>)),
> {
    match result {
        Some((Some(data), view)) => Some((Some(data@), view@)),
        Some((None, view)) => Some((None, view@)),
        None => None,
    }
}

/// A host computation behind a function node.
///
/// The computation is pure: what it yields is a function of its inputs and of the
/// number of the node it runs for, which is what `outcome` says. It may yield no data,
/// where the node only carries a shape, and it may fail.
pub trait FunctionPayload {
    /// What the computation materialises.
    type Data: View;

    /// What the computation yields on the given inputs, for the node `id`; `None` if it
    /// fails on them.
    spec fn outcome(&self, inputs: Seq<(usize, (usize, Seq<Axis>))>, id: usize) -> Option<
        (Option<<Self::Data as View>::V>, (usize, Seq<Axis>)),
    >;

    /// Runs the computation.
    fn call(&self, inputs: &Vec<(usize, TensorView)>, id: usize) -> (r: Option<
        (Option<Self::Data>, TensorView),
    >)
        ensures
            result_of(r) == self.outcome(inputs_of(inputs@), id),
    ;
}

/// Whether what a payload yielded keeps the declaration of its node: it did not fail,
/// it speaks of the node it ran for, and its view has the declared rank.
pub open spec fn keeps_declaration<V>(
    rank: nat,
    id: usize,
    outcome: Option<(Option<V>, (usize, Seq<Axis>))>,
) -> bool {
    outcome matches Some(o) && o.1.0 == id && o.1.1.len() == rank
}

/// Holds what a payload returned against the declaration of its node, and hands it on
/// if it keeps it. Rejected with `FunctionPayloadError` otherwise.
pub fn check_function_output<D: View>(
    rank: usize,
    id: usize,
    result: Option<(Option<D>, TensorView)>,
) -> (r: Result<(Option<D>, TensorView), ShapeError>)
    ensures
        r is Ok <==> keeps_declaration(rank as nat, id, result_of(result)),
        r matches Ok(out) ==> result == Some(out),
        r matches Err(e) ==> e == ShapeError::FunctionPayloadError,
{
    match result {
        Some(out) => {
            if out.1.tensor_id == id && out.1.shape.rank() == rank {
                Ok(out)
            } else {
                Err(ShapeError::FunctionPayloadError)
            }
        },
        None => Err(ShapeError::FunctionPayloadError),
    }
}

/// Whether the inputs handed to a payload are those its node declares: the same nodes,
/// in the same order.
pub open spec fn declared(inputs: Seq<(usize, TensorView)>, declared: Seq<usize>) -> bool {
    &&& inputs.len() == declared.len()
    &&& forall|k: int| 0 <= k < inputs.len() ==> (#[trigger] inputs[k]).0 == declared[k]
}

impl<P> Graph<P> {
    /// Whether `id` is a function node and `inputs` are the inputs it declares.
    pub open spec fn accepts(&self, id: usize, inputs: Seq<(usize, TensorView)>) -> bool {
        &&& id < self@.len()
        &&& self@[id as int].op is Function
        &&& declared(inputs, self@[id as int].inputs@)
    }

    /// The payload of the function node `id`, to be run on `inputs`. Rejected with
    /// `FunctionPayloadError` if `id` is no function node, or if `inputs` are not the
    /// inputs it declares.
    ///
    /// This is the first half of running a function node, for payloads that the caller
    /// runs itself; what the payload returns goes through [`check_function_output`].
    pub fn function_payload(&self, id: usize, inputs: &Vec<(usize, TensorView)>) -> (r: Result<
        &P,
        ShapeError,
    >)
        ensures
            r is Ok <==> self.accepts(id, inputs@),
            r matches Ok(payload) ==> self@[id as int].op matches Op::Function(_, p)
                && *payload == p,
            r matches Err(e) ==> e == ShapeError::FunctionPayloadError,
    {
        let node = match self.node(id) {
            Some(node) => node,
            None => {
                return Err(ShapeError::FunctionPayloadError);
            },
        };
        match &node.op {
            Op::Function(_, payload) => {
                if inputs.len() != node.inputs.len() {
                    return Err(ShapeError::FunctionPayloadError);
                }
                let mut k: usize = 0;
                while k < inputs.len()
                    invariant
                        k <= inputs.len(),
                        id < self@.len(),
                        *node == self@[id as int],
                        inputs@.len() == node.inputs@.len(),
                        forall|j: int| 0 <= j < k ==> (#[trigger] inputs@[j]).0 == node.inputs@[j],
                    decreases inputs.len() - k,
                {
                    if inputs[k].0 != node.inputs[k] {
                        return Err(ShapeError::FunctionPayloadError);
                    }
                    k += 1;
                }
                Ok(payload)
            },
            _ => Err(ShapeError::FunctionPayloadError),
        }
    }

    /// The view of a node with its sizes bound, as a payload is to see it. Fails as
    /// [`ShapeTracker::resolve`] does.
    pub fn resolved_view(&self, id: usize, env: &Bindings) -> (r: Result<TensorView, ShapeError>)
        requires
            id < self@.len(),
        ensures
            r is Ok <==> ShapeTracker::bound_under(self@[id as int].view@, env@)
                && ShapeTracker::ordered_under(self@[id as int].view@, env@),
            r matches Ok(v) ==> v@ == (
                id,
                ShapeTracker::literal_under(self@[id as int].view@, env@),
            ),
            r matches Err(e) ==> e == if !ShapeTracker::bound_under(
                self@[id as int].view@,
                env@,
            ) {
                ShapeError::UnboundSymbol
            } else {
                ShapeError::InvalidRange
            },
    {
        match self.nodes()[id].view.resolved(env) {
            Ok(shape) => Ok(TensorView { tensor_id: id, shape }),
            Err(e) => Err(e),
        }
    }
}

impl<P: FunctionPayload> Graph<P> {
    /// Whether running the function node `id` on `inputs` succeeds: the node is a
    /// function node, the inputs are those it declares, and what its payload yields
    /// keeps its declaration.
    pub open spec fn runs(&self, id: usize, inputs: Seq<(usize, TensorView)>) -> bool {
        &&& self.accepts(id, inputs)
        &&& self@[id as int].op matches Op::Function(_, payload)
        &&& keeps_declaration(
            self@[id as int].shape@.len(),
            id,
            payload.outcome(inputs_of(inputs), id),
        )
    }

    /// Runs the payload of the function node `id` on the resolved views of its inputs.
    ///
    /// Rejected with `FunctionPayloadError` if `id` is no function node, if `inputs` are
    /// not the inputs it declares, if the payload fails, or if what it returns is not
    /// for this node or not of the rank that the node declares.
    pub fn run_function(&self, id: usize, inputs: &Vec<(usize, TensorView)>) -> (r: Result<
        (Option<P::Data>, TensorView),
        ShapeError,
    >)
        ensures
            r is Ok <==> self.runs(id, inputs@),
            r matches Ok(out) ==> self@[id as int].op matches Op::Function(_, payload)
                && result_of(Some(out)) == payload.outcome(inputs_of(inputs@), id),
            r matches Err(e) ==> e == ShapeError::FunctionPayloadError,
    {
        let payload = match self.function_payload(id, inputs) {
            Ok(payload) => payload,
            Err(e) => {
                return Err(e);
            },
        };
        let result = payload.call(inputs, id);
        check_function_output(self.nodes()[id].shape.rank(), id, result)
    }
}

/// A payload is deterministic: run twice on inputs with the same views, for the same
/// node, it returns the same data and the same view.
pub proof fn lemma_payload_is_deterministic<P: FunctionPayload>(
    payload: &P,
    first: &Vec<(usize, TensorView)>,
    second: &Vec<(usize, TensorView)>,
    id: usize,
    r1: Option<(Option<P::Data>, TensorView)>,
    r2: Option<(Option<P::Data>, TensorView)>,
)
    requires
        inputs_of(first@) == inputs_of(second@),
        call_ensures(P::call, (payload, first, id), r1),
        call_ensures(P::call, (payload, second, id), r2),
    ensures
        result_of(r1) == result_of(r2),
{
}

/// A function node is deterministic: run twice on inputs with the same views, it
/// returns the same data and the same view, or fails both times.
pub proof fn lemma_function_is_deterministic<P: FunctionPayload>(
    graph: &Graph<P>,
    id: usize,
    first: &Vec<(usize, TensorView)>,
    second: &Vec<(usize, TensorView)>,
    r1: Result<(Option<P::Data>, TensorView), ShapeError>,
    r2: Result<(Option<P::Data>, TensorView), ShapeError>,
)
    requires
        inputs_of(first@) == inputs_of(second@),
        call_ensures(Graph::<P>::run_function, (graph, id, first), r1),
        call_ensures(Graph::<P>::run_function, (graph, id, second), r2),
    ensures
        r1 is Ok <==> r2 is Ok,
        r1 matches Ok(a) ==> r2 matches Ok(b) && result_of(Some(a)) == result_of(Some(b)),
        r1 matches Err(e) ==> r2 == Err::<(Option<P::Data>, TensorView), ShapeError>(e),
{
    assert(second@.len() == inputs_of(second@).len());
    assert forall|k: int| 0 <= k < first@.len() implies (#[trigger] first@[k]).0 == second@[k].0 by {
        assert(inputs_of(first@)[k] == inputs_of(second@)[k]);
    }
    if id < graph@.len() {
        let declared_inputs = graph@[id as int].inputs@;
        if declared(first@, declared_inputs) {
            assert forall|k: int| 0 <= k < second@.len() implies (#[trigger] second@[k]).0
                == declared_inputs[k] by {
                assert(first@[k].0 == second@[k].0);
            }
        }
    }
}

} // verus!
