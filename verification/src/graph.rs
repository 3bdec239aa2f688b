//! The graph builder: node registration, constraint registration,
//! forward evaluation and constraint verification.

use std::collections::HashMap;
use vstd::prelude::*;

use crate::errors::FillError;
use crate::hints::HintFn;
use crate::node::{HintFunction, Node, NodeType};
use crate::semantics::{
    constraint_ok, constraints_hold, dep_valuation, filled, filled_up_to, inputs_covered,
    is_first_missing_input, lemma_filled_covers, wrap_add, wrap_mul,
};

verus! {

broadcast use vstd::std_specs::hash::group_hash_axioms;

/// The abstract state of a builder: the node payloads in identifier order
/// and the constraint pairs in registration order.
pub ghost struct GraphView<H> {
    /// Node payloads; a node's identifier is its index here.
    pub nodes: Seq<NodeType<H>>,
    /// Registered equality constraints, as `(left, right)` identifier pairs.
    pub constraints: Seq<(usize, usize)>,
}

/// A node may reference only strictly earlier nodes.
pub open spec fn node_refs_earlier<H>(node: NodeType<H>, id: int) -> bool {
    match node {
        NodeType::Input => true,
        NodeType::Constant(_) => true,
        NodeType::Add(a, b) => a < id && b < id,
        NodeType::Mul(a, b) => a < id && b < id,
        NodeType::Hint(deps, _) => forall|k: int| 0 <= k < deps@.len() ==> deps@[k] < id,
    }
}

/// The construction invariant: every node references only strictly
/// earlier nodes, and every constraint references existing nodes.
/// Identifier order is therefore a valid evaluation order.
pub open spec fn graph_wf<H>(g: GraphView<H>) -> bool {
    &&& forall|i: int| 0 <= i < g.nodes.len() ==> node_refs_earlier(#[trigger] g.nodes[i], i)
    &&& forall|i: int|
        0 <= i < g.constraints.len() ==> (#[trigger] g.constraints[i]).0 < g.nodes.len()
            && g.constraints[i].1 < g.nodes.len()
}

/// The number of `Hint` nodes in the graph.
pub open spec fn hint_count<H>(nodes: Seq<NodeType<H>>) -> nat
    decreases nodes.len(),
{
    if nodes.len() == 0 {
        0
    } else {
        hint_count(nodes.drop_last()) + if nodes.last() is Hint {
            1nat
        } else {
            0nat
        }
    }
}

/// Every `Hint` node carries as its hint-function identifier its rank
/// among the `Hint` nodes: the number of hint nodes strictly before it.
/// Identifiers allocated this way are unique within one graph
/// ([`lemma_hint_ids_unique`]).
pub open spec fn hint_ids_in_order<H>(nodes: Seq<NodeType<H>>) -> bool {
    forall|i: int|
        0 <= i < nodes.len() ==> ((#[trigger] nodes[i]) matches NodeType::Hint(_, f) ==> f.id
            == hint_count(nodes.take(i)))
}

/// There are never more hint nodes than nodes.
proof fn lemma_hint_count_le_len<H>(nodes: Seq<NodeType<H>>)
    ensures
        hint_count(nodes) <= nodes.len(),
    decreases nodes.len(),
{
    if nodes.len() > 0 {
        lemma_hint_count_le_len(nodes.drop_last());
    }
}

/// Appending a node raises the hint count by one exactly for `Hint` nodes.
proof fn lemma_hint_count_push<H>(nodes: Seq<NodeType<H>>, node: NodeType<H>)
    ensures
        hint_count(nodes.push(node)) == hint_count(nodes) + if node is Hint {
            1nat
        } else {
            0nat
        },
{
    assert(nodes.push(node).drop_last() =~= nodes);
    assert(nodes.push(node).last() == node);
}

/// Hint counts only grow along the node list.
proof fn lemma_hint_count_monotone<H>(nodes: Seq<NodeType<H>>, a: int, b: int)
    requires
        0 <= a <= b <= nodes.len(),
    ensures
        hint_count(nodes.take(a)) <= hint_count(nodes.take(b)),
    decreases b - a,
{
    if a < b {
        lemma_hint_count_monotone(nodes, a, b - 1);
        assert(nodes.take(b).drop_last() =~= nodes.take(b - 1));
    }
}

/// Law: hint-function identifiers are unique within one graph. When the
/// identifiers are in creation order, two distinct `Hint` nodes carry
/// distinct hint-function identifiers.
pub proof fn lemma_hint_ids_unique<H>(nodes: Seq<NodeType<H>>, i: int, j: int)
    requires
        hint_ids_in_order(nodes),
        0 <= i < j < nodes.len(),
        nodes[i] is Hint,
        nodes[j] is Hint,
    ensures
        nodes[i]->Hint_1.id != nodes[j]->Hint_1.id,
{
    assert(nodes.take(i + 1).drop_last() =~= nodes.take(i));
    assert(nodes.take(i + 1).last() == nodes[i]);
    assert(hint_count(nodes.take(i + 1)) == hint_count(nodes.take(i)) + 1);
    lemma_hint_count_monotone(nodes, i + 1, j);
}

/// Appending a node whose hint-function identifier (if it has one)
/// equals the current hint count keeps identifiers in creation order.
proof fn lemma_push_preserves_hint_order<H>(nodes: Seq<NodeType<H>>, node: NodeType<H>)
    requires
        hint_ids_in_order(nodes),
        node matches NodeType::Hint(_, f) ==> f.id == hint_count(nodes),
    ensures
        hint_ids_in_order(nodes.push(node)),
{
    let grown = nodes.push(node);
    assert forall|i: int|
        0 <= i < grown.len() implies ((#[trigger] grown[i]) matches NodeType::Hint(_, f) ==> f.id
        == hint_count(grown.take(i))) by {
        assert(grown.take(i) =~= nodes.take(i));
        if i < nodes.len() {
            assert(grown[i] == nodes[i]);
        } else {
            assert(grown[i] == node);
            assert(nodes.take(i) =~= nodes);
        }
    }
}

/// Appending a node that references only earlier nodes preserves the
/// construction invariant.
proof fn lemma_push_preserves_wf<H>(old_g: GraphView<H>, new_g: GraphView<H>, node: NodeType<H>)
    requires
        graph_wf(old_g),
        new_g.nodes == old_g.nodes.push(node),
        new_g.constraints == old_g.constraints,
        node_refs_earlier(node, old_g.nodes.len() as int),
    ensures
        graph_wf(new_g),
{
    assert forall|i: int| 0 <= i < new_g.nodes.len() implies node_refs_earlier(
        #[trigger] new_g.nodes[i],
        i,
    ) by {
        if i < old_g.nodes.len() {
            assert(new_g.nodes[i] == old_g.nodes[i]);
        } else {
            assert(new_g.nodes[i] == node);
        }
    }
}

/// A registered equality assertion between two node identifiers.
#[derive(Debug)]
struct Constraint {
    left: usize,
    right: usize,
}

/// A builder that will be used to create a computational graph.
///
/// It owns the ordered node list (index equals identifier), the
/// constraint list, and the counters for the next node identifier and the
/// next hint-function identifier. It grows monotonically and is read-only
/// once evaluation starts. `H` is the hint-function type; a graph without
/// hint nodes can use any implementation, e.g.
/// [`crate::hints::QuotientHint`].
#[derive(Debug)]
pub struct Builder<H> {
    nodes: Vec<NodeType<H>>,
    constraints: Vec<Constraint>,
    next_id: usize,
    next_hint_id: usize,
}

impl<H> View for Builder<H> {
    type V = GraphView<H>;

    closed spec fn view(&self) -> GraphView<H> {
        GraphView {
            nodes: self.nodes@,
            constraints: self.constraints@.map_values(|c: Constraint| (c.left, c.right)),
        }
    }
}

impl<H: HintFn> Builder<H> {
    /// The builder is well-formed: its abstract graph satisfies the
    /// construction invariant and its counters agree with the node list.
    /// Every builder obtained from [`Builder::new`] and grown through the
    /// registration operations stays well-formed.
    pub closed spec fn wf(&self) -> bool {
        &&& graph_wf(self@)
        &&& hint_ids_in_order(self@.nodes)
        &&& self.next_id == self.nodes@.len()
        &&& self.next_hint_id == hint_count(self@.nodes)
    }

    /// A well-formed builder's abstract graph satisfies [`graph_wf`], and
    /// its hint-function identifiers are in creation order, hence unique.
    pub proof fn lemma_wf(&self)
        requires
            self.wf(),
        ensures
            graph_wf(self@),
            hint_ids_in_order(self@.nodes),
    {
    }

    /// Creates a new, empty builder.
    pub fn new() -> (r: Self)
        ensures
            r.wf(),
            r@.nodes.len() == 0,
            r@.constraints.len() == 0,
    {
        Builder { nodes: Vec::new(), constraints: Vec::new(), next_id: 0, next_hint_id: 0 }
    }

    /// Initializes an `Input` node in the graph: its value must be
    /// supplied in the input mapping at evaluation time.
    pub fn init(&mut self) -> (n: Node)
        requires
            old(self).wf(),
        ensures
            final(self).wf(),
            final(self)@.nodes == old(self)@.nodes.push(NodeType::<H>::Input),
            final(self)@.constraints == old(self)@.constraints,
            n.id() == old(self)@.nodes.len(),
    {
        let id: usize = self.next_id;
        self.nodes.push(NodeType::Input);
        self.next_id = self.nodes.len();
        proof {
            lemma_push_preserves_wf(old(self)@, self@, NodeType::<H>::Input);
            lemma_hint_count_push(old(self)@.nodes, NodeType::<H>::Input);
            lemma_push_preserves_hint_order(old(self)@.nodes, NodeType::<H>::Input);
        }
        Node::make(id)
    }

    /// Initializes a node in the graph, set to a constant value.
    pub fn constant(&mut self, value: u32) -> (n: Node)
        requires
            old(self).wf(),
        ensures
            final(self).wf(),
            final(self)@.nodes == old(self)@.nodes.push(NodeType::<H>::Constant(value)),
            final(self)@.constraints == old(self)@.constraints,
            n.id() == old(self)@.nodes.len(),
    {
        let id: usize = self.next_id;
        self.nodes.push(NodeType::Constant(value));
        self.next_id = self.nodes.len();
        proof {
            lemma_push_preserves_wf(old(self)@, self@, NodeType::<H>::Constant(value));
            lemma_hint_count_push(old(self)@.nodes, NodeType::<H>::Constant(value));
            lemma_push_preserves_hint_order(old(self)@.nodes, NodeType::<H>::Constant(value));
        }
        Node::make(id)
    }

    /// Adds 2 nodes in the graph, returning a new node holding their sum
    /// modulo 2^32. The handles must come from this same builder.
    pub fn add(&mut self, a: Node, b: Node) -> (n: Node)
        requires
            old(self).wf(),
            a.id() < old(self)@.nodes.len(),
            b.id() < old(self)@.nodes.len(),
        ensures
            final(self).wf(),
            final(self)@.nodes == old(self)@.nodes.push(NodeType::<H>::Add(a.id(), b.id())),
            final(self)@.constraints == old(self)@.constraints,
            n.id() == old(self)@.nodes.len(),
    {
        let id: usize = self.next_id;
        self.nodes.push(NodeType::Add(a.id(), b.id()));
        self.next_id = self.nodes.len();
        proof {
            lemma_push_preserves_wf(old(self)@, self@, NodeType::<H>::Add(a.id(), b.id()));
            lemma_hint_count_push(old(self)@.nodes, NodeType::<H>::Add(a.id(), b.id()));
            lemma_push_preserves_hint_order(old(self)@.nodes, NodeType::<H>::Add(a.id(), b.id()));
        }
        Node::make(id)
    }

    /// Multiplies 2 nodes in the graph, returning a new node holding their
    /// product modulo 2^32. The handles must come from this same builder.
    pub fn mul(&mut self, a: Node, b: Node) -> (n: Node)
        requires
            old(self).wf(),
            a.id() < old(self)@.nodes.len(),
            b.id() < old(self)@.nodes.len(),
        ensures
            final(self).wf(),
            final(self)@.nodes == old(self)@.nodes.push(NodeType::<H>::Mul(a.id(), b.id())),
            final(self)@.constraints == old(self)@.constraints,
            n.id() == old(self)@.nodes.len(),
    {
        let id: usize = self.next_id;
        self.nodes.push(NodeType::Mul(a.id(), b.id()));
        self.next_id = self.nodes.len();
        proof {
            lemma_push_preserves_wf(old(self)@, self@, NodeType::<H>::Mul(a.id(), b.id()));
            lemma_hint_count_push(old(self)@.nodes, NodeType::<H>::Mul(a.id(), b.id()));
            lemma_push_preserves_hint_order(old(self)@.nodes, NodeType::<H>::Mul(a.id(), b.id()));
        }
        Node::make(id)
    }

    /// Asserts that 2 nodes are equal: records an equality constraint that
    /// [`Builder::check_constraints`] will verify. The handles must come
    /// from this same builder.
    pub fn assert_equal(&mut self, a: Node, b: Node)
        requires
            old(self).wf(),
            a.id() < old(self)@.nodes.len(),
            b.id() < old(self)@.nodes.len(),
        ensures
            final(self).wf(),
            final(self)@.nodes == old(self)@.nodes,
            final(self)@.constraints == old(self)@.constraints.push((a.id(), b.id())),
    {
        self.constraints.push(Constraint { left: a.id(), right: b.id() });
        proof {
            assert(self@.constraints =~= old(self)@.constraints.push((a.id(), b.id())));
        }
    }

    /// An API for hinting values that allows operations not expressible
    /// with `Add`/`Mul`/`Constant`, such as division or square roots.
    ///
    /// Allocates a fresh hint-function identifier and registers a `Hint`
    /// node whose dependency list holds the identifiers of `dependencies`,
    /// in order. At evaluation time `compute_func` receives exactly the
    /// resolved values of those dependencies. The handles must come from
    /// this same builder.
    pub fn hint(&mut self, dependencies: Vec<Node>, compute_func: H) -> (n: Node)
        requires
            old(self).wf(),
            forall|k: int|
                0 <= k < dependencies@.len() ==> (#[trigger] dependencies@[k]).id() < old(
                    self,
                )@.nodes.len(),
        ensures
            final(self).wf(),
            final(self)@.constraints == old(self)@.constraints,
            final(self)@.nodes.len() == old(self)@.nodes.len() + 1,
            forall|i: int|
                0 <= i < old(self)@.nodes.len() ==> final(self)@.nodes[i] == old(self)@.nodes[i],
            final(self)@.nodes.last() matches NodeType::Hint(deps, f) && deps@ == dependencies@
                .map_values(|d: Node| d.id()) && f.func == compute_func && f.id == hint_count(
                old(self)@.nodes,
            ),
            n.id() == old(self)@.nodes.len(),
    {
        let id: usize = self.next_id;
        let hint_id: usize = self.next_hint_id;
        let mut dep_ids: Vec<usize> = Vec::new();
        let mut k: usize = 0;
        while k < dependencies.len()
            invariant
                k <= dependencies.len(),
                dep_ids@ == dependencies@.take(k as int).map_values(|d: Node| d.id()),
            decreases dependencies.len() - k,
        {
            let d: Node = dependencies[k];
            dep_ids.push(d.id());
            proof {
                assert(dependencies@.take(k as int + 1).drop_last() =~= dependencies@.take(
                    k as int,
                ));
                assert(dep_ids@ =~= dependencies@.take(k as int + 1).map_values(
                    |d: Node| d.id(),
                ));
            }
            k = k + 1;
        }
        proof {
            assert(dependencies@.take(dependencies@.len() as int) =~= dependencies@);
        }
        let ghost dep_seq = dep_ids@;
        self.nodes.push(NodeType::Hint(dep_ids, HintFunction { id: hint_id, func: compute_func }));
        self.next_id = self.nodes.len();
        let grown: usize = self.nodes.len();
        proof {
            lemma_hint_count_le_len(old(self)@.nodes);
            assert(hint_id < grown);
            let pushed = self@.nodes.last();
            assert forall|t: int| 0 <= t < dep_seq.len() implies #[trigger] dep_seq[t] < id by {
                assert(dep_seq[t] == dependencies@[t].id());
            }
            assert(node_refs_earlier(pushed, old(self)@.nodes.len() as int));
            lemma_push_preserves_wf(old(self)@, self@, pushed);
            lemma_hint_count_push(old(self)@.nodes, pushed);
            lemma_push_preserves_hint_order(old(self)@.nodes, pushed);
        }
        self.next_hint_id = hint_id + 1;
        Node::make(id)
    }

    /// Fills in all the nodes of the graph based on the values of the
    /// input nodes.
    ///
    /// Every `Input` node's value must appear in `inputs`; otherwise the
    /// pass stops before computing anything and names the first input
    /// node whose value is missing. On success the returned assignment is
    /// exactly [`filled`]: it holds every supplied input entry and one
    /// value per node, computed in identifier order. Under the
    /// construction invariant no other failure can occur; the checks for
    /// unresolved operands and hint dependencies are defensive only.
    pub fn fill_nodes(&self, inputs: HashMap<usize, u32>) -> (result: Result<
        HashMap<usize, u32>,
        FillError,
    >)
        requires
            self.wf(),
        ensures
            result is Ok <==> inputs_covered(self@.nodes, inputs@),
            result matches Ok(values) ==> values@ == filled(self@.nodes, inputs@),
            result matches Ok(values) ==> forall|j: usize|
                j < self@.nodes.len() ==> #[trigger] values@.contains_key(j),
            result matches Err(e) ==> (e matches FillError::MissingInput { node }
                && is_first_missing_input(self@.nodes, inputs@, node)),
    {
        let ghost gnodes = self@.nodes;
        let ghost ginputs = inputs@;
        let n: usize = self.nodes.len();

        // Validate that all input nodes have values.
        let mut i: usize = 0;
        while i < n
            invariant
                i <= n,
                n == gnodes.len(),
                gnodes == self@.nodes,
                ginputs == inputs@,
                forall|j: usize|
                    #![trigger ginputs.contains_key(j)]
                    j < i && gnodes[j as int] is Input ==> ginputs.contains_key(j),
            decreases n - i,
        {
            match &self.nodes[i] {
                NodeType::Input => {
                    if !inputs.contains_key(&i) {
                        return Err(FillError::MissingInput { node: i });
                    }
                },
                _ => {},
            }
            i = i + 1;
        }
        assert(inputs_covered(gnodes, ginputs));

        // The supplied input values seed the working assignment.
        let mut values: HashMap<usize, u32> = inputs;

        // Process nodes in identifier order.
        let mut i: usize = 0;
        while i < n
            invariant
                i <= n,
                n == gnodes.len(),
                gnodes == self@.nodes,
                self.wf(),
                inputs_covered(gnodes, ginputs),
                values@ == filled_up_to(gnodes, ginputs, i as int),
            decreases n - i,
        {
            proof {
                self.lemma_wf();
                assert(node_refs_earlier(gnodes[i as int], i as int));
                lemma_filled_covers(gnodes, ginputs, i as int);
            }
            match &self.nodes[i] {
                NodeType::Input => {
                    // Already resolved by the seeded inputs.
                    proof {
                        assert(filled_up_to(gnodes, ginputs, i as int + 1) == filled_up_to(
                            gnodes,
                            ginputs,
                            i as int,
                        ));
                    }
                },
                NodeType::Constant(value) => {
                    let v: u32 = *value;
                    values.insert(i, v);
                    proof {
                        assert(values@ == filled_up_to(gnodes, ginputs, i as int + 1));
                    }
                },
                NodeType::Add(a, b) => {
                    let left: Option<u32> = match values.get(a) {
                        Some(v) => Some(*v),
                        None => None,
                    };
                    let right: Option<u32> = match values.get(b) {
                        Some(v) => Some(*v),
                        None => None,
                    };
                    match (left, right) {
                        (Some(x), Some(y)) => {
                            let sum: u32 = x.wrapping_add(y);
                            proof {
                                assert(sum == wrap_add(x, y));
                            }
                            values.insert(i, sum);
                            proof {
                                assert(values@ == filled_up_to(gnodes, ginputs, i as int + 1));
                            }
                        },
                        (None, _) => {
                            return Err(
                                FillError::UnresolvedOperand { node: i, operand: *a },
                            );
                        },
                        (_, None) => {
                            return Err(
                                FillError::UnresolvedOperand { node: i, operand: *b },
                            );
                        },
                    }
                },
                NodeType::Mul(a, b) => {
                    let left: Option<u32> = match values.get(a) {
                        Some(v) => Some(*v),
                        None => None,
                    };
                    let right: Option<u32> = match values.get(b) {
                        Some(v) => Some(*v),
                        None => None,
                    };
                    match (left, right) {
                        (Some(x), Some(y)) => {
                            let product: u32 = x.wrapping_mul(y);
                            proof {
                                assert(product == wrap_mul(x, y));
                            }
                            values.insert(i, product);
                            proof {
                                assert(values@ == filled_up_to(gnodes, ginputs, i as int + 1));
                            }
                        },
                        (None, _) => {
                            return Err(
                                FillError::UnresolvedOperand { node: i, operand: *a },
                            );
                        },
                        (_, None) => {
                            return Err(
                                FillError::UnresolvedOperand { node: i, operand: *b },
                            );
                        },
                    }
                },
                NodeType::Hint(deps, hf) => {
                    // Restrict the working assignment to the declared
                    // dependencies before invoking the hint function.
                    proof {
                        assert(gnodes[i as int] == NodeType::Hint(*deps, *hf));
                    }
                    let mut dep_values: HashMap<usize, u32> = HashMap::new();
                    let mut k: usize = 0;
                    while k < deps.len()
                        invariant
                            k <= deps.len(),
                            i < n,
                            n == gnodes.len(),
                            gnodes == self@.nodes,
                            inputs_covered(gnodes, ginputs),
                            gnodes[i as int] == NodeType::Hint(*deps, *hf),
                            values@ == filled_up_to(gnodes, ginputs, i as int),
                            forall|t: int| 0 <= t < deps@.len() ==> #[trigger] deps@[t] < i,
                            forall|j: usize| j < i ==> #[trigger] values@.contains_key(j),
                            dep_values@ == dep_valuation(values@, deps@.take(k as int)),
                        decreases deps@.len() - k,
                    {
                        let d: usize = deps[k];
                        let dv: u32 = match values.get(&d) {
                            Some(v) => *v,
                            None => {
                                return Err(
                                    FillError::MissingHintDependency { node: i, dependency: d },
                                );
                            },
                        };
                        dep_values.insert(d, dv);
                        proof {
                            assert(deps@.take(k as int + 1).drop_last() =~= deps@.take(k as int));
                            assert(deps@.take(k as int + 1).last() == deps@[k as int]);
                        }
                        k = k + 1;
                    }
                    proof {
                        assert(deps@.take(deps@.len() as int) =~= deps@);
                    }
                    let hv: u32 = hf.func.value(&dep_values);
                    values.insert(i, hv);
                    proof {
                        assert(values@ == filled_up_to(gnodes, ginputs, i as int + 1));
                    }
                },
            }
            i = i + 1;
        }
        proof {
            lemma_filled_covers(gnodes, ginputs, n as int);
        }
        Ok(values)
    }

    /// Checks that all the registered constraints hold in `values`: both
    /// sides must be present and equal. Fails closed — a constraint whose
    /// identifier has no value counts as not satisfied — and returns
    /// false as soon as one constraint fails. An empty constraint set is
    /// vacuously satisfied.
    pub fn check_constraints(&self, values: &HashMap<usize, u32>) -> (ok: bool)
        ensures
            ok == constraints_hold(self@.constraints, values@),
    {
        let n: usize = self.constraints.len();
        let mut i: usize = 0;
        while i < n
            invariant
                i <= n,
                n == self@.constraints.len(),
                forall|j: int|
                    0 <= j < i ==> constraint_ok(#[trigger] self@.constraints[j], values@),
            decreases n - i,
        {
            let left_id: usize = self.constraints[i].left;
            let right_id: usize = self.constraints[i].right;
            proof {
                assert(self@.constraints[i as int] == (left_id, right_id));
            }
            let left: Option<u32> = match values.get(&left_id) {
                Some(v) => Some(*v),
                None => None,
            };
            let right: Option<u32> = match values.get(&right_id) {
                Some(v) => Some(*v),
                None => None,
            };
            match (left, right) {
                (Some(l), Some(r)) => {
                    if l != r {
                        return false;
                    }
                },
                _ => {
                    // Missing values for constrained nodes.
                    return false;
                },
            }
            i = i + 1;
        }
        true
    }
}

} // verus!
