//! The mathematical meaning of a graph: what one evaluation pass computes
//! and when a constraint set holds.

use vstd::prelude::*;

use crate::hints::HintFn;
use crate::node::NodeType;

verus! {

/// The sum of two node values, modulo 2^32.
pub open spec fn wrap_add(a: u32, b: u32) -> u32 {
    (((a + b) % 0x1_0000_0000) as u32)
}

/// The product of two node values, modulo 2^32.
pub open spec fn wrap_mul(a: u32, b: u32) -> u32 {
    (((a * b) % 0x1_0000_0000) as u32)
}

/// The sub-mapping a hint function receives: every declared dependency,
/// mapped to its value in `m`.
pub open spec fn dep_valuation(m: Map<usize, u32>, deps: Seq<usize>) -> Map<usize, u32>
    decreases deps.len(),
{
    if deps.len() == 0 {
        Map::empty()
    } else {
        dep_valuation(m, deps.drop_last()).insert(deps.last(), m[deps.last()])
    }
}

/// The value assignment after the first `n` nodes have been visited,
/// starting from the caller-supplied `inputs`: nodes are visited in
/// identifier order; an `Input` node is already seeded, every other kind
/// records its value at its own identifier.
pub open spec fn filled_up_to<H: HintFn>(
    nodes: Seq<NodeType<H>>,
    inputs: Map<usize, u32>,
    n: int,
) -> Map<usize, u32>
    decreases n,
{
    if n <= 0 {
        inputs
    } else {
        let m = filled_up_to(nodes, inputs, n - 1);
        let id = (n - 1) as usize;
        match nodes[n - 1] {
            NodeType::Input => m,
            NodeType::Constant(value) => m.insert(id, value),
            NodeType::Add(a, b) => m.insert(id, wrap_add(m[a], m[b])),
            NodeType::Mul(a, b) => m.insert(id, wrap_mul(m[a], m[b])),
            NodeType::Hint(deps, f) => m.insert(id, f.func.spec_value(dep_valuation(m, deps@))),
        }
    }
}

/// The complete value assignment of a graph under `inputs`.
pub open spec fn filled<H: HintFn>(nodes: Seq<NodeType<H>>, inputs: Map<usize, u32>) -> Map<
    usize,
    u32,
> {
    filled_up_to(nodes, inputs, nodes.len() as int)
}

/// Every `Input` node's identifier has a supplied value.
pub open spec fn inputs_covered<H>(nodes: Seq<NodeType<H>>, inputs: Map<usize, u32>) -> bool {
    forall|i: usize|
        #![trigger inputs.contains_key(i)]
        i < nodes.len() && nodes[i as int] is Input ==> inputs.contains_key(i)
}

/// `id` is the first `Input` node whose value is missing from `inputs`:
/// the node that an evaluation pass reports.
pub open spec fn is_first_missing_input<H>(
    nodes: Seq<NodeType<H>>,
    inputs: Map<usize, u32>,
    id: usize,
) -> bool {
    &&& id < nodes.len()
    &&& nodes[id as int] is Input
    &&& !inputs.contains_key(id)
    &&& forall|j: usize|
        #![trigger inputs.contains_key(j)]
        j < id && nodes[j as int] is Input ==> inputs.contains_key(j)
}

/// One equality constraint holds in a value assignment: both identifiers
/// are present and their values are equal. A missing identifier fails the
/// constraint (fail-closed).
pub open spec fn constraint_ok(c: (usize, usize), values: Map<usize, u32>) -> bool {
    &&& values.contains_key(c.0)
    &&& values.contains_key(c.1)
    &&& values[c.0] == values[c.1]
}

/// Every constraint of the set holds; vacuously true of an empty set.
pub open spec fn constraints_hold(
    constraints: Seq<(usize, usize)>,
    values: Map<usize, u32>,
) -> bool {
    forall|i: int|
        0 <= i < constraints.len() ==> constraint_ok(#[trigger] constraints[i], values)
}

/// Law: evaluation never loses a value and never skips a node. The
/// assignment after `n` visited nodes still holds every supplied input,
/// and holds a value for each of the first `n` node identifiers as long as
/// every `Input` node's value was supplied.
pub proof fn lemma_filled_covers<H: HintFn>(
    nodes: Seq<NodeType<H>>,
    inputs: Map<usize, u32>,
    n: int,
)
    requires
        0 <= n <= nodes.len(),
        inputs_covered(nodes, inputs),
    ensures
        forall|k: usize|
            inputs.contains_key(k) ==> #[trigger] filled_up_to(nodes, inputs, n).contains_key(k),
        forall|j: usize| j < n ==> #[trigger] filled_up_to(nodes, inputs, n).contains_key(j),
    decreases n,
{
    if n > 0 {
        lemma_filled_covers(nodes, inputs, n - 1);
        let m = filled_up_to(nodes, inputs, n - 1);
        let id = (n - 1) as usize;
        assert(match nodes[n - 1] {
            NodeType::Input => filled_up_to(nodes, inputs, n) == m,
            NodeType::Constant(value) => filled_up_to(nodes, inputs, n) == m.insert(id, value),
            NodeType::Add(a, b) => filled_up_to(nodes, inputs, n) == m.insert(
                id,
                wrap_add(m[a], m[b]),
            ),
            NodeType::Mul(a, b) => filled_up_to(nodes, inputs, n) == m.insert(
                id,
                wrap_mul(m[a], m[b]),
            ),
            NodeType::Hint(deps, f) => filled_up_to(nodes, inputs, n) == m.insert(
                id,
                f.func.spec_value(dep_valuation(m, deps@)),
            ),
        });
        assert forall|k: usize| inputs.contains_key(k) implies #[trigger] filled_up_to(
            nodes,
            inputs,
            n,
        ).contains_key(k) by {
            assert(m.contains_key(k));
        }
        assert forall|j: usize| j < n implies #[trigger] filled_up_to(
            nodes,
            inputs,
            n,
        ).contains_key(j) by {
            if j < n - 1 {
                assert(m.contains_key(j));
            } else {
                if nodes[n - 1] is Input {
                    assert(inputs.contains_key(id));
                    assert(m.contains_key(id));
                }
            }
        }
    }
}

/// Law: evaluation is deterministic. For one graph and one input mapping
/// there is exactly one complete value assignment that an evaluation pass
/// can return.
pub proof fn lemma_fill_deterministic<H: HintFn>(
    nodes: Seq<NodeType<H>>,
    inputs: Map<usize, u32>,
    first: Map<usize, u32>,
    second: Map<usize, u32>,
)
    requires
        first == filled(nodes, inputs),
        second == filled(nodes, inputs),
    ensures
        first == second,
{
}

} // verus!
