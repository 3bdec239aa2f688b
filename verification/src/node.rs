//! Nodes of the computation graph and the handles callers hold on them.

use vstd::prelude::*;

verus! {

/// A handle on a node in the computational graph.
///
/// A node's identifier is its creation-order index in the owning
/// [`crate::graph::Builder`], starting at 0. The builder owns the node
/// payloads; callers only receive these lightweight copies of the
/// identifier, which they pass back to reference the node in later
/// operations. A handle grants no mutation rights.
#[derive(Clone, Copy, Debug, PartialEq, Eq, Structural)]
pub struct Node {
    id: usize,
}

impl Node {
    /// The identifier of the node this handle refers to.
    pub closed spec fn spec_id(&self) -> usize {
        self.id
    }

    /// Returns the identifier of the node this handle refers to.
    #[verifier::when_used_as_spec(spec_id)]
    pub fn id(&self) -> (id: usize)
        ensures
            id == self.spec_id(),
    {
        self.id
    }

    /// Only the builder mints handles.
    pub(crate) fn make(id: usize) -> (n: Node)
        ensures
            n.spec_id() == id,
    {
        Node { id }
    }
}

/// A hint function together with a small identifier, unique within one
/// builder, kept for diagnostics and equality comparisons.
#[derive(Debug)]
pub struct HintFunction<H> {
    /// The hint-function identifier, allocated by the builder in creation
    /// order, independently of node identifiers.
    pub id: usize,
    /// The function itself; see [`crate::hints::HintFn`].
    pub func: H,
}

/// The payload of a node: how its value is produced.
///
/// `H` is the type of the hint functions attached to `Hint` nodes; see
/// [`crate::hints::HintFn`].
#[derive(Debug)]
pub enum NodeType<H> {
    /// The value must be supplied externally at evaluation time.
    Input,
    /// A fixed 32-bit value, set at creation.
    Constant(u32),
    /// The sum, modulo 2^32, of two earlier nodes' values.
    Add(usize, usize),
    /// The product, modulo 2^32, of two earlier nodes' values.
    Mul(usize, usize),
    /// A value computed by the attached function from the values of the
    /// listed earlier nodes.
    Hint(Vec<usize>, HintFunction<H>),
}

} // verus!
