//! The ways an evaluation pass can fail.

use vstd::prelude::*;

verus! {

/// A failure reported by [`crate::graph::Builder::fill_nodes`].
///
/// Every variant names the node at which the pass stopped; no partial value
/// assignment is returned.
#[derive(Clone, Copy, Debug, PartialEq, Eq, Structural)]
pub enum FillError {
    /// An `Input` node has no entry in the caller-supplied input mapping.
    /// Detected eagerly, before any node value is computed.
    MissingInput { node: usize },
    /// An operand of an `Add` or `Mul` node had no resolved value when the
    /// node was visited. `operand` is the identifier of the missing side,
    /// the left side checked first. This can only arise when the
    /// construction discipline was violated, e.g. by mixing handles from
    /// two different builders.
    UnresolvedOperand { node: usize, operand: usize },
    /// A declared dependency of a `Hint` node had no resolved value when the
    /// node was visited; `dependency` is the first missing identifier. Same
    /// root cause class as `UnresolvedOperand`.
    MissingHintDependency { node: usize, dependency: usize },
}

/// The decimal digit `d` (at most 9) as a character.
pub open spec fn spec_decimal_digit(d: nat) -> char {
    if d == 0 {
        '0'
    } else if d == 1 {
        '1'
    } else if d == 2 {
        '2'
    } else if d == 3 {
        '3'
    } else if d == 4 {
        '4'
    } else if d == 5 {
        '5'
    } else if d == 6 {
        '6'
    } else if d == 7 {
        '7'
    } else if d == 8 {
        '8'
    } else {
        '9'
    }
}

/// The decimal rendering of `n`: most significant digit first, no
/// leading zeros, a single `'0'` for zero.
pub open spec fn spec_decimal(n: nat) -> Seq<char>
    decreases n,
{
    if n < 10 {
        seq![spec_decimal_digit(n)]
    } else {
        spec_decimal(n / 10).push(spec_decimal_digit(n % 10))
    }
}

/// The human-readable rendering of a failure, naming the offending node.
pub open spec fn spec_message(e: FillError) -> Seq<char> {
    match e {
        FillError::MissingInput { node } => "Missing value for input node "@ + spec_decimal(
            node as nat,
        ),
        FillError::UnresolvedOperand { node, operand } => "Unresolved operand "@ + spec_decimal(
            operand as nat,
        ) + " at node "@ + spec_decimal(node as nat),
        FillError::MissingHintDependency { node, dependency } => "Missing dependency value "@
            + spec_decimal(dependency as nat) + " for hint at node "@ + spec_decimal(node as nat),
    }
}

/// Relies on `format!` with std's `Display` for `usize`: the decimal
/// digits of `n`, most significant first, without leading zeros or sign,
/// and `"0"` for zero.
#[verifier::external_body]
fn decimal(n: usize) -> (r: String)
    ensures
        r@ == spec_decimal(n as nat),
{
    format!("{}", n)
}

/// Relies on `format!` with std's `Display` for `str`: the two pieces,
/// concatenated unchanged.
#[verifier::external_body]
fn concat(a: &str, b: &str) -> (r: String)
    ensures
        r@ == a@ + b@,
{
    format!("{}{}", a, b)
}

impl FillError {
    /// A human-readable message identifying the failure and the
    /// offending node.
    pub fn message(&self) -> (r: String)
        ensures
            r@ == spec_message(*self),
    {
        match self {
            FillError::MissingInput { node } => {
                let digits = decimal(*node);
                concat("Missing value for input node ", digits.as_str())
            },
            FillError::UnresolvedOperand { node, operand } => {
                let operand_digits = decimal(*operand);
                let head = concat("Unresolved operand ", operand_digits.as_str());
                let mid = concat(head.as_str(), " at node ");
                let node_digits = decimal(*node);
                concat(mid.as_str(), node_digits.as_str())
            },
            FillError::MissingHintDependency { node, dependency } => {
                let dependency_digits = decimal(*dependency);
                let head = concat("Missing dependency value ", dependency_digits.as_str());
                let mid = concat(head.as_str(), " for hint at node ");
                let node_digits = decimal(*node);
                concat(mid.as_str(), node_digits.as_str())
            },
        }
    }
}

} // verus!
