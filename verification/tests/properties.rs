//! Behaviour promised by the contracts: wrapping arithmetic, eager
//! missing-input detection, determinism, fail-closed constraint checking,
//! and the library-provided hint functions.

use std::collections::HashMap;

use graph_rs::Builder;
use graph_rs::FillError;
use graph_rs::HintFn;
use graph_rs::QuotientHint;
use graph_rs::RatioHint;
use graph_rs::RootHint;

#[test]
fn wrapping_add_wraps_modulo_two_pow_32() {
    let mut builder: Builder<QuotientHint> = Builder::new();
    let big = builder.constant(4294967295); // id: 0
    let two = builder.constant(2); // id: 1
    let _sum = builder.add(big, two); // id: 2

    let values = builder.fill_nodes(HashMap::new()).unwrap();
    assert_eq!(values.get(&2), Some(&1)); // (2^32 - 1) + 2 = 1 (mod 2^32)
}

#[test]
fn wrapping_mul_wraps_modulo_two_pow_32() {
    let mut builder: Builder<QuotientHint> = Builder::new();
    let half = builder.constant(2147483648); // id: 0
    let two = builder.constant(2); // id: 1
    let _product = builder.mul(half, two); // id: 2
    let three_billion = builder.constant(3000000000); // id: 3
    let three = builder.constant(3); // id: 4
    let _wrapped = builder.mul(three_billion, three); // id: 5

    let values = builder.fill_nodes(HashMap::new()).unwrap();
    assert_eq!(values.get(&2), Some(&0)); // 2^31 * 2 = 0 (mod 2^32)
    assert_eq!(values.get(&5), Some(&410065408)); // 9 * 10^9 mod 2^32
}

#[test]
fn missing_input_is_detected_eagerly() {
    // Same graph as example 1, but the input mapping omits x.
    let mut builder: Builder<QuotientHint> = Builder::new();
    let x = builder.init(); // id: 0
    let x_squared = builder.mul(x.clone(), x.clone()); // id: 1
    let five = builder.constant(5); // id: 2
    let x_squared_plus_x = builder.add(x_squared, x); // id: 3
    let _result = builder.add(x_squared_plus_x, five); // id: 4

    let result = builder.fill_nodes(HashMap::new());
    assert_eq!(result, Err(FillError::MissingInput { node: 0 }));
}

#[test]
fn first_missing_input_is_reported() {
    let mut builder: Builder<QuotientHint> = Builder::new();
    let _a = builder.init(); // id: 0
    let _b = builder.init(); // id: 1
    let _c = builder.init(); // id: 2

    // Only the first input has a value: the second is reported.
    let mut inputs: HashMap<usize, u32> = HashMap::new();
    inputs.insert(0, 10);
    let result = builder.fill_nodes(inputs);
    assert_eq!(result, Err(FillError::MissingInput { node: 1 }));
}

#[test]
fn missing_input_message_names_the_node() {
    let mut builder: Builder<QuotientHint> = Builder::new();
    let _x = builder.init(); // id: 0

    let error = builder.fill_nodes(HashMap::new()).unwrap_err();
    assert_eq!(error.message(), "Missing value for input node 0");
}

#[test]
fn message_renders_multi_digit_identifiers() {
    // Twelve supplied inputs and one missing: node 12 is reported.
    let mut builder: Builder<QuotientHint> = Builder::new();
    let mut inputs: HashMap<usize, u32> = HashMap::new();
    for k in 0..13usize {
        let _n = builder.init();
        if k < 12 {
            inputs.insert(k, 1);
        }
    }

    let error = builder.fill_nodes(inputs).unwrap_err();
    assert_eq!(error.message(), "Missing value for input node 12");

    let other = FillError::UnresolvedOperand { node: 205, operand: 37 };
    assert_eq!(other.message(), "Unresolved operand 37 at node 205");

    let third = FillError::MissingHintDependency { node: 40, dependency: 103 };
    assert_eq!(
        third.message(),
        "Missing dependency value 103 for hint at node 40"
    );
}

#[test]
fn evaluation_is_deterministic() {
    let mut builder: Builder<RootHint> = Builder::new();
    let x = builder.init(); // id: 0
    let seven = builder.constant(7); // id: 1
    let s = builder.add(x, seven); // id: 2
    let root = builder.hint(vec![s.clone()], RootHint { dependency: s.id() }); // id: 3
    let squared = builder.mul(root.clone(), root); // id: 4
    builder.assert_equal(squared, s);

    let mut first_inputs: HashMap<usize, u32> = HashMap::new();
    first_inputs.insert(0, 42);
    let mut second_inputs: HashMap<usize, u32> = HashMap::new();
    second_inputs.insert(0, 42);

    let first = builder.fill_nodes(first_inputs).unwrap();
    let second = builder.fill_nodes(second_inputs).unwrap();
    assert_eq!(first, second);
}

#[test]
fn empty_constraint_set_is_satisfied() {
    let mut builder: Builder<QuotientHint> = Builder::new();
    let empty_values: HashMap<usize, u32> = HashMap::new();
    assert!(builder.check_constraints(&empty_values));

    let one = builder.constant(1); // id: 0
    let two = builder.constant(2); // id: 1
    let _sum = builder.add(one, two); // id: 2
    let values = builder.fill_nodes(HashMap::new()).unwrap();
    assert!(builder.check_constraints(&values));
}

#[test]
fn unequal_constraint_fails() {
    let mut builder: Builder<QuotientHint> = Builder::new();
    let one = builder.constant(1); // id: 0
    let two = builder.constant(2); // id: 1
    builder.assert_equal(one, two);

    let values = builder.fill_nodes(HashMap::new()).unwrap();
    assert!(!builder.check_constraints(&values));
}

#[test]
fn constraint_on_missing_value_fails() {
    let mut builder: Builder<QuotientHint> = Builder::new();
    let x = builder.init(); // id: 0
    builder.assert_equal(x.clone(), x);

    // The value mapping lacks an entry for the constrained node.
    let empty_values: HashMap<usize, u32> = HashMap::new();
    assert!(!builder.check_constraints(&empty_values));
}

#[test]
fn quotient_hint_is_total() {
    let mut deps: HashMap<usize, u32> = HashMap::new();
    deps.insert(2, 16);

    let divide = QuotientHint { dependency: 2, divisor: 8 };
    assert_eq!(divide.value(&deps), 2);

    // A zero divisor yields 0 instead of failing.
    let by_zero = QuotientHint { dependency: 2, divisor: 0 };
    assert_eq!(by_zero.value(&deps), 0);

    // A dependency absent from the sub-mapping counts as 0.
    let missing = QuotientHint { dependency: 99, divisor: 8 };
    assert_eq!(missing.value(&deps), 0);
}

#[test]
fn ratio_hint_divides_two_node_values() {
    // f(x, y) = (x * y) + (x / y), the division through a hint.
    let mut builder: Builder<RatioHint> = Builder::new();
    let x = builder.init(); // id: 0
    let y = builder.init(); // id: 1
    let x_times_y = builder.mul(x.clone(), y.clone()); // id: 2
    let x_div_y = builder.hint(
        vec![x.clone(), y.clone()],
        RatioHint { numerator: x.id(), denominator: y.id() },
    ); // id: 3
    let div_times_y = builder.mul(x_div_y.clone(), y.clone()); // id: 4
    builder.assert_equal(div_times_y, x.clone());
    let _result = builder.add(x_times_y, x_div_y); // id: 5

    let mut inputs: HashMap<usize, u32> = HashMap::new();
    inputs.insert(0, 10); // x = 10
    inputs.insert(1, 2); // y = 2

    let values = builder.fill_nodes(inputs).unwrap();
    assert_eq!(values.get(&3), Some(&5)); // 10 / 2
    assert_eq!(values.get(&5), Some(&25)); // 10 * 2 + 10 / 2
    assert!(builder.check_constraints(&values));
}

#[test]
fn ratio_hint_is_total() {
    let mut deps: HashMap<usize, u32> = HashMap::new();
    deps.insert(0, 9);
    deps.insert(1, 0);

    // A zero denominator yields 0 instead of failing.
    let by_zero = RatioHint { numerator: 0, denominator: 1 };
    assert_eq!(by_zero.value(&deps), 0);

    // A missing denominator counts as 1.
    let missing_den = RatioHint { numerator: 0, denominator: 7 };
    assert_eq!(missing_den.value(&deps), 9);
}

#[test]
fn root_hint_computes_floor_square_roots() {
    let cases: Vec<(u32, u32)> = vec![
        (0, 0),
        (1, 1),
        (2, 1),
        (3, 1),
        (4, 2),
        (8, 2),
        (9, 3),
        (15, 3),
        (16, 4),
        (24, 4),
        (25, 5),
        (4294836225, 65535),
        (4294967295, 65535),
    ];
    for (value, expected) in cases {
        let mut deps: HashMap<usize, u32> = HashMap::new();
        deps.insert(0, value);
        let root = RootHint { dependency: 0 };
        assert_eq!(root.value(&deps), expected);
    }
}
