//! The three worked examples: a polynomial, a division hint, and a
//! square-root hint.

use std::collections::HashMap;

use graph_rs::Builder;
use graph_rs::QuotientHint;
use graph_rs::RootHint;

#[test]
fn test_example_1() {
    // Example 1: f(x) = x^2 + x + 5
    let mut builder: Builder<QuotientHint> = Builder::new();

    let x = builder.init(); // id: 0
    let x_squared = builder.mul(x.clone(), x.clone()); // id: 1
    let five = builder.constant(5); // id: 2
    let x_squared_plus_x = builder.add(x_squared, x); // id: 3
    let _result = builder.add(x_squared_plus_x, five); // id: 4

    // Test with x = 3
    let mut inputs: HashMap<usize, u32> = HashMap::new();
    inputs.insert(0, 3); // x = 3

    let values = builder.fill_nodes(inputs).unwrap();

    assert_eq!(values.get(&4), Some(&17)); // y = 3^2 + 3 + 5 = 9 + 3 + 5 = 17
    assert!(builder.check_constraints(&values));
}

#[test]
fn test_example_2() {
    // Example 2: f(a) = (a+1) / 8
    let mut builder: Builder<QuotientHint> = Builder::new();

    let a = builder.init(); // id: 0
    let one = builder.constant(1); // id: 1
    let b = builder.add(a.clone(), one); // id: 2
    let eight = builder.constant(8); // id: 3

    // Hint for division: c = b / 8
    let c = builder.hint(
        vec![b.clone()],
        QuotientHint { dependency: b.id(), divisor: 8 },
    ); // id: 4

    // Constraint: c * 8 = b
    let c_times_8 = builder.mul(c.clone(), eight); // id: 5
    builder.assert_equal(c_times_8, b);

    // Test with a = 15
    let mut inputs: HashMap<usize, u32> = HashMap::new();
    inputs.insert(0, 15); // a = 15

    let values = builder.fill_nodes(inputs).unwrap();

    assert_eq!(values.get(&4), Some(&2)); // c = (15+1)/8 = 16/8 = 2
    assert!(builder.check_constraints(&values));
}

#[test]
fn test_example_3() {
    // Example 3: f(x) = sqrt(x+7)
    let mut builder: Builder<RootHint> = Builder::new();

    let x = builder.init(); // id: 0
    let seven = builder.constant(7); // id: 1
    let x_plus_seven = builder.add(x, seven); // id: 2

    // Hint for square root
    let sqrt_x_plus_7 = builder.hint(
        vec![x_plus_seven.clone()],
        RootHint { dependency: x_plus_seven.id() },
    ); // id: 3

    // Constraint: sqrt_x_plus_7 * sqrt_x_plus_7 = x_plus_seven
    let computed_sq = builder.mul(sqrt_x_plus_7.clone(), sqrt_x_plus_7.clone()); // id: 4
    builder.assert_equal(computed_sq, x_plus_seven);

    // Test with x = 2 (so x+7 = 9, sqrt = 3)
    let mut inputs: HashMap<usize, u32> = HashMap::new();
    inputs.insert(0, 2);

    let values = builder.fill_nodes(inputs).unwrap();

    assert_eq!(values.get(&3), Some(&3)); // sqrt(2+7) = sqrt(9) = 3
    assert!(builder.check_constraints(&values));
}
