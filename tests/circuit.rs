use delta_zk::{verify, Builder, LinComb, Witness};

#[test]
fn add_and_mul_gate() {
    let mut b = Builder::new();
    let x = b.allocate(3);
    let y = b.allocate(5);
    let z = b.allocate(15);
    b.mul_gate(x, y, z);

    let mut w = Witness::default();
    w.values.insert(x, 3);
    w.values.insert(y, 5);
    w.values.insert(z, 15);
    assert!(verify(&b, &w));
}

#[test]
fn mul_gate_rejects_wrong_product() {
    let mut b = Builder::new();
    let x = b.allocate(3);
    let y = b.allocate(5);
    let z = b.allocate(15);
    b.mul_gate(x, y, z);

    let mut w = Witness::default();
    w.values.insert(x, 3);
    w.values.insert(y, 5);
    w.values.insert(z, 15);
    assert!(verify(&b, &w));
    w.values.insert(z, 16);
    assert!(!verify(&b, &w));
}

#[test]
fn add_gate_scenario() {
    let mut b = Builder::new();
    let x = b.allocate(3);
    let y = b.allocate(5);
    let z = b.allocate(8);
    b.add_gate(x, y, z);

    let mut w = Witness::default();
    w.values.insert(x, 3);
    w.values.insert(y, 5);
    w.values.insert(z, 8);
    assert!(verify(&b, &w));

    let mut missing = Witness::default();
    missing.values.insert(x, 3);
    missing.values.insert(z, 8);
    assert!(!verify(&b, &missing));
}

#[test]
fn gates_work_modulo_p() {
    let p = delta_zk::field::P;
    let mut b = Builder::new();
    b.mul_gate(0, 1, 2);
    b.add_gate(0, 1, 3);
    let mut w = Witness::default();
    w.values.insert(0, p - 1);
    w.values.insert(1, p - 1);
    w.values.insert(2, 1);
    w.values.insert(3, p - 2);
    assert!(verify(&b, &w));
    w.values.insert(2, p + 1);
    assert!(verify(&b, &w));
    w.values.insert(3, p - 3);
    assert!(!verify(&b, &w));
}

#[test]
fn allocate_counts_up_from_zero() {
    let mut b = Builder::new();
    assert_eq!(b.allocate(10), 0);
    assert_eq!(b.allocate(20), 1);
    assert_eq!(b.allocate(30), 2);
    assert_eq!(b.next_var, 3);
    assert!(b.constraints.is_empty());
}

#[test]
fn empty_builder_accepts_any_witness() {
    let b = Builder::new();
    let mut w = Witness::default();
    assert!(verify(&b, &w));
    w.values.insert(7, 42);
    assert!(verify(&b, &w));
}

#[test]
fn one_false_constraint_fails_the_whole_builder() {
    let mut b = Builder::new();
    b.mul_gate(0, 1, 2);
    b.add_gate(0, 1, 3);
    let mut w = Witness::default();
    w.values.insert(0, 4);
    w.values.insert(1, 6);
    w.values.insert(2, 24);
    w.values.insert(3, 10);
    assert!(verify(&b, &w));
    assert_eq!(b.constraints.len(), 2);

    b.constrain(LinComb::new().t(0, 1), LinComb::new().c(1), LinComb::new().c(5));
    assert!(!verify(&b, &w));
}

#[test]
fn constrain_appends_in_order() {
    let mut b = Builder::new();
    b.constrain(LinComb::new().c(1), LinComb::new().c(2), LinComb::new().c(2));
    b.mul_gate(4, 5, 6);
    assert_eq!(b.constraints.len(), 2);
    assert_eq!(b.constraints[0].a.const_term, 1);
    assert_eq!(b.constraints[1].a.terms, vec![(4, 1)]);
    assert_eq!(b.constraints[1].b.terms, vec![(5, 1)]);
    assert_eq!(b.constraints[1].c.terms, vec![(6, 1)]);
    assert_eq!(b.next_var, 0);
}

#[test]
fn add_gate_shape() {
    let mut b = Builder::new();
    b.add_gate(1, 2, 3);
    let con = &b.constraints[0];
    assert_eq!(con.a.terms, vec![(1, 1), (2, 1)]);
    assert_eq!(con.a.const_term, 0);
    assert!(con.b.terms.is_empty());
    assert_eq!(con.b.const_term, 1);
    assert_eq!(con.c.terms, vec![(3, 1)]);
}

#[test]
fn missing_variable_counts_as_zero() {
    let lc = LinComb::new().t(0, 2).t(1, 3).c(4);
    let mut absent = Witness::default();
    absent.values.insert(0, 5);
    let mut zero = Witness::default();
    zero.values.insert(0, 5);
    zero.values.insert(1, 0);
    assert_eq!(lc.eval(&absent), 14);
    assert_eq!(lc.eval(&absent), lc.eval(&zero));
    assert_eq!(absent.get(1), 0);
    assert_eq!(absent.get(0), 5);
}

#[test]
fn repeated_variables_accumulate() {
    let lc = LinComb::new().t(0, 2).t(0, 3);
    let mut w = Witness::default();
    w.values.insert(0, 5);
    assert_eq!(lc.eval(&w), 25);
}

#[test]
fn constant_accumulates_modulo_p() {
    let p = delta_zk::field::P;
    let lc = LinComb::new().c(p - 1).c(2);
    assert_eq!(lc.const_term, 1);
    assert_eq!(lc.eval(&Witness::default()), 1);
    assert_eq!(LinComb::new().c(7).c(8).const_term, 15);
}

#[test]
fn eval_reduces_everything() {
    let p = delta_zk::field::P;
    let lc = LinComb { terms: vec![], const_term: p + 5 };
    assert_eq!(lc.eval(&Witness::default()), 5);
    let lc = LinComb::new().t(0, p - 1);
    let mut w = Witness::default();
    w.values.insert(0, 2);
    assert_eq!(lc.eval(&w), p - 2);
}
