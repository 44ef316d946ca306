//! Linear combinations, witnesses, constraints, the constraint builder and the
//! verifier that checks a witness against every constraint.
use std::collections::HashMap;
use vstd::prelude::*;
use vstd::arithmetic::div_mod::{
    lemma_add_mod_noop,
    lemma_mod_add_multiples_vanish,
    lemma_mod_twice,
    lemma_mul_mod_noop,
    lemma_small_mod,
    lemma_sub_mod_noop,
};
use crate::field;
use crate::field::P;

verus! {

broadcast use vstd::std_specs::hash::group_hash_axioms;

/// The value a witness gives to variable `v`: its entry, or `0` where it has none.
pub open spec fn witness_value(w: Map<usize, u128>, v: usize) -> int {
    if w.contains_key(v) {
        w[v] as int
    } else {
        0
    }
}

/// The plain integer sum of `coefficient * value` over `terms`.
pub open spec fn terms_sum(terms: Seq<(usize, u128)>, w: Map<usize, u128>) -> int
    decreases terms.len(),
{
    if terms.len() == 0 {
        0
    } else {
        terms_sum(terms.drop_last(), w) + terms.last().1 * witness_value(w, terms.last().0)
    }
}

/// The model of a linear combination: its terms in order and its constant.
pub ghost struct LinCombView {
    pub terms: Seq<(usize, u128)>,
    pub constant: u128,
}

impl LinCombView {
    /// The field value of the combination under the assignment `w`.
    pub open spec fn value(self, w: Map<usize, u128>) -> int {
        (self.constant + terms_sum(self.terms, w)) % (P as int)
    }
}

/// The model of a constraint `(A·X) * (B·X) - (C·X) = 0 (mod P)`.
pub ghost struct ConstraintView {
    pub a: LinCombView,
    pub b: LinCombView,
    pub c: LinCombView,
}

impl ConstraintView {
    /// The constraint holds under `w`.
    pub open spec fn holds(self, w: Map<usize, u128>) -> bool {
        (self.a.value(w) * self.b.value(w) - self.c.value(w)) % (P as int) == 0
    }
}

/// The model of a builder: its constraints in order and the next free variable.
pub ghost struct BuilderView {
    pub constraints: Seq<ConstraintView>,
    pub next_var: nat,
}

impl BuilderView {
    /// Every constraint holds under `w`.
    pub open spec fn satisfied_by(self, w: Map<usize, u128>) -> bool {
        forall|i: int| 0 <= i < self.constraints.len() ==> #[trigger] self.constraints[i].holds(w)
    }
}

/// The combination `1 * v`.
pub open spec fn single_term(v: usize) -> LinCombView {
    LinCombView { terms: seq![(v, 1u128)], constant: 0 }
}

/// The constraint `x * y - z = 0`.
pub open spec fn mul_gate_constraint(x: usize, y: usize, z: usize) -> ConstraintView {
    ConstraintView { a: single_term(x), b: single_term(y), c: single_term(z) }
}

/// The constraint `(x + y) * 1 - z = 0`.
pub open spec fn add_gate_constraint(x: usize, y: usize, z: usize) -> ConstraintView {
    ConstraintView {
        a: LinCombView { terms: seq![(x, 1u128), (y, 1u128)], constant: 0 },
        b: LinCombView { terms: Seq::empty(), constant: 1 },
        c: single_term(z),
    }
}

/// A sparse weighted sum of variables plus a constant term.
#[derive(Clone, Debug)]
pub struct LinComb {
    pub terms: Vec<(usize, u128)>,
    pub const_term: u128,
}

impl View for LinComb {
    type V = LinCombView;

    open spec fn view(&self) -> LinCombView {
        LinCombView { terms: self.terms@, constant: self.const_term }
    }
}

impl Default for LinComb {
    fn default() -> (r: Self)
        ensures
            r@ == (LinCombView { terms: Seq::empty(), constant: 0 }),
    {
        LinComb::new()
    }
}

impl LinComb {
    /// The empty combination: no terms, constant `0`.
    pub fn new() -> (r: Self)
        ensures
            r@ == (LinCombView { terms: Seq::empty(), constant: 0 }),
    {
        LinComb { terms: Vec::new(), const_term: 0 }
    }

    /// Adds `k` to the constant term, modulo `P`.
    pub fn c(self, k: u128) -> (r: Self)
        ensures
            r@ == (LinCombView {
                terms: self@.terms,
                constant: ((self.const_term + k) % (P as int)) as u128,
            }),
    {
        let mut out = self;
        out.const_term = field::add(out.const_term, k);
        out
    }

    /// Appends the term `coeff * var`.
    pub fn t(self, var: usize, coeff: u128) -> (r: Self)
        ensures
            r@ == (LinCombView { terms: self@.terms.push((var, coeff)), constant: self.const_term }),
    {
        let mut out = self;
        out.terms.push((var, coeff));
        out
    }

    /// The value of the combination under `w`; variables `w` does not assign count as `0`.
    pub fn eval(&self, w: &Witness) -> (r: u128)
        ensures
            r == self@.value(w.values@),
    {
        let mut acc: u128 = self.const_term % P;
        let mut i: usize = 0;
        while i < self.terms.len()
            invariant
                i <= self.terms.len(),
                acc == (self.const_term + terms_sum(self.terms@.take(i as int), w.values@)) % (
                P as int),
            decreases self.terms.len() - i,
        {
            let (v, coeff) = self.terms[i];
            let xv = w.get(v);
            let ghost before = self.const_term + terms_sum(self.terms@.take(i as int), w.values@);
            proof {
                assert(self.terms@.take(i + 1).drop_last() == self.terms@.take(i as int));
                lemma_add_mod_noop(before, coeff * xv, P as int);
            }
            acc = field::add(acc, field::mul(coeff, xv));
            i = i + 1;
        }
        proof {
            assert(self.terms@.take(i as int) == self.terms@);
        }
        acc
    }
}

/// A sparse assignment of values to variable indices.
#[derive(Clone, Debug)]
pub struct Witness {
    pub values: HashMap<usize, u128>,
}

impl Default for Witness {
    fn default() -> (r: Self)
        ensures
            r.values@ == Map::<usize, u128>::empty(),
    {
        Witness { values: HashMap::new() }
    }
}

impl Witness {
    /// The value of variable `v`, or `0` where the witness assigns it none.
    pub fn get(&self, v: usize) -> (r: u128)
        ensures
            r == witness_value(self.values@, v),
    {
        match self.values.get(&v) {
            Some(x) => *x,
            None => 0,
        }
    }
}

/// The constraint `(A·X) * (B·X) - (C·X) = 0 (mod P)`.
#[derive(Clone, Debug)]
pub struct Constraint {
    pub a: LinComb,
    pub b: LinComb,
    pub c: LinComb,
}

impl View for Constraint {
    type V = ConstraintView;

    open spec fn view(&self) -> ConstraintView {
        ConstraintView { a: self.a@, b: self.b@, c: self.c@ }
    }
}

/// Collects constraints and hands out variable indices, from `0` upwards.
pub struct Builder {
    pub constraints: Vec<Constraint>,
    pub next_var: usize,
}

impl View for Builder {
    type V = BuilderView;

    open spec fn view(&self) -> BuilderView {
        BuilderView {
            constraints: self.constraints@.map_values(|c: Constraint| c@),
            next_var: self.next_var as nat,
        }
    }
}

impl Default for Builder {
    fn default() -> (r: Self)
        ensures
            r@ == (BuilderView { constraints: Seq::empty(), next_var: 0 }),
    {
        Builder::new()
    }
}

impl Builder {
    /// A builder with no constraints whose first variable will be `0`.
    pub fn new() -> (r: Self)
        ensures
            r@ == (BuilderView { constraints: Seq::empty(), next_var: 0 }),
    {
        let r = Builder { constraints: Vec::new(), next_var: 0 };
        proof {
            assert(r@.constraints =~= Seq::empty());
        }
        r
    }

    /// Hands out the next variable index. The value is not kept: only a
    /// witness carries values.
    pub fn allocate(&mut self, _val: u128) -> (r: usize)
        requires
            old(self).next_var < usize::MAX,
        ensures
            r == old(self).next_var,
            final(self)@ == (BuilderView {
                constraints: old(self)@.constraints,
                next_var: old(self)@.next_var + 1,
            }),
    {
        let id = self.next_var;
        self.next_var = self.next_var + 1;
        id
    }

    /// Appends the constraint `(a·X) * (b·X) - (c·X) = 0`.
    pub fn constrain(&mut self, a: LinComb, b: LinComb, c: LinComb)
        ensures
            final(self)@ == (BuilderView {
                constraints: old(self)@.constraints.push(ConstraintView { a: a@, b: b@, c: c@ }),
                next_var: old(self)@.next_var,
            }),
    {
        self.constraints.push(Constraint { a, b, c });
        proof {
            assert(final(self)@.constraints =~= old(self)@.constraints.push(
                ConstraintView { a: a@, b: b@, c: c@ },
            ));
        }
    }

    /// Appends the constraint `x * y = z`.
    pub fn mul_gate(&mut self, x: usize, y: usize, z: usize)
        ensures
            final(self)@ == (BuilderView {
                constraints: old(self)@.constraints.push(mul_gate_constraint(x, y, z)),
                next_var: old(self)@.next_var,
            }),
    {
        let a = LinComb::new().t(x, 1);
        let b = LinComb::new().t(y, 1);
        let c = LinComb::new().t(z, 1);
        proof {
            assert(a@.terms =~= seq![(x, 1u128)]);
            assert(b@.terms =~= seq![(y, 1u128)]);
            assert(c@.terms =~= seq![(z, 1u128)]);
        }
        self.constrain(a, b, c);
    }

    /// Appends the constraint `x + y = z`, written as `(x + y) * 1 = z`.
    pub fn add_gate(&mut self, x: usize, y: usize, z: usize)
        ensures
            final(self)@ == (BuilderView {
                constraints: old(self)@.constraints.push(add_gate_constraint(x, y, z)),
                next_var: old(self)@.next_var,
            }),
    {
        let a = LinComb::new().t(x, 1).t(y, 1);
        let b = LinComb::new().c(1);
        let c = LinComb::new().t(z, 1);
        proof {
            assert(a@.terms =~= seq![(x, 1u128), (y, 1u128)]);
            assert(c@.terms =~= seq![(z, 1u128)]);
        }
        self.constrain(a, b, c);
    }
}

/// Whether every constraint of `builder` holds under `wit`.
pub fn verify(builder: &Builder, wit: &Witness) -> (r: bool)
    ensures
        r == builder@.satisfied_by(wit.values@),
{
    let mut i: usize = 0;
    while i < builder.constraints.len()
        invariant
            i <= builder.constraints.len(),
            forall|j: int| 0 <= j < i ==> #[trigger] builder@.constraints[j].holds(wit.values@),
        decreases builder.constraints.len() - i,
    {
        let con = &builder.constraints[i];
        let a = con.a.eval(wit);
        let b = con.b.eval(wit);
        let c = con.c.eval(wit);
        let d = field::sub(field::mul(a, b), c);
        proof {
            lemma_sub_mod_noop(a * b, c as int, P as int);
            lemma_small_mod(c as nat, P as nat);
            assert(builder@.constraints[i as int] == con@);
        }
        if d != 0 {
            proof {
                assert(!builder@.constraints[i as int].holds(wit.values@));
            }
            return false;
        }
        i = i + 1;
    }
    true
}

/// A difference is `0` modulo `P` exactly when both sides agree modulo `P`.
proof fn lemma_diff_mod_zero(x: int, y: int)
    ensures
        ((x - y) % (P as int) == 0) == (x % (P as int) == y % (P as int)),
{
    let m = P as int;
    lemma_sub_mod_noop(x, y, m);
    let d = x % m - y % m;
    if d < 0 {
        lemma_mod_add_multiples_vanish(d, m);
        lemma_small_mod((m + d) as nat, m as nat);
    } else {
        lemma_small_mod(d as nat, m as nat);
    }
}

/// The combination `1 * v` has the value of `v`, reduced modulo `P`.
proof fn lemma_single_term_value(v: usize, w: Map<usize, u128>)
    ensures
        single_term(v).value(w) == witness_value(w, v) % (P as int),
{
    lemma_terms_sum_single(v, w);
}

/// The term sum of the single term `1 * v` is the value of `v`.
proof fn lemma_terms_sum_single(v: usize, w: Map<usize, u128>)
    ensures
        terms_sum(seq![(v, 1u128)], w) == witness_value(w, v),
{
    let terms = seq![(v, 1u128)];
    assert(terms.drop_last() =~= Seq::<(usize, u128)>::empty());
    reveal_with_fuel(terms_sum, 2);
}

/// The multiplication gate on `x, y, z` holds under `w` exactly when
/// `w(x) * w(y) = w(z) (mod P)`, unassigned variables counting as `0`.
pub proof fn lemma_mul_gate_correct(x: usize, y: usize, z: usize, w: Map<usize, u128>)
    ensures
        mul_gate_constraint(x, y, z).holds(w) == ((witness_value(w, x) * witness_value(w, y)) % (
        P as int) == witness_value(w, z) % (P as int)),
{
    let m = P as int;
    let (vx, vy, vz) = (witness_value(w, x), witness_value(w, y), witness_value(w, z));
    lemma_single_term_value(x, w);
    lemma_single_term_value(y, w);
    lemma_single_term_value(z, w);
    lemma_diff_mod_zero((vx % m) * (vy % m), vz % m);
    lemma_mul_mod_noop(vx, vy, m);
    lemma_mod_twice(vz, m);
}

/// The addition gate on `x, y, z` holds under `w` exactly when
/// `w(x) + w(y) = w(z) (mod P)`, unassigned variables counting as `0`.
pub proof fn lemma_add_gate_correct(x: usize, y: usize, z: usize, w: Map<usize, u128>)
    ensures
        add_gate_constraint(x, y, z).holds(w) == ((witness_value(w, x) + witness_value(w, y)) % (
        P as int) == witness_value(w, z) % (P as int)),
{
    let m = P as int;
    let (vx, vy, vz) = (witness_value(w, x), witness_value(w, y), witness_value(w, z));
    let terms = seq![(x, 1u128), (y, 1u128)];
    assert(terms.drop_last() =~= seq![(x, 1u128)]);
    lemma_terms_sum_single(x, w);
    assert(terms_sum(terms.drop_last(), w) == vx);
    assert(terms.len() == 2 && terms.last() == (y, 1u128));
    let coeff = terms.last().1;
    assert(coeff * vy == vy) by (nonlinear_arith)
        requires
            coeff == 1,
    ;
    assert(terms_sum(terms, w) == vx + vy);
    let one = LinCombView { terms: Seq::empty(), constant: 1 };
    assert(terms_sum(one.terms, w) == 0);
    assert(one.value(w) == 1);
    let g = add_gate_constraint(x, y, z);
    let (va, vb) = (g.a.value(w), g.b.value(w));
    assert(va == (vx + vy) % m);
    assert(va * vb == va) by (nonlinear_arith)
        requires
            vb == 1,
    ;
    lemma_single_term_value(z, w);
    lemma_diff_mod_zero((vx + vy) % m, vz % m);
    lemma_mod_twice(vx + vy, m);
    lemma_mod_twice(vz, m);
}

/// A builder with one more constraint is satisfied exactly when the old one
/// is and the new constraint holds: one failing constraint makes it fail.
pub proof fn lemma_satisfied_push(b: BuilderView, c: ConstraintView, w: Map<usize, u128>)
    ensures
        (BuilderView { constraints: b.constraints.push(c), next_var: b.next_var }).satisfied_by(w)
            == (b.satisfied_by(w) && c.holds(w)),
{
    let nb = BuilderView { constraints: b.constraints.push(c), next_var: b.next_var };
    assert(nb.constraints[b.constraints.len() as int] == c);
    if b.satisfied_by(w) && c.holds(w) {
        assert forall|i: int| 0 <= i < nb.constraints.len() implies #[trigger] nb.constraints[i].holds(
            w,
        ) by {
            if i < b.constraints.len() {
                assert(nb.constraints[i] == b.constraints[i]);
            }
        }
    }
    if nb.satisfied_by(w) {
        assert forall|i: int| 0 <= i < b.constraints.len() implies #[trigger] b.constraints[i].holds(
            w,
        ) by {
            assert(nb.constraints[i] == b.constraints[i]);
        }
    }
}

/// Giving an unassigned variable the value `0` changes no term sum.
proof fn lemma_terms_sum_zero_default(terms: Seq<(usize, u128)>, w: Map<usize, u128>, v: usize)
    requires
        !w.contains_key(v),
    ensures
        terms_sum(terms, w) == terms_sum(terms, w.insert(v, 0)),
    decreases terms.len(),
{
    if terms.len() > 0 {
        lemma_terms_sum_zero_default(terms.drop_last(), w, v);
        let u = terms.last().0;
        assert(witness_value(w, u) == witness_value(w.insert(v, 0), u));
    }
}

/// A variable that the witness leaves out evaluates as if it were assigned `0`.
pub proof fn lemma_missing_variable_default(lc: LinCombView, w: Map<usize, u128>, v: usize)
    requires
        !w.contains_key(v),
    ensures
        lc.value(w) == lc.value(w.insert(v, 0)),
{
    lemma_terms_sum_zero_default(lc.terms, w, v);
}

} // verus!
