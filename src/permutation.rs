//! A toy permutation round on three field elements: an `x^5` S-box on each
//! element, then a fixed 3x3 mixing matrix. It is not a secure primitive.
use vstd::prelude::*;
use vstd::arithmetic::div_mod::lemma_add_mod_noop;
use vstd::arithmetic::power::pow;
use crate::field;
use crate::field::P;

verus! {

/// The S-box: `x^5 mod P`.
pub open spec fn sbox(x: u128) -> int {
    pow(x as int, 5) % (P as int)
}

/// The mixing matrix `[[2, 1, 1], [1, 2, 1], [1, 1, 2]]`.
pub open spec fn mds(i: int, j: int) -> int {
    if i == j {
        2
    } else {
        1
    }
}

/// One full round on the state `s`: S-box on each element, then the matrix.
pub open spec fn round_spec(s: Seq<u128>) -> Seq<u128> {
    Seq::new(
        3,
        |i: int|
            ((mds(i, 0) * sbox(s[0]) + mds(i, 1) * sbox(s[1]) + mds(i, 2) * sbox(s[2])) % (
            P as int)) as u128,
    )
}

/// `(c0 * t0 + c1 * t1 + c2 * t2) mod P`: one row of the mixing layer.
fn mix_row(c0: u128, c1: u128, c2: u128, t0: u128, t1: u128, t2: u128) -> (r: u128)
    ensures
        r == (c0 * t0 + c1 * t1 + c2 * t2) % (P as int),
{
    proof {
        lemma_add_mod_noop(c0 * t0, c1 * t1, P as int);
        lemma_add_mod_noop(c0 * t0 + c1 * t1, c2 * t2, P as int);
    }
    field::add(field::add(field::mul(c0, t0), field::mul(c1, t1)), field::mul(c2, t2))
}

/// Replaces `state` by one round of the toy permutation.
pub fn poseidon_round(state: &mut [u128; 3])
    ensures
        final(state)@ == round_spec(old(state)@),
{
    let t0 = field::exp(state[0], 5);
    let t1 = field::exp(state[1], 5);
    let t2 = field::exp(state[2], 5);
    let s0 = mix_row(2, 1, 1, t0, t1, t2);
    let s1 = mix_row(1, 2, 1, t0, t1, t2);
    let s2 = mix_row(1, 1, 2, t0, t1, t2);
    *state = [s0, s1, s2];
    proof {
        assert(final(state)@ =~= round_spec(old(state)@));
    }
}

/// The round is a function of its input alone: equal states give equal results.
pub proof fn lemma_round_deterministic(s1: [u128; 3], s2: [u128; 3])
    requires
        s1@ == s2@,
    ensures
        round_spec(s1@) == round_spec(s2@),
{
}

} // verus!
