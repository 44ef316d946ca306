//! Arithmetic modulo the fixed prime `P`.
use vstd::prelude::*;
use vstd::arithmetic::div_mod::{
    lemma_add_mod_noop,
    lemma_mod_add_multiples_vanish,
    lemma_small_mod,
    lemma_mul_mod_noop,
    lemma_mul_mod_noop_left,
    lemma_mul_mod_noop_right,
    lemma_sub_mod_noop,
};
use vstd::arithmetic::power::{
    pow,
    lemma_pow1,
    lemma_pow_adds,
    lemma_pow_mod_noop,
    lemma_pow_multiplies,
    lemma_square_is_pow2,
};

verus! {

/// The field modulus, `2^64 - 2^32 + 1`.
pub const P: u128 = 0xffff_ffff_0000_0001;

/// `(a + b) mod P`, for any two `u128` values.
pub fn add(a: u128, b: u128) -> (r: u128)
    ensures
        r < P,
        r == (a + b) % (P as int),
{
    let x = a % P;
    let y = b % P;
    proof {
        lemma_add_mod_noop(a as int, b as int, P as int);
    }
    (x + y) % P
}

/// `(a - b) mod P`, as the representative in `[0, P)`.
pub fn sub(a: u128, b: u128) -> (r: u128)
    ensures
        r < P,
        r == (a - b) % (P as int),
{
    let x = a % P;
    let y = b % P;
    proof {
        lemma_sub_mod_noop(a as int, b as int, P as int);
        lemma_mod_add_multiples_vanish(x - y, P as int);
    }
    (x + P - y) % P
}

/// `(a * b) mod P`; the product of the reduced operands fits in 128 bits.
pub fn mul(a: u128, b: u128) -> (r: u128)
    ensures
        r < P,
        r == (a * b) % (P as int),
{
    let x = a % P;
    let y = b % P;
    proof {
        lemma_mul_mod_noop(a as int, b as int, P as int);
        assert(x * y <= 0xffff_ffff_0000_0000u128 * 0xffff_ffff_0000_0000u128) by (nonlinear_arith)
            requires
                x <= 0xffff_ffff_0000_0000u128,
                y <= 0xffff_ffff_0000_0000u128,
        ;
    }
    (x * y) % P
}

/// One step of square-and-multiply keeps the accumulated power modulo `P`:
/// `r * x^e` and `r' * (x^2 mod P)^(e / 2)` agree modulo `P`, where `r'` is
/// `r * x mod P` for an odd `e` and `r` for an even one.
proof fn lemma_square_step(r: int, x: int, e: nat)
    ensures
        (r * pow(x, e)) % (P as int) == ((if e % 2 == 1 { (r * x) % (P as int) } else { r }) * pow(
            (x * x) % (P as int),
            e / 2,
        )) % (P as int),
{
    let m = P as int;
    let k = e / 2;
    let sq = pow(x * x, k);
    let sq_red = pow((x * x) % m, k);
    lemma_pow_mod_noop(x * x, k, m);
    lemma_square_is_pow2(x);
    lemma_pow_multiplies(x, 2, k);
    lemma_pow_adds(x, e % 2, 2 * k);
    assert(pow(x, e) == pow(x, e % 2) * sq);
    if e % 2 == 1 {
        lemma_pow1(x);
        assert(r * pow(x, e) == (r * x) * sq) by (nonlinear_arith)
            requires
                pow(x, e) == x * sq,
        ;
        lemma_mul_mod_noop_right(r * x, sq, m);
        lemma_mul_mod_noop_right(r * x, sq_red, m);
        lemma_mul_mod_noop_left(r * x, sq_red, m);
    } else {
        reveal_with_fuel(pow, 1);
        assert(pow(x, e) == sq);
        lemma_mul_mod_noop_right(r, sq, m);
        lemma_mul_mod_noop_right(r, sq_red, m);
    }
}

/// `base^e mod P` by repeated squaring; `exp(x, 0)` is `1` for every `x`.
pub fn exp(base: u128, e: u128) -> (r: u128)
    ensures
        r < P,
        r == pow(base as int, e as nat) % (P as int),
{
    let mut x: u128 = base;
    let mut n: u128 = e;
    let mut r: u128 = 1;
    while n > 0
        invariant
            r < P,
            (r * pow(x as int, n as nat)) % (P as int) == pow(base as int, e as nat) % (P as int),
        decreases n,
    {
        proof {
            lemma_square_step(r as int, x as int, n as nat);
        }
        if n % 2 == 1 {
            r = self::mul(r, x);
        }
        x = self::mul(x, x);
        n = n / 2;
    }
    proof {
        reveal_with_fuel(pow, 1);
        assert(r * pow(x as int, 0) == r);
        lemma_small_mod(r as nat, P as nat);
    }
    r
}

/// `n`-fold field multiplication of `a`, starting from `1`.
pub open spec fn repeated_mul(a: u128, n: nat) -> int
    decreases n,
{
    if n == 0 {
        1
    } else {
        (repeated_mul(a, (n - 1) as nat) * a) % (P as int)
    }
}

/// `sub(a, a)` is `0` and `exp(a, 0)` is `1` for every `a`; `add(a, 0)` and
/// `mul(a, 1)` give back `a` for every field element `a`.
pub proof fn lemma_field_identities(a: u128)
    ensures
        (a - a) % (P as int) == 0,
        pow(a as int, 0) % (P as int) == 1,
        a < P ==> (a + 0) % (P as int) == a,
        a < P ==> (a * 1) % (P as int) == a,
{
    reveal_with_fuel(pow, 1);
    if a < P {
        lemma_small_mod(a as nat, P as nat);
    }
}

/// `exp(a, n)` equals `n`-fold repeated multiplication of `a`.
pub proof fn lemma_exp_is_repeated_mul(a: u128, n: nat)
    ensures
        pow(a as int, n) % (P as int) == repeated_mul(a, n),
    decreases n,
{
    if n == 0 {
        reveal_with_fuel(pow, 1);
    } else {
        lemma_exp_is_repeated_mul(a, (n - 1) as nat);
        reveal_with_fuel(pow, 1);
        assert(pow(a as int, n) == a * pow(a as int, (n - 1) as nat));
        lemma_mul_mod_noop_right(a as int, pow(a as int, (n - 1) as nat), P as int);
        assert(repeated_mul(a, (n - 1) as nat) * a == a * repeated_mul(a, (n - 1) as nat))
            by (nonlinear_arith);
    }
}

} // verus!
