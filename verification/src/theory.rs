//! The modular-arithmetic facts behind the protocol's contracts: the
//! response stays congruent to `k - c*x`, and an honest prover's response
//! always passes verification.

use vstd::prelude::*;
use vstd::arithmetic::power::pow;
use vstd::arithmetic::power::lemma_pow_adds;
use vstd::arithmetic::power::lemma_pow_multiplies;
use vstd::arithmetic::power::lemma_pow_mod_noop;
use vstd::arithmetic::power::lemma1_pow;
use vstd::arithmetic::div_mod::lemma_fundamental_div_mod;
use vstd::arithmetic::div_mod::lemma_mod_multiples_vanish;
use vstd::arithmetic::div_mod::lemma_add_mod_noop_right;
use vstd::arithmetic::div_mod::lemma_mod_bound;
use vstd::arithmetic::div_mod::lemma_small_mod;
use vstd::arithmetic::div_mod::lemma_mod_twice;
use vstd::arithmetic::div_mod::lemma_mul_mod_noop_general;
use vstd::arithmetic::mul::lemma_mul_is_distributive_add;
use crate::pow_mod;
use crate::response_value;
use crate::verify_eqs;

verus! {

/// The response lies in `[0, q)` whatever the relative magnitudes of `k`,
/// `c*x` and `q`, and adding `c*x` back recovers `k`'s residue: the
/// response is congruent to `k - c*x` modulo `q`.
pub proof fn lemma_response_congruence(k: nat, c: nat, x: nat, q: nat)
    requires
        q > 0,
    ensures
        response_value(k, c, x, q) < q,
        (response_value(k, c, x, q) + c * x) % q == k % q,
{
    let qi = q as int;
    let cx = (c * x) as int;
    let t = cx % qi;
    lemma_mod_bound(cx, qi);
    let d = k + q - t;
    lemma_mod_bound(d, qi);
    assert(response_value(k, c, x, q) == d % qi);
    lemma_add_mod_noop_right(cx, d, qi);
    assert((cx + d % qi) % qi == (cx + d) % qi);
    lemma_fundamental_div_mod(cx, qi);
    assert(cx + d == k + qi * (1 + cx / qi)) by {
        lemma_mul_is_distributive_add(qi, 1, cx / qi);
    }
    lemma_mod_multiples_vanish(1 + cx / qi, k as int, qi);
    assert((cx + d) % qi == k as int % qi);
}

/// Once `a^q` is 1 modulo `p`, the exponent of `a` only matters modulo `q`.
proof fn lemma_pow_mod_exp_reduce(a: nat, e: nat, q: nat, p: nat)
    requires
        p > 1,
        q > 0,
        pow(a as int, q) % (p as int) == 1,
    ensures
        pow(a as int, e) % (p as int) == pow(a as int, e % q) % (p as int),
{
    let ai = a as int;
    let pi = p as int;
    let quo = e / q;
    let rem = e % q;
    lemma_fundamental_div_mod(e as int, q as int);
    assert(e == q * quo + rem);
    lemma_pow_adds(ai, (q * quo) as nat, rem);
    assert(pow(ai, e) == pow(ai, (q * quo) as nat) * pow(ai, rem));
    lemma_pow_multiplies(ai, q, quo);
    assert(pow(pow(ai, q), quo) == pow(ai, (q * quo) as nat));
    lemma_pow_mod_noop(pow(ai, q), quo, pi);
    lemma1_pow(quo);
    lemma_small_mod(1, p);
    assert(pow(ai, (q * quo) as nat) % pi == 1);
    lemma_mul_mod_noop_general(pow(ai, (q * quo) as nat), pow(ai, rem), pi);
    assert(pow(ai, e) % pi == ((1 as int) * (pow(ai, rem) % pi)) % pi);
    lemma_mod_twice(pow(ai, rem), pi);
}

/// One side of the verification identity: from a response congruent to
/// `k - c*x`, the verifier's product recomputes the commitment `a^k mod p`.
proof fn lemma_verify_side(a: nat, p: nat, q: nat, x: nat, k: nat, c: nat, s: nat)
    requires
        p > 1,
        q > 0,
        pow(a as int, q) % (p as int) == 1,
        (s + c * x) % q == k % q,
    ensures
        (pow(a as int, s) * pow(pow_mod(a, x, p) as int, c)) % (p as int) == pow_mod(a, k, p),
{
    let ai = a as int;
    let pi = p as int;
    let y = pow_mod(a, x, p);
    lemma_mod_bound(pow(ai, x), pi);
    assert(y as int == pow(ai, x) % pi);
    lemma_pow_mod_noop(pow(ai, x), c, pi);
    assert(pow(y as int, c) % pi == pow(pow(ai, x), c) % pi);
    lemma_pow_multiplies(ai, x, c);
    assert(pow(y as int, c) % pi == pow(ai, (x * c) as nat) % pi);
    lemma_mul_mod_noop_general(pow(ai, s), pow(y as int, c), pi);
    lemma_mul_mod_noop_general(pow(ai, s), pow(ai, (x * c) as nat), pi);
    assert((pow(ai, s) * pow(y as int, c)) % pi == (pow(ai, s) * pow(ai, (x * c) as nat)) % pi);
    lemma_pow_adds(ai, s, (x * c) as nat);
    assert((pow(ai, s) * pow(y as int, c)) % pi == pow(ai, (s + x * c) as nat) % pi);
    lemma_pow_mod_exp_reduce(a, (s + x * c) as nat, q, p);
    lemma_pow_mod_exp_reduce(a, k, q, p);
    assert(x * c == c * x) by {
        vstd::arithmetic::mul::lemma_mul_is_commutative(x as int, c as int);
    }
    assert(((s + x * c) as nat) % q == k % q);
    assert(pow(ai, (s + x * c) as nat) % pi == pow(ai, k) % pi);
}

/// Completeness of the protocol: for any parameters whose generators both
/// satisfy `g^q = 1 mod p`, any secret `x` and any `k`, `c` in `[0, q)`,
/// the commitments `alpha^x`, `beta^x`, `alpha^k`, `beta^k` (mod `p`)
/// together with the response `(k - c*x) mod q` pass verification.
pub proof fn lemma_completeness(alpha: nat, beta: nat, p: nat, q: nat, x: nat, k: nat, c: nat)
    requires
        p > 1,
        q > 0,
        x < q,
        k < q,
        c < q,
        pow_mod(alpha, q, p) == 1,
        pow_mod(beta, q, p) == 1,
    ensures
        verify_eqs(
            pow_mod(alpha, x, p),
            pow_mod(beta, x, p),
            pow_mod(alpha, k, p),
            pow_mod(beta, k, p),
            alpha,
            beta,
            c,
            response_value(k, c, x, q),
            p,
        ),
{
    let s = response_value(k, c, x, q);
    lemma_response_congruence(k, c, x, q);
    lemma_mod_bound(pow(alpha as int, q), p as int);
    lemma_mod_bound(pow(beta as int, q), p as int);
    assert((s + x * c) % q == k % q);
    lemma_verify_side(alpha, p, q, x, k, c, s);
    lemma_verify_side(beta, p, q, x, k, c, s);
}

/// Any base raised to the zero exponent is 1 modulo any modulus above 1.
pub proof fn lemma_zero_exponent(n: nat, m: nat)
    requires
        m > 1,
    ensures
        pow_mod(n, 0, m) == 1,
{
    vstd::arithmetic::power::lemma_pow0(n as int);
    lemma_small_mod(1, m);
}

} // verus!
