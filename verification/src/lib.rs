//! Arithmetic core of a Chaum-Pedersen discrete-log proof: a prover who
//! knows `x` with `y1 = alpha^x mod p` and `y2 = beta^x mod p` commits to
//! `r1 = alpha^k mod p`, `r2 = beta^k mod p`, answers a challenge `c` with
//! `s = (k - c*x) mod q`, and the verifier recomputes both commitments from
//! the public values alone.

use vstd::prelude::*;
use vstd::arithmetic::power::pow;
use vstd::arithmetic::div_mod::lemma_mod_bound;
use vstd::arithmetic::div_mod::lemma_mul_mod_noop_general;

mod backend;
mod natural;
mod theory;

pub use natural::Natural;
pub use natural::digits_value;
pub use theory::lemma_completeness;
pub use theory::lemma_response_congruence;
pub use theory::lemma_zero_exponent;

verus! {

/// `b^e mod m`: the single operation all group arithmetic here reduces to.
pub open spec fn pow_mod(b: nat, e: nat, m: nat) -> nat
    recommends
        m > 0,
{
    (pow(b as int, e) % (m as int)) as nat
}

/// The prover's response `(k - c*x) mod q`, written so that it never goes
/// below zero: `c*x` is reduced first and `q` is added before subtracting.
pub open spec fn response_value(k: nat, c: nat, x: nat, q: nat) -> nat
    recommends
        q > 0,
{
    ((k + q - ((c * x) as int % (q as int))) % (q as int)) as nat
}

/// The two verification equations of the protocol:
/// `r1 = alpha^s * y1^c mod p` and `r2 = beta^s * y2^c mod p`.
pub open spec fn verify_eqs(
    y1: nat,
    y2: nat,
    r1: nat,
    r2: nat,
    alpha: nat,
    beta: nat,
    c: nat,
    s: nat,
    p: nat,
) -> bool
    recommends
        p > 0,
{
    &&& r1 == (pow(alpha as int, s) * pow(y1 as int, c)) % (p as int)
    &&& r2 == (pow(beta as int, s) * pow(y2 as int, c)) % (p as int)
}

/// Rejected caller input, surfaced immediately; never used for a proof
/// that merely fails to verify.
#[derive(Clone, Copy, Debug, PartialEq, Eq, Structural)]
pub enum Error {
    /// A zero modulus was passed to exponentiation.
    InvalidModulus,
    /// A zero subgroup order was passed to the response solver.
    InvalidOrder,
    /// A zero bound was passed to random sampling.
    InvalidBound,
}

/// `n^exponent mod modulus`, by repeated squaring inside `num_bigint`.
pub fn exponentiate(n: &Natural, exponent: &Natural, modulus: &Natural) -> (r: Natural)
    requires
        n.wf(),
        exponent.wf(),
        modulus.wf(),
        modulus@ > 0,
    ensures
        r.wf(),
        r@ == pow_mod(n@, exponent@, modulus@),
        r@ < modulus@,
{
    proof {
        lemma_mod_bound(pow(n@ as int, exponent@), modulus@ as int);
    }
    backend::big_modpow(n, exponent, modulus)
}

/// As `exponentiate`, but rejecting a zero modulus instead of requiring
/// the caller to rule it out.
pub fn try_exponentiate(n: &Natural, exponent: &Natural, modulus: &Natural) -> (r: Result<
    Natural,
    Error,
>)
    requires
        n.wf(),
        exponent.wf(),
        modulus.wf(),
    ensures
        match r {
            Ok(v) => modulus@ > 0 && v.wf() && v@ == pow_mod(n@, exponent@, modulus@),
            Err(e) => modulus@ == 0 && e == Error::InvalidModulus,
        },
{
    if modulus.is_zero() {
        Err(Error::InvalidModulus)
    } else {
        Ok(exponentiate(n, exponent, modulus))
    }
}

/// The prover's response `s = (k - c*x) mod q`, always in `[0, q)`:
/// `c*x` is reduced modulo `q` first, then subtracted from `k + q`, so no
/// intermediate value ever goes below zero.
pub fn solve(k: &Natural, c: &Natural, x: &Natural, q: &Natural) -> (s: Natural)
    requires
        k.wf(),
        c.wf(),
        x.wf(),
        q.wf(),
        q@ > 0,
    ensures
        s.wf(),
        s@ == response_value(k@, c@, x@, q@),
        s@ < q@,
        (s@ + c@ * x@) % q@ == k@ % q@,
{
    let cx = backend::big_mul(c, x);
    let cx_red = backend::big_rem(&cx, q);
    let shifted = backend::big_add(k, q);
    proof {
        lemma_mod_bound(cx@ as int, q@ as int);
    }
    let diff = backend::big_sub(&shifted, &cx_red);
    let s = backend::big_rem(&diff, q);
    proof {
        theory::lemma_response_congruence(k@, c@, x@, q@);
    }
    s
}

/// As `solve`, but rejecting a zero order instead of requiring the caller
/// to rule it out.
pub fn try_solve(k: &Natural, c: &Natural, x: &Natural, q: &Natural) -> (r: Result<Natural, Error>)
    requires
        k.wf(),
        c.wf(),
        x.wf(),
        q.wf(),
    ensures
        match r {
            Ok(s) => q@ > 0 && s.wf() && s@ == response_value(k@, c@, x@, q@),
            Err(e) => q@ == 0 && e == Error::InvalidOrder,
        },
{
    if q.is_zero() {
        Err(Error::InvalidOrder)
    } else {
        Ok(solve(k, c, x, q))
    }
}

/// Recomputes both verification equations and reports whether each holds
/// exactly; `false` is the protocol's rejection, not an error.
pub fn verify(
    y1: &Natural,
    y2: &Natural,
    r1: &Natural,
    r2: &Natural,
    alpha: &Natural,
    beta: &Natural,
    c: &Natural,
    s: &Natural,
    p: &Natural,
) -> (result: bool)
    requires
        y1.wf(),
        y2.wf(),
        r1.wf(),
        r2.wf(),
        alpha.wf(),
        beta.wf(),
        c.wf(),
        s.wf(),
        p.wf(),
        p@ > 0,
    ensures
        result == verify_eqs(y1@, y2@, r1@, r2@, alpha@, beta@, c@, s@, p@),
{
    let alpha_s = backend::big_modpow(alpha, s, p);
    let y1_c = backend::big_modpow(y1, c, p);
    let lhs1 = backend::big_rem(&backend::big_mul(&alpha_s, &y1_c), p);
    let cond1 = r1.equals(&lhs1);
    let beta_s = backend::big_modpow(beta, s, p);
    let y2_c = backend::big_modpow(y2, c, p);
    let lhs2 = backend::big_rem(&backend::big_mul(&beta_s, &y2_c), p);
    let cond2 = r2.equals(&lhs2);
    proof {
        lemma_mul_mod_noop_general(pow(alpha@ as int, s@), pow(y1@ as int, c@), p@ as int);
        lemma_mul_mod_noop_general(pow(beta@ as int, s@), pow(y2@ as int, c@), p@ as int);
    }
    cond1 && cond2
}

/// A uniformly random value in `[0, bound)` from a cryptographically
/// secure source; nothing beyond the range is promised of any one draw.
pub fn generate_random_less_than(bound: &Natural) -> (r: Natural)
    requires
        bound.wf(),
        bound@ > 0,
    ensures
        r.wf(),
        r@ < bound@,
{
    backend::big_random_below(bound)
}

/// As `generate_random_less_than`, but rejecting a zero bound instead of
/// requiring the caller to rule it out.
pub fn try_generate_random_less_than(bound: &Natural) -> (r: Result<Natural, Error>)
    requires
        bound.wf(),
    ensures
        match r {
            Ok(v) => bound@ > 0 && v.wf() && v@ < bound@,
            Err(e) => bound@ == 0 && e == Error::InvalidBound,
        },
{
    if bound.is_zero() {
        Err(Error::InvalidBound)
    } else {
        Ok(generate_random_less_than(bound))
    }
}

} // verus!
