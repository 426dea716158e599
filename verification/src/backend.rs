//! The arbitrary-precision arithmetic itself is delegated to `num_bigint`.
//!
//! Every function here converts between `Natural` and `num_bigint::BigUint`
//! through the shared little-endian base-2^32 digit encoding:
//! `BigUint::from_slice` reads exactly the digits `Natural` stores, and
//! `BigUint::to_u32_digits` returns the canonical digits (least significant
//! first, no trailing zero), so the results satisfy `Natural::wf`.

use vstd::prelude::*;
use crate::natural::Natural;
use crate::pow_mod;
use num_bigint::BigUint;
use num_bigint::RandBigInt;

verus! {

/// Relies on `BigUint::modpow`: returns `(self ^ exponent) % modulus`,
/// and panics only on a zero modulus.
#[verifier::external_body]
pub(crate) fn big_modpow(base: &Natural, exponent: &Natural, modulus: &Natural) -> (r: Natural)
    requires
        modulus@ > 0,
    ensures
        r.wf(),
        r@ == pow_mod(base@, exponent@, modulus@),
{
    let b = BigUint::from_slice(&base.digits);
    let e = BigUint::from_slice(&exponent.digits);
    let m = BigUint::from_slice(&modulus.digits);
    Natural { digits: b.modpow(&e, &m).to_u32_digits() }
}

/// Relies on `Mul for &BigUint`: returns the exact product.
#[verifier::external_body]
pub(crate) fn big_mul(a: &Natural, b: &Natural) -> (r: Natural)
    ensures
        r.wf(),
        r@ == a@ * b@,
{
    let x = BigUint::from_slice(&a.digits);
    let y = BigUint::from_slice(&b.digits);
    Natural { digits: (x * y).to_u32_digits() }
}

/// Relies on `Add for &BigUint`: returns the exact sum.
#[verifier::external_body]
pub(crate) fn big_add(a: &Natural, b: &Natural) -> (r: Natural)
    ensures
        r.wf(),
        r@ == a@ + b@,
{
    let x = BigUint::from_slice(&a.digits);
    let y = BigUint::from_slice(&b.digits);
    Natural { digits: (x + y).to_u32_digits() }
}

/// Relies on `Sub for &BigUint`: returns the exact difference, and panics
/// only when the subtrahend exceeds the minuend.
#[verifier::external_body]
pub(crate) fn big_sub(a: &Natural, b: &Natural) -> (r: Natural)
    requires
        b@ <= a@,
    ensures
        r.wf(),
        r@ == a@ - b@,
{
    let x = BigUint::from_slice(&a.digits);
    let y = BigUint::from_slice(&b.digits);
    Natural { digits: (x - y).to_u32_digits() }
}

/// Relies on `Rem for &BigUint`: returns the remainder of Euclidean
/// division, and panics only on a zero divisor.
#[verifier::external_body]
pub(crate) fn big_rem(a: &Natural, m: &Natural) -> (r: Natural)
    requires
        m@ > 0,
    ensures
        r.wf(),
        r@ == a@ % m@,
{
    let x = BigUint::from_slice(&a.digits);
    let y = BigUint::from_slice(&m.digits);
    Natural { digits: (x % y).to_u32_digits() }
}

/// Relies on `rand::thread_rng`, a cryptographically secure generator, and
/// on `RandBigInt::gen_biguint_below`, which rejection-samples a uniform
/// value below the bound and panics only on a zero bound. Nothing more than
/// the range is promised of any one outcome.
#[verifier::external_body]
pub(crate) fn big_random_below(bound: &Natural) -> (r: Natural)
    requires
        bound@ > 0,
    ensures
        r.wf(),
        r@ < bound@,
{
    let b = BigUint::from_slice(&bound.digits);
    let mut rng = rand::thread_rng();
    Natural { digits: rng.gen_biguint_below(&b).to_u32_digits() }
}

} // verus!
