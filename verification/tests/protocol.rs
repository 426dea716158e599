use chaum_pedersen::{
    exponentiate, generate_random_less_than, solve, try_exponentiate,
    try_generate_random_less_than, try_solve, verify, Error, Natural,
};

fn num(v: u64) -> Natural {
    Natural::from_u64(v)
}

#[test]
fn test_toy_example() {
    let alpha = num(4);
    let beta = num(9);
    let p = num(23);
    let q = num(11);

    let x = num(6);
    let k = num(7);
    let c = num(4);

    let y1 = exponentiate(&alpha, &x, &p);
    let y2 = exponentiate(&beta, &x, &p);

    assert_eq!(y1.to_u64(), Some(2));
    assert_eq!(y2.to_u64(), Some(3));

    let r1 = exponentiate(&alpha, &k, &p);
    let r2 = exponentiate(&beta, &k, &p);

    assert_eq!(r1.to_u64(), Some(8));
    assert_eq!(r2.to_u64(), Some(4));

    let s = solve(&k, &c, &x, &q);
    assert_eq!(s.to_u64(), Some(5));

    let result = verify(&y1, &y2, &r1, &r2, &alpha, &beta, &c, &s, &p);
    assert!(result);
}

#[test]
fn test_toy_example_with_random_numbers() {
    let alpha = num(4);
    let beta = num(9);
    let p = num(23);
    let q = num(11);

    let x = num(6);
    let k = generate_random_less_than(&q);
    let c = generate_random_less_than(&q);

    let y1 = exponentiate(&alpha, &x, &p);
    let y2 = exponentiate(&beta, &x, &p);

    let r1 = exponentiate(&alpha, &k, &p);
    let r2 = exponentiate(&beta, &k, &p);

    let s = solve(&k, &c, &x, &q);

    let result = verify(&y1, &y2, &r1, &r2, &alpha, &beta, &c, &s, &p);
    assert!(result);
}

#[test]
fn test_round_trip_in_larger_group() {
    // p is prime and q = (p - 1) / 2; both generators are squares, so
    // their order divides q and verification must accept for any k, c.
    let p = num(1_000_000_007);
    let q = num(500_000_003);
    let alpha = num(25);
    let beta = num(625);

    let x = num(123_456_789);
    let k = generate_random_less_than(&q);
    let c = generate_random_less_than(&q);

    let y1 = exponentiate(&alpha, &x, &p);
    let y2 = exponentiate(&beta, &x, &p);
    let r1 = exponentiate(&alpha, &k, &p);
    let r2 = exponentiate(&beta, &k, &p);
    let s = solve(&k, &c, &x, &q);

    assert!(verify(&y1, &y2, &r1, &r2, &alpha, &beta, &c, &s, &p));
}

#[test]
fn test_solve_is_in_range() {
    // c * x vastly exceeds k: the result must still land in [0, q).
    let q = num(7);
    let k = num(3);
    let c = num(1 << 60);
    let x = num(1 << 60);
    let s = solve(&k, &c, &x, &q);
    // c * x = 2^120 and 2^120 mod 7 = 1, so s = (3 + 7 - 1) mod 7 = 2.
    assert_eq!(s.to_u64(), Some(2));

    // k vastly exceeds q, with nothing subtracted.
    let big_k = num(1_000_000_000_000_000_000);
    let s2 = solve(&big_k, &num(0), &num(0), &q);
    // 10^18 mod 7 = 1.
    assert_eq!(s2.to_u64(), Some(1));

    let q11 = num(11);
    for kv in 0..12u64 {
        for cv in 0..12u64 {
            let s3 = solve(&num(kv), &num(cv), &num(6), &q11);
            assert!(s3.to_u64().unwrap() < 11);
        }
    }
}

#[test]
fn test_solve_zero_inputs() {
    let s = solve(&num(0), &num(0), &num(6), &num(11));
    assert_eq!(s.to_u64(), Some(0));
}

#[test]
fn test_modexp_zero_exponent() {
    for n in [0u64, 1, 2, 23, 4_294_967_296] {
        let r = exponentiate(&num(n), &num(0), &num(23));
        assert_eq!(r.to_u64(), Some(1));
    }
    // With modulus 1 the only residue is 0.
    let r = exponentiate(&num(5), &num(0), &num(1));
    assert_eq!(r.to_u64(), Some(0));
}

#[test]
fn test_modexp_multilimb_values() {
    // 2^64 = (2^32)^2 = (-1)^2 = 1 modulo 2^32 + 1.
    let r = exponentiate(&num(2), &num(64), &num(4_294_967_297));
    assert_eq!(r.to_u64(), Some(1));

    // A base beyond one machine word: (2^64)^2 = 1 modulo 2^32 + 1 as well.
    let base = Natural::from_u32_digits(vec![0, 0, 1]);
    assert_eq!(base.to_u64(), None);
    let r2 = exponentiate(&base, &num(2), &num(4_294_967_297));
    assert_eq!(r2.to_u64(), Some(1));
}

#[test]
fn test_constructors_and_equality() {
    assert!(num(0).equals(&num(0)));
    assert!(!num(0).equals(&num(1)));
    assert!(num(4_294_967_296).equals(&num(4_294_967_296)));
    assert!(!num(4_294_967_296).equals(&num(4_294_967_295)));
    assert_eq!(num(u64::MAX).to_u64(), Some(u64::MAX));
    assert_eq!(num(4_294_967_296).to_u64(), Some(4_294_967_296));

    // Trailing zero digits are stripped, so values compare equal.
    let padded = Natural::from_u32_digits(vec![5, 0, 0]);
    assert!(padded.equals(&num(5)));
    assert_eq!(padded.to_u64(), Some(5));
    let empty = Natural::from_u32_digits(vec![]);
    assert!(empty.equals(&num(0)));
}

#[test]
fn test_random_below_stays_in_range() {
    let bound = num(10);
    let mut counts = [0u32; 10];
    for _ in 0..2000 {
        let v = generate_random_less_than(&bound).to_u64().unwrap();
        assert!(v < 10);
        counts[v as usize] += 1;
    }
    // Roughly uniform: each value should come up near 200 times out of
    // 2000; far-off counts would betray a biased draw.
    for count in counts {
        assert!(count > 50);
    }
}

#[test]
fn test_random_below_one_is_zero() {
    for _ in 0..20 {
        let v = generate_random_less_than(&num(1));
        assert_eq!(v.to_u64(), Some(0));
    }
}

#[test]
fn test_tampering_is_detected() {
    let alpha = num(4);
    let beta = num(9);
    let p = num(23);
    let (y1, y2, r1, r2, c, s) = (num(2), num(3), num(8), num(4), num(4), num(5));
    assert!(verify(&y1, &y2, &r1, &r2, &alpha, &beta, &c, &s, &p));

    // Each single altered value must make verification reject.
    assert!(!verify(&num(3), &y2, &r1, &r2, &alpha, &beta, &c, &s, &p));
    assert!(!verify(&y1, &num(2), &r1, &r2, &alpha, &beta, &c, &s, &p));
    assert!(!verify(&y1, &y2, &num(9), &r2, &alpha, &beta, &c, &s, &p));
    assert!(!verify(&y1, &y2, &r1, &num(5), &alpha, &beta, &c, &s, &p));
    assert!(!verify(&y1, &y2, &r1, &r2, &alpha, &beta, &num(5), &s, &p));
    assert!(!verify(&y1, &y2, &r1, &r2, &alpha, &beta, &c, &num(6), &p));
}

#[test]
fn test_verify_rejects_perturbed_response() {
    let alpha = num(4);
    let beta = num(9);
    let p = num(23);
    let (y1, y2, r1, r2, c) = (num(2), num(3), num(8), num(4), num(4));
    let result = verify(&y1, &y2, &r1, &r2, &alpha, &beta, &c, &num(6), &p);
    assert!(!result);
}

#[test]
fn test_invalid_inputs_are_rejected() {
    let zero = num(0);
    assert!(matches!(
        try_exponentiate(&num(4), &num(6), &zero),
        Err(Error::InvalidModulus)
    ));
    assert!(matches!(
        try_solve(&num(7), &num(4), &num(6), &zero),
        Err(Error::InvalidOrder)
    ));
    assert!(matches!(
        try_generate_random_less_than(&zero),
        Err(Error::InvalidBound)
    ));

    let r = try_exponentiate(&num(4), &num(6), &num(23));
    assert_eq!(r.unwrap().to_u64(), Some(2));
    let s = try_solve(&num(7), &num(4), &num(6), &num(11));
    assert_eq!(s.unwrap().to_u64(), Some(5));
    let v = try_generate_random_less_than(&num(1));
    assert_eq!(v.unwrap().to_u64(), Some(0));
}
