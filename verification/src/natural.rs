//! Arbitrary-precision natural numbers, stored as base-2^32 digits.

use vstd::prelude::*;
use vstd::arithmetic::div_mod::lemma_fundamental_div_mod;
use vstd::arithmetic::div_mod::lemma_fundamental_div_mod_converse;
use vstd::arithmetic::mul::lemma_mul_inequality;

verus! {

/// Value of a little-endian sequence of base-2^32 digits.
pub open spec fn digits_value(s: Seq<u32>) -> nat
    decreases s.len(),
{
    if s.len() == 0 {
        0
    } else {
        (s[0] + 0x1_0000_0000 * digits_value(s.drop_first())) as nat
    }
}

/// A digit sequence is canonical when it carries no trailing zero digit,
/// so every value has exactly one canonical representation.
pub open spec fn digits_canonical(s: Seq<u32>) -> bool {
    s.len() == 0 || s.last() != 0
}

/// An arbitrary-precision natural number: base-2^32 digits, least
/// significant first, kept canonical (no trailing zero digit).
pub struct Natural {
    pub(crate) digits: Vec<u32>,
}

impl View for Natural {
    type V = nat;

    closed spec fn view(&self) -> nat {
        digits_value(self.digits@)
    }
}

proof fn lemma_digits_value_singleton(d: u32)
    ensures
        digits_value(seq![d]) == d,
{
    assert(seq![d].drop_first() =~= Seq::<u32>::empty());
    assert(digits_value(Seq::<u32>::empty()) == 0);
}

proof fn lemma_digits_value_pair(d0: u32, d1: u32)
    ensures
        digits_value(seq![d0, d1]) == d0 + 0x1_0000_0000 * d1,
{
    lemma_digits_value_singleton(d1);
    assert(seq![d0, d1].drop_first() =~= seq![d1]);
}

/// A canonical nonempty digit sequence denotes a nonzero value.
proof fn lemma_canonical_positive(s: Seq<u32>)
    requires
        digits_canonical(s),
        s.len() > 0,
    ensures
        digits_value(s) >= 1,
    decreases s.len(),
{
    if s.len() == 1 {
        assert(s[0] == s.last());
    } else {
        let t = s.drop_first();
        assert(t.last() == s.last());
        lemma_canonical_positive(t);
        assert(0x1_0000_0000 * digits_value(t) >= 0x1_0000_0000 * 1) by {
            lemma_mul_inequality(1, digits_value(t) as int, 0x1_0000_0000);
        }
    }
}

/// Two canonical digit sequences with the same value are the same sequence.
proof fn lemma_canonical_unique(a: Seq<u32>, b: Seq<u32>)
    requires
        digits_canonical(a),
        digits_canonical(b),
        digits_value(a) == digits_value(b),
    ensures
        a == b,
    decreases a.len(),
{
    if a.len() == 0 {
        if b.len() > 0 {
            lemma_canonical_positive(b);
        }
        assert(a =~= b);
    } else if b.len() == 0 {
        lemma_canonical_positive(a);
    } else {
        let at = a.drop_first();
        let bt = b.drop_first();
        let v = digits_value(a) as int;
        assert(v == digits_value(at) * 0x1_0000_0000 + a[0]) by {
            vstd::arithmetic::mul::lemma_mul_is_commutative(
                0x1_0000_0000,
                digits_value(at) as int,
            );
        }
        lemma_fundamental_div_mod_converse(v, 0x1_0000_0000, digits_value(at) as int, a[0] as int);
        assert(v == digits_value(bt) * 0x1_0000_0000 + b[0]) by {
            vstd::arithmetic::mul::lemma_mul_is_commutative(
                0x1_0000_0000,
                digits_value(bt) as int,
            );
        }
        lemma_fundamental_div_mod_converse(v, 0x1_0000_0000, digits_value(bt) as int, b[0] as int);
        assert(a[0] == b[0]);
        assert(digits_value(at) == digits_value(bt));
        if a.len() > 1 {
            assert(at.last() == a.last());
        }
        if b.len() > 1 {
            assert(bt.last() == b.last());
        }
        lemma_canonical_unique(at, bt);
        assert(a =~= b) by {
            assert(a.len() == at.len() + 1 == bt.len() + 1 == b.len());
            assert(forall|i: int| 1 <= i < a.len() ==> a[i] == at[i - 1] && b[i] == bt[i - 1]);
        }
    }
}

/// A trailing zero digit does not change the value.
proof fn lemma_drop_trailing_zero(s: Seq<u32>)
    requires
        s.len() > 0,
        s.last() == 0,
    ensures
        digits_value(s.drop_last()) == digits_value(s),
    decreases s.len(),
{
    if s.len() == 1 {
        assert(s.drop_first() =~= Seq::<u32>::empty());
        assert(s.drop_last() =~= Seq::<u32>::empty());
        assert(digits_value(Seq::<u32>::empty()) == 0);
        assert(digits_value(s) == s[0]);
    } else {
        let t = s.drop_first();
        assert(t.last() == s.last());
        lemma_drop_trailing_zero(t);
        assert(s.drop_last().drop_first() =~= t.drop_last());
        assert(s.drop_last()[0] == s[0]);
        assert(s.drop_last().len() > 0);
    }
}

impl Natural {
    /// The digits carry no trailing zero, so values compare by digits alone.
    pub closed spec fn wf(&self) -> bool {
        digits_canonical(self.digits@)
    }

    /// Builds the number with the given value.
    pub fn from_u64(v: u64) -> (r: Natural)
        ensures
            r.wf(),
            r@ == v,
    {
        let mut digits: Vec<u32> = Vec::new();
        if v > 0 {
            let lo: u32 = (v % 0x1_0000_0000) as u32;
            let hi64: u64 = v / 0x1_0000_0000;
            digits.push(lo);
            if hi64 > 0 {
                digits.push(hi64 as u32);
            }
            proof {
                lemma_fundamental_div_mod(v as int, 0x1_0000_0000);
                if hi64 > 0 {
                    lemma_digits_value_pair(lo, hi64 as u32);
                    assert(digits@ =~= seq![lo, hi64 as u32]);
                } else {
                    lemma_digits_value_singleton(lo);
                    assert(digits@ =~= seq![lo]);
                }
            }
        }
        Natural { digits }
    }

    /// Builds the number whose base-2^32 digits, least significant first,
    /// are given; trailing zero digits are accepted and stripped.
    pub fn from_u32_digits(digits: Vec<u32>) -> (r: Natural)
        ensures
            r.wf(),
            r@ == digits_value(digits@),
    {
        let ghost orig = digits@;
        let mut d = digits;
        while d.len() > 0 && d[d.len() - 1] == 0
            invariant
                digits_value(d@) == digits_value(orig),
            decreases d.len(),
        {
            proof {
                lemma_drop_trailing_zero(d@);
                assert(d@.drop_last() =~= d@.subrange(0, d@.len() - 1));
            }
            d.pop();
        }
        Natural { digits: d }
    }

    /// True exactly on the number zero.
    pub fn is_zero(&self) -> (r: bool)
        requires
            self.wf(),
        ensures
            r == (self@ == 0),
    {
        proof {
            if self.digits@.len() > 0 {
                lemma_canonical_positive(self.digits@);
            }
        }
        self.digits.len() == 0
    }

    /// Value equality: two numbers are equal exactly when their values are.
    pub fn equals(&self, other: &Natural) -> (r: bool)
        requires
            self.wf(),
            other.wf(),
        ensures
            r == (self@ == other@),
    {
        proof {
            if self@ == other@ {
                lemma_canonical_unique(self.digits@, other.digits@);
            }
        }
        if self.digits.len() != other.digits.len() {
            return false;
        }
        let mut i: usize = 0;
        while i < self.digits.len()
            invariant
                i <= self.digits.len(),
                self.digits.len() == other.digits.len(),
                self@ == other@ ==> self.digits@ == other.digits@,
                forall|j: int| 0 <= j < i ==> self.digits@[j] == other.digits@[j],
            decreases self.digits.len() - i,
        {
            if self.digits[i] != other.digits[i] {
                return false;
            }
            i += 1;
        }
        proof {
            assert(self.digits@ =~= other.digits@);
        }
        true
    }

    /// The value, when it fits a `u64`; `None` exactly when it does not.
    pub fn to_u64(&self) -> (r: Option<u64>)
        requires
            self.wf(),
        ensures
            match r {
                Some(v) => self@ == v,
                None => self@ > u64::MAX,
            },
    {
        if self.digits.len() == 0 {
            Some(0)
        } else if self.digits.len() == 1 {
            let d0 = self.digits[0];
            proof {
                lemma_digits_value_singleton(d0);
                assert(self.digits@ =~= seq![d0]);
            }
            Some(d0 as u64)
        } else if self.digits.len() == 2 {
            let lo = self.digits[0];
            let hi = self.digits[1];
            proof {
                lemma_digits_value_pair(lo, hi);
                assert(self.digits@ =~= seq![lo, hi]);
            }
            Some(lo as u64 + (hi as u64) * 0x1_0000_0000)
        } else {
            proof {
                let s = self.digits@;
                let t = s.drop_first();
                let u = t.drop_first();
                assert(t.last() == s.last() && u.last() == s.last());
                lemma_canonical_positive(u);
                assert(digits_value(t) >= 0x1_0000_0000 * digits_value(u) >= 0x1_0000_0000)
                    by {
                    lemma_mul_inequality(1, digits_value(u) as int, 0x1_0000_0000);
                }
                assert(digits_value(s) >= 0x1_0000_0000 * digits_value(t)) by {
                    lemma_mul_inequality(1, digits_value(t) as int, 0x1_0000_0000);
                }
                assert(0x1_0000_0000 * digits_value(t) >= 0x1_0000_0000 * 0x1_0000_0000) by {
                    lemma_mul_inequality(
                        0x1_0000_0000,
                        digits_value(t) as int,
                        0x1_0000_0000,
                    );
                }
            }
            None
        }
    }
}

} // verus!
