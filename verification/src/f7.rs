//! The prime field of integers modulo 7.
//!
//! A small concrete field supplying the [`PairRing`](crate::ring::PairRing)
//! interface, so that affine column combinations can be evaluated over
//! actual field values. A value is well formed when its representative is
//! reduced; the spec-level operations normalise their operands, which makes
//! the commutativity and associativity laws hold on all carrier values.

use vstd::prelude::*;

use crate::ring::PairRing;
use vstd::arithmetic::div_mod::{
    lemma_add_mod_noop, lemma_mod_division_less_than_divisor, lemma_mod_multiples_vanish,
    lemma_mod_twice, lemma_small_mod,
};
use vstd::arithmetic::mul::lemma_mul_is_commutative;

verus! {

/// An integer modulo 7, reduced when well formed.
#[derive(Clone, Copy, Debug, PartialEq, Eq, Structural)]
pub struct F7 {
    v: u64,
}

impl F7 {
    /// The reduced representative of this value.
    pub closed spec fn val(self) -> int {
        self.v as int
    }

    /// Builds the field element congruent to `x` modulo 7.
    pub fn from_u64(x: u64) -> (r: F7)
        ensures
            r.inv(),
            r.val() == x as int % 7,
    {
        F7 { v: x % 7 }
    }

    /// Reads the reduced representative.
    pub fn value(self) -> (r: u64)
        ensures
            r as int == self.val(),
    {
        self.v
    }
}

impl PairRing for F7 {
    closed spec fn inv(self) -> bool {
        self.v < 7
    }

    closed spec fn spec_zero() -> F7 {
        F7 { v: 0 }
    }

    closed spec fn spec_one() -> F7 {
        F7 { v: 1 }
    }

    closed spec fn spec_neg_one() -> F7 {
        F7 { v: 6 }
    }

    closed spec fn spec_add(self, o: F7) -> F7 {
        F7 { v: ((self.v as int % 7 + o.v as int % 7) % 7) as u64 }
    }

    closed spec fn spec_mul(self, o: F7) -> F7 {
        F7 { v: (((self.v as int % 7) * (o.v as int % 7)) % 7) as u64 }
    }

    closed spec fn spec_neg(self) -> F7 {
        F7 { v: ((7 - self.v as int % 7) % 7) as u64 }
    }

    fn zero() -> (r: F7)
        ensures
            r.val() == 0,
    {
        F7 { v: 0 }
    }

    fn one() -> (r: F7)
        ensures
            r.val() == 1,
    {
        F7 { v: 1 }
    }

    fn neg_one() -> (r: F7)
        ensures
            r.val() == 6,
    {
        F7 { v: 6 }
    }

    fn add(self, o: F7) -> (r: F7)
        ensures
            r.val() == (self.val() + o.val()) % 7,
    {
        proof {
            lemma_small_mod(self.v as nat, 7);
            lemma_small_mod(o.v as nat, 7);
            lemma_mod_division_less_than_divisor(self.v as int + o.v as int, 7);
        }
        F7 { v: (self.v + o.v) % 7 }
    }

    fn mul(self, o: F7) -> (r: F7)
        ensures
            r.val() == (self.val() * o.val()) % 7,
    {
        proof {
            lemma_small_mod(self.v as nat, 7);
            lemma_small_mod(o.v as nat, 7);
            assert(self.v * o.v < 49) by (nonlinear_arith)
                requires
                    self.v < 7,
                    o.v < 7,
            ;
            lemma_mod_division_less_than_divisor(self.v as int * o.v as int, 7);
        }
        F7 { v: (self.v * o.v) % 7 }
    }

    fn neg(self) -> (r: F7)
        ensures
            r.val() == (7 - self.val()) % 7,
    {
        proof {
            lemma_small_mod(self.v as nat, 7);
            lemma_mod_division_less_than_divisor(7 - self.v as int, 7);
        }
        F7 { v: (7 - self.v) % 7 }
    }

    proof fn law_add_comm(a: F7, b: F7) {
    }

    proof fn law_add_assoc(a: F7, b: F7, c: F7) {
        let x = a.v as int % 7;
        let y = b.v as int % 7;
        let z = c.v as int % 7;
        lemma_mod_division_less_than_divisor(a.v as int, 7);
        lemma_mod_division_less_than_divisor(b.v as int, 7);
        lemma_mod_division_less_than_divisor(c.v as int, 7);
        lemma_mod_twice(a.v as int, 7);
        lemma_mod_twice(b.v as int, 7);
        lemma_mod_twice(c.v as int, 7);
        lemma_mod_division_less_than_divisor(x + y, 7);
        lemma_mod_division_less_than_divisor(y + z, 7);
        lemma_mod_twice(x + y, 7);
        lemma_mod_twice(y + z, 7);
        lemma_add_mod_noop(x + y, z, 7);
        lemma_add_mod_noop(x, y + z, 7);
    }

    proof fn law_mul_comm(a: F7, b: F7) {
        let x = a.v as int % 7;
        let y = b.v as int % 7;
        lemma_mul_is_commutative(x, y);
    }

    proof fn law_add_zero(a: F7) {
        lemma_small_mod(a.v as nat, 7);
        lemma_small_mod(0, 7);
        lemma_small_mod(a.v as nat, 7);
    }

    proof fn law_mul_one(a: F7) {
        let x = a.v as int;
        lemma_small_mod(a.v as nat, 7);
        lemma_small_mod(1, 7);
        assert((x % 7) * (1 as int % 7) == x);
    }

    proof fn law_mul_neg_one(a: F7) {
        let x = a.v as int;
        lemma_small_mod(a.v as nat, 7);
        lemma_small_mod(6, 7);
        assert(x * 6 == 7 * (x - 1) + (7 - x));
        lemma_mod_multiples_vanish(x - 1, 7 - x, 7);
    }

    proof fn law_neg_add(a: F7, b: F7) {
        let x = a.v as int;
        let y = b.v as int;
        lemma_small_mod(a.v as nat, 7);
        lemma_small_mod(b.v as nat, 7);
        // The sum of the negations is `(14 - x - y) % 7 == (7 - x - y) % 7`.
        lemma_mod_division_less_than_divisor(7 - x, 7);
        lemma_mod_division_less_than_divisor(7 - y, 7);
        lemma_mod_twice(7 - x, 7);
        lemma_mod_twice(7 - y, 7);
        lemma_add_mod_noop(7 - x, 7 - y, 7);
        lemma_mod_multiples_vanish(1, 7 - x - y, 7);
        // The negation of the sum is the same value.
        let s = (x + y) % 7;
        lemma_mod_division_less_than_divisor(x + y, 7);
        lemma_mod_twice(x + y, 7);
        if x + y < 7 {
            lemma_small_mod((x + y) as nat, 7);
        } else {
            lemma_mod_multiples_vanish(-1, x + y, 7);
            lemma_small_mod((x + y - 7) as nat, 7);
            lemma_mod_multiples_vanish(1, 7 - (x + y - 7), 7);
        }
    }

    proof fn law_neg_neg(a: F7) {
        let x = a.v as int;
        lemma_small_mod(a.v as nat, 7);
        if x == 0 {
            lemma_small_mod(0, 7);
            assert(7 as int % 7 == 0) by {
                lemma_mod_multiples_vanish(1, 0, 7);
                lemma_small_mod(0, 7);
            };
        } else {
            lemma_small_mod((7 - x) as nat, 7);
            lemma_small_mod(x as nat, 7);
        }
    }

    proof fn law_add_inv(a: F7, b: F7) {
        lemma_mod_division_less_than_divisor(a.v as int % 7 + b.v as int % 7, 7);
    }

    proof fn law_mul_inv(a: F7, b: F7) {
        lemma_mod_division_less_than_divisor((a.v as int % 7) * (b.v as int % 7), 7);
    }

    proof fn law_neg_inv(a: F7) {
        lemma_mod_division_less_than_divisor(7 - a.v as int % 7, 7);
    }

    proof fn law_consts_inv() {
    }
}

} // verus!
