//! The prime base field in which all raw trace values live.
//!
//! Elements are residues modulo `P = 2^64 - 2^32 + 1`. An element's
//! mathematical value is `val()`, always a canonical residue; every executable
//! operation carries an exact contract over the residue arithmetic
//! (`fadd`, `fsub`, `fmul`, `fpow`).

use vstd::prelude::*;
use vstd::arithmetic::div_mod::{
    lemma_add_mod_noop, lemma_mul_mod_noop_general, lemma_mod_twice, lemma_mod_bound,
    lemma_mod_add_multiples_vanish, lemma_small_mod,
};
use vstd::arithmetic::power::{pow, lemma_pow_multiplies, lemma_pow_mod_noop};

verus! {

/// The field modulus, `2^64 - 2^32 + 1`.
pub const P: u64 = 18446744069414584321;

/// Residue addition: `(a + b) mod P`.
pub open spec fn fadd(a: int, b: int) -> int {
    (a + b) % (P as int)
}

/// Residue subtraction on canonical values: `(a + P - b) mod P`.
pub open spec fn fsub(a: int, b: int) -> int {
    (a + P - b) % (P as int)
}

/// Residue multiplication: `(a * b) mod P`.
pub open spec fn fmul(a: int, b: int) -> int {
    (a * b) % (P as int)
}

/// Whether `a` is a canonical residue.
pub open spec fn fvalid(a: int) -> bool {
    0 <= a < P
}

/// Residue exponentiation by repeated multiplication.
pub open spec fn fpow(a: int, e: nat) -> int
    decreases e,
{
    if e == 0 {
        1
    } else {
        fmul(a, fpow(a, (e - 1) as nat))
    }
}

/// A base-field element.
#[derive(Clone, Copy, Debug, PartialEq, Eq, Structural)]
pub struct Bfe {
    v: u64,
}

impl Bfe {
    /// The residue this element stands for.
    pub closed spec fn val(self) -> int {
        self.v as int % (P as int)
    }

    /// Every element's residue is canonical.
    pub proof fn lemma_valid(self)
        ensures
            fvalid(self.val()),
    {
        lemma_mod_bound(self.v as int, P as int);
    }

    /// The element standing for `v mod P`.
    pub fn new(v: u64) -> (r: Self)
        ensures
            r.val() == v as int % (P as int),
    {
        proof {
            lemma_mod_twice(v as int, P as int);
        }
        Bfe { v: v % P }
    }

    /// The additive identity.
    pub fn zero() -> (r: Self)
        ensures
            r.val() == 0,
    {
        Bfe { v: 0 }
    }

    /// The multiplicative identity.
    pub fn one() -> (r: Self)
        ensures
            r.val() == 1,
    {
        Bfe { v: 1 }
    }

    /// The canonical `u64` representative.
    pub fn value(self) -> (r: u64)
        ensures
            r as int == self.val(),
            r < P,
    {
        self.v % P
    }

    /// Whether this element is the additive identity.
    pub fn is_zero(self) -> (r: bool)
        ensures
            r <==> self.val() == 0,
    {
        self.v % P == 0
    }

    /// Field addition.
    pub fn add(self, other: Self) -> (r: Self)
        ensures
            r.val() == fadd(self.val(), other.val()),
    {
        let s: u128 = (self.v as u128) % (P as u128) + (other.v as u128) % (P as u128);
        let m: u128 = s % (P as u128);
        proof {
            lemma_add_mod_noop(self.v as int, other.v as int, P as int);
            lemma_mod_twice(s as int, P as int);
        }
        Bfe { v: m as u64 }
    }

    /// Field subtraction.
    pub fn sub(self, other: Self) -> (r: Self)
        ensures
            r.val() == fsub(self.val(), other.val()),
    {
        let a: u128 = (self.v as u128) % (P as u128);
        let b: u128 = (other.v as u128) % (P as u128);
        let s: u128 = a + (P as u128) - b;
        let m: u128 = s % (P as u128);
        proof {
            lemma_mod_twice(s as int, P as int);
        }
        Bfe { v: m as u64 }
    }

    /// Field multiplication.
    pub fn mul(self, other: Self) -> (r: Self)
        ensures
            r.val() == fmul(self.val(), other.val()),
    {
        let a: u128 = (self.v as u128) % (P as u128);
        let b: u128 = (other.v as u128) % (P as u128);
        proof {
            assert(a * b <= (P as u128 - 1) * (P as u128 - 1)) by (nonlinear_arith)
                requires
                    a < P as u128,
                    b < P as u128,
            ;
        }
        let s: u128 = a * b;
        let m: u128 = s % (P as u128);
        proof {
            lemma_mul_mod_noop_general(self.v as int, other.v as int, P as int);
            lemma_mod_twice(self.v as int * other.v as int, P as int);
        }
        Bfe { v: m as u64 }
    }

    /// Field exponentiation by square and multiply.
    pub fn pow(self, e: u64) -> (r: Self)
        ensures
            r.val() == fpow(self.val(), e as nat),
    {
        proof {
            lemma_fpow_eq_pow_mod(self.val(), e as nat);
        }
        let mut result = Bfe::one();
        let mut base = self;
        let mut exp: u64 = e;
        while exp > 0
            invariant
                fvalid(result.val()),
                fvalid(base.val()),
                (result.val() * pow(base.val(), exp as nat)) % (P as int) == pow(
                    self.val(),
                    e as nat,
                ) % (P as int),
            decreases exp,
        {
            let ghost r0: int = result.val();
            let ghost b0: int = base.val();
            let ghost e0: nat = exp as nat;
            if exp % 2 == 1 {
                result = result.mul(base);
                proof {
                    // pow(b, e) == b * pow(b, e - 1)
                    reveal_with_fuel(pow, 2);
                    assert(pow(b0, e0) == b0 * pow(b0, (e0 - 1) as nat));
                    lemma_mul_mod_noop_general(r0, b0 * pow(b0, (e0 - 1) as nat), P as int);
                    lemma_mul_mod_noop_general(r0 * b0, pow(b0, (e0 - 1) as nat), P as int);
                    lemma_mul_mod_noop_general(result.val(), pow(b0, (e0 - 1) as nat), P as int);
                    assert(r0 * (b0 * pow(b0, (e0 - 1) as nat)) == (r0 * b0) * pow(
                        b0,
                        (e0 - 1) as nat,
                    )) by (nonlinear_arith);
                }
            }
            let ghost r1: int = result.val();
            let ghost e1: nat = (exp - exp % 2) as nat;
            proof {
                assert((r1 * pow(b0, e1)) % (P as int) == pow(self.val(), e as nat) % (P as int));
            }
            base = base.mul(base);
            exp = exp / 2;
            proof {
                // pow(b0, e1) == pow(b0 * b0, e1 / 2), and reducing the base mod P
                // does not change the product's residue.
                reveal_with_fuel(pow, 3);
                lemma_pow_multiplies(b0, 2, (e1 / 2) as nat);
                assert(pow(b0, 2) == b0 * b0 * 1);
                lemma_pow_mod_noop(b0 * b0, (e1 / 2) as nat, P as int);
                lemma_mul_mod_noop_general(r1, pow(b0 * b0, (e1 / 2) as nat), P as int);
                lemma_mul_mod_noop_general(r1, pow(base.val(), (e1 / 2) as nat), P as int);
                lemma_mod_twice(b0 * b0, P as int);
            }
        }
        proof {
            reveal_with_fuel(pow, 1);
            assert(pow(base.val(), 0) == 1);
            lemma_mod_twice(result.val(), P as int);
        }
        result
    }
}

/// Closed form of residue subtraction on canonical values.
pub proof fn lemma_fsub_cases(x: int, y: int)
    requires
        fvalid(x),
        fvalid(y),
    ensures
        fsub(x, y) == (if x >= y {
            x - y
        } else {
            x + P - y
        }),
{
    if x >= y {
        lemma_mod_add_multiples_vanish(x - y, P as int);
        lemma_small_mod((x - y) as nat, P as nat);
    } else {
        lemma_small_mod((x + P - y) as nat, P as nat);
    }
}

/// Closed form of residue addition on canonical values.
pub proof fn lemma_fadd_cases(x: int, y: int)
    requires
        fvalid(x),
        fvalid(y),
    ensures
        fadd(x, y) == (if x + y < P {
            x + y
        } else {
            x + y - P
        }),
{
    if x + y < P {
        lemma_small_mod((x + y) as nat, P as nat);
    } else {
        lemma_mod_add_multiples_vanish(x + y - P, P as int);
        lemma_small_mod((x + y - P) as nat, P as nat);
    }
}

/// Identities of the residue arithmetic on canonical values.
pub proof fn lemma_field_identities(a: int, b: int)
    requires
        fvalid(a),
        fvalid(b),
    ensures
        fadd(a, 0) == a,
        fadd(0, a) == a,
        fsub(a, 0) == a,
        fsub(a, a) == 0,
        fmul(a, 0) == 0,
        fmul(0, a) == 0,
        fmul(a, 1) == a,
        fmul(1, a) == a,
        fvalid(fadd(a, b)),
        fvalid(fsub(a, b)),
        fvalid(fmul(a, b)),
{
    lemma_mod_add_multiples_vanish(a, P as int);
    assert(a * 0 == 0);
    assert(0 * a == 0);
    assert(a * 1 == a);
    assert(1 * a == a);
}

/// Residue exponentiation agrees with plain exponentiation followed by one
/// reduction.
pub proof fn lemma_fpow_eq_pow_mod(a: int, e: nat)
    requires
        fvalid(a),
    ensures
        fpow(a, e) == pow(a, e) % (P as int),
    decreases e,
{
    reveal_with_fuel(pow, 2);
    if e == 0 {
    } else {
        lemma_fpow_eq_pow_mod(a, (e - 1) as nat);
        lemma_mul_mod_noop_general(a, pow(a, (e - 1) as nat), P as int);
    }
}

} // verus!
