//! A fixed prime-field element type used for every cell of a witness table.
//!
//! The modulus is the 64-bit prime `2^64 - 2^32 + 1`, small enough that every
//! element fits in a `u64` and products fit in a `u128`.

use vstd::prelude::*;
use vstd::arithmetic::mul::lemma_mul_upper_bound;

verus! {

/// The field modulus: the prime `2^64 - 2^32 + 1`.
pub const FIELD_MODULUS: u64 = 18446744069414584321;

/// The modulus as a mathematical integer, for use in specifications.
pub open spec fn modulus() -> int {
    FIELD_MODULUS as int
}

/// `(x + y) mod p` on mathematical integers.
pub open spec fn add_mod(x: int, y: int) -> int {
    (x + y) % modulus()
}

/// `(x - y) mod p` on mathematical integers (result in `[0, p)`).
pub open spec fn sub_mod(x: int, y: int) -> int {
    (x - y) % modulus()
}

/// `(x * y) mod p` on mathematical integers.
pub open spec fn mul_mod(x: int, y: int) -> int {
    (x * y) % modulus()
}

/// An element of the prime field, stored as its canonical representative.
#[derive(Clone, Copy, Debug, PartialEq, Eq, Structural)]
pub struct Felt {
    pub repr: u64,
}

impl Felt {
    /// The representative as a mathematical integer.
    pub open spec fn as_int(self) -> int {
        self.repr as int
    }

    /// A field element is valid when its representative is reduced.
    pub open spec fn valid(self) -> bool {
        self.repr < FIELD_MODULUS
    }

    /// The additive identity.
    pub fn zero() -> (r: Felt)
        ensures
            r.valid(),
            r.as_int() == 0,
    {
        Felt { repr: 0 }
    }

    /// The multiplicative identity.
    pub fn one() -> (r: Felt)
        ensures
            r.valid(),
            r.as_int() == 1,
    {
        Felt { repr: 1 }
    }

    /// The element whose representative is `x mod p`.
    pub fn from_u64(x: u64) -> (r: Felt)
        ensures
            r.valid(),
            r.as_int() == x as int % modulus(),
    {
        Felt { repr: x % FIELD_MODULUS }
    }

    /// Field addition.
    pub fn add(self, rhs: Felt) -> (r: Felt)
        requires
            self.valid(),
            rhs.valid(),
        ensures
            r.valid(),
            r.as_int() == add_mod(self.as_int(), rhs.as_int()),
    {
        let p: u128 = FIELD_MODULUS as u128;
        let s: u128 = self.repr as u128 + rhs.repr as u128;
        let r: u128 = s % p;
        Felt { repr: r as u64 }
    }

    /// Field subtraction.
    pub fn sub(self, rhs: Felt) -> (r: Felt)
        requires
            self.valid(),
            rhs.valid(),
        ensures
            r.valid(),
            r.as_int() == sub_mod(self.as_int(), rhs.as_int()),
    {
        let p: u128 = FIELD_MODULUS as u128;
        let s: u128 = self.repr as u128 + p - rhs.repr as u128;
        let r: u128 = s % p;
        proof {
            vstd::arithmetic::div_mod::lemma_mod_add_multiples_vanish(
                self.as_int() - rhs.as_int(),
                modulus(),
            );
        }
        Felt { repr: r as u64 }
    }

    /// Field multiplication.
    pub fn mul(self, rhs: Felt) -> (r: Felt)
        requires
            self.valid(),
            rhs.valid(),
        ensures
            r.valid(),
            r.as_int() == mul_mod(self.as_int(), rhs.as_int()),
    {
        let p: u128 = FIELD_MODULUS as u128;
        proof {
            lemma_mul_upper_bound(
                self.repr as int,
                u64::MAX as int,
                rhs.repr as int,
                u64::MAX as int,
            );
        }
        let prod: u128 = self.repr as u128 * rhs.repr as u128;
        let r: u128 = prod % p;
        Felt { repr: r as u64 }
    }
}

} // verus!
