//! Arbitrary-precision natural numbers, held as big-endian bytes.
//!
//! The arithmetic itself is done by `num_bigint::BigUint`; each operation the
//! library needs is a small trusted wrapper whose contract states the result
//! over `be_value`, the number that a byte string denotes.
use num_bigint::{BigUint, RandBigInt};
use vstd::arithmetic::power::pow;
use vstd::prelude::*;

verus! {

/// The natural number denoted by a big-endian byte string (no sign, any width).
pub open spec fn be_value(b: Seq<u8>) -> nat
    decreases b.len(),
{
    if b.len() == 0 {
        0
    } else {
        be_value(b.drop_last()) * 256 + b.last() as nat
    }
}

/// A natural number of any size. Its view is the number itself.
#[derive(Debug)]
pub struct BigNum {
    bytes: Vec<u8>,
}

impl View for BigNum {
    type V = nat;

    closed spec fn view(&self) -> nat {
        be_value(self.bytes@)
    }
}

impl BigNum {
    /// The number whose big-endian bytes are `bytes` (an empty string is zero).
    pub fn from_bytes_be(bytes: Vec<u8>) -> (r: BigNum)
        ensures
            r@ == be_value(bytes@),
    {
        BigNum { bytes }
    }

    /// Big-endian bytes of the number.
    pub fn to_bytes_be(&self) -> (r: Vec<u8>)
        ensures
            be_value(r@) == self@,
    {
        self.bytes.clone()
    }

    /// The number `v`.
    pub fn from_u32(v: u32) -> (r: BigNum)
        ensures
            r@ == v as nat,
    {
        let b0: u8 = (v / 16777216) as u8;
        let b1: u8 = ((v / 65536) % 256) as u8;
        let b2: u8 = ((v / 256) % 256) as u8;
        let b3: u8 = (v % 256) as u8;
        let bytes = vec![b0, b1, b2, b3];
        proof {
            let s = bytes@;
            assert(s.drop_last().drop_last().drop_last().drop_last() =~= Seq::<u8>::empty());
            assert(s.drop_last().drop_last().drop_last() =~= seq![b0]);
            assert(s.drop_last().drop_last() =~= seq![b0, b1]);
            assert(s.drop_last() =~= seq![b0, b1, b2]);
            reveal_with_fuel(be_value, 5);
            assert(be_value(s) == (((b0 as nat * 256 + b1 as nat) * 256 + b2 as nat) * 256
                + b3 as nat));
            assert((((v / 16777216) * 256 + (v / 65536) % 256) * 256 + (v / 256) % 256) * 256 + v
                % 256 == v) by (nonlinear_arith);
        }
        BigNum { bytes }
    }

    /// A copy of the number.
    pub fn duplicate(&self) -> (r: BigNum)
        ensures
            r@ == self@,
    {
        BigNum { bytes: self.bytes.clone() }
    }
}

impl PartialEq for BigNum {
    fn eq(&self, other: &BigNum) -> (r: bool) {
        big_eq(self, other)
    }
}

impl vstd::std_specs::cmp::PartialEqSpecImpl for BigNum {
    open spec fn obeys_eq_spec() -> bool {
        true
    }

    open spec fn eq_spec(&self, other: &BigNum) -> bool {
        self@ == other@
    }
}

/// Relies on `BigUint::modpow`: `(self ^ exponent) % modulus`; it panics on a
/// zero modulus.
#[verifier::external_body]
pub(crate) fn big_mod_pow(b: &BigNum, e: &BigNum, m: &BigNum) -> (r: BigNum)
    requires
        m@ > 1,
    ensures
        r@ == pow(b@ as int, e@) % (m@ as int),
{
    let base = BigUint::from_bytes_be(&b.bytes);
    let exp = BigUint::from_bytes_be(&e.bytes);
    let modulus = BigUint::from_bytes_be(&m.bytes);
    BigNum { bytes: base.modpow(&exp, &modulus).to_bytes_be() }
}

/// Relies on `Mul` for `&BigUint`: the exact product.
#[verifier::external_body]
pub(crate) fn big_mul(a: &BigNum, b: &BigNum) -> (r: BigNum)
    ensures
        r@ == a@ * b@,
{
    let x = BigUint::from_bytes_be(&a.bytes);
    let y = BigUint::from_bytes_be(&b.bytes);
    BigNum { bytes: (&x * &y).to_bytes_be() }
}

/// Relies on `Sub` for `&BigUint`: the exact difference; it panics when the
/// result would be negative.
#[verifier::external_body]
pub(crate) fn big_sub(a: &BigNum, b: &BigNum) -> (r: BigNum)
    requires
        a@ >= b@,
    ensures
        r@ == a@ - b@,
{
    let x = BigUint::from_bytes_be(&a.bytes);
    let y = BigUint::from_bytes_be(&b.bytes);
    BigNum { bytes: (&x - &y).to_bytes_be() }
}

/// Relies on `Rem` for `&BigUint`: the remainder of the division; it panics on
/// a zero divisor.
#[verifier::external_body]
pub(crate) fn big_rem(a: &BigNum, m: &BigNum) -> (r: BigNum)
    requires
        m@ > 0,
    ensures
        r@ == a@ % m@,
{
    let x = BigUint::from_bytes_be(&a.bytes);
    let y = BigUint::from_bytes_be(&m.bytes);
    BigNum { bytes: (&x % &y).to_bytes_be() }
}

/// Relies on `PartialOrd::ge` for `BigUint`: numeric order.
#[verifier::external_body]
pub(crate) fn big_ge(a: &BigNum, b: &BigNum) -> (r: bool)
    ensures
        r == (a@ >= b@),
{
    BigUint::from_bytes_be(&a.bytes) >= BigUint::from_bytes_be(&b.bytes)
}

/// Relies on `PartialEq::eq` for `BigUint`: numeric equality, whatever the
/// leading zero bytes.
#[verifier::external_body]
pub(crate) fn big_eq(a: &BigNum, b: &BigNum) -> (r: bool)
    ensures
        r == (a@ == b@),
{
    BigUint::from_bytes_be(&a.bytes) == BigUint::from_bytes_be(&b.bytes)
}

/// Relies on `RandBigInt::gen_biguint_below` on `rand::thread_rng()`: a value
/// below the bound; it panics on a zero bound.
#[verifier::external_body]
pub(crate) fn random_below(bound: &BigNum) -> (r: BigNum)
    requires
        bound@ > 0,
    ensures
        r@ < bound@,
{
    let b = BigUint::from_bytes_be(&bound.bytes);
    BigNum { bytes: rand::thread_rng().gen_biguint_below(&b).to_bytes_be() }
}

} // verus!
