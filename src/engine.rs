//! The proof engine: domain parameters of a prime-order subgroup of the
//! integers modulo a prime, and the three operations of the Chaum–Pedersen
//! protocol (commitment by modular exponentiation, response, verification),
//! with the random draws the protocol needs.
use crate::bignum::{
    be_value, big_eq, big_ge, big_mod_pow, big_mul, big_rem, big_sub, random_below, BigNum,
};
use rand::distributions::{Alphanumeric, DistString};
use vstd::arithmetic::div_mod::{
    lemma_fundamental_div_mod, lemma_mod_multiples_basic, lemma_mod_multiples_vanish,
    lemma_mod_pos_bound, lemma_mul_mod_noop, lemma_small_mod,
};
use vstd::arithmetic::power::pow;
use vstd::prelude::*;

verus! {

/// The public description of the group, as numbers.
pub struct Params {
    pub p: nat,
    pub q: nat,
    pub alpha: nat,
    pub beta: nat,
}

/// `g^e mod p`: a commitment to the exponent `e`.
pub open spec fn commit(g: nat, e: nat, p: nat) -> int {
    pow(g as int, e) % (p as int)
}

/// The response `(k - c·x) mod q`, taken in `[0, q)` also where `c·x > k`.
pub open spec fn solve_value(k: nat, c: nat, x: nat, q: nat) -> int {
    (k - c * x) % (q as int)
}

/// The verifier's test: `r1 = alpha^s · y1^c mod p` and `r2 = beta^s · y2^c mod p`.
pub open spec fn accepts(g: Params, r1: nat, r2: nat, y1: nat, y2: nat, c: nat, s: nat) -> bool {
    &&& r1 == (pow(g.alpha as int, s) * pow(y1 as int, c)) % (g.p as int)
    &&& r2 == (pow(g.beta as int, s) * pow(y2 as int, c)) % (g.p as int)
}

/// What the domain parameters must satisfy to be usable: a modulus above one,
/// a positive subgroup order dividing `p - 1`, and both generators of an order
/// that divides `q`.
pub open spec fn usable(g: Params) -> bool {
    &&& g.p > 1
    &&& g.q > 0
    &&& (g.p - 1) % (g.q as int) == 0
    &&& commit(g.alpha, g.q, g.p) == 1
    &&& commit(g.beta, g.q, g.p) == 1
}

/// The documented group invariant: `alpha` and `beta` both generate the
/// subgroup of order exactly `q`.
pub open spec fn generates_order_q(g: Params) -> bool {
    &&& usable(g)
    &&& forall|e: nat| 0 < e < g.q ==> #[trigger] commit(g.alpha, e, g.p) != 1
    &&& forall|e: nat| 0 < e < g.q ==> #[trigger] commit(g.beta, e, g.p) != 1
}

/// A character of a random token: an ASCII letter or digit.
pub open spec fn is_token_char(ch: char) -> bool {
    ('a' <= ch && ch <= 'z') || ('A' <= ch && ch <= 'Z') || ('0' <= ch && ch <= '9')
}

/// Bytes of the prime modulus, 1024 bits.
pub open spec fn group_p_bytes() -> Seq<u8> {
    seq![
        0xb1, 0x0b, 0x8f, 0x96, 0xa0, 0x80, 0xe0, 0x1d, 0xde, 0x92, 0xde, 0x5e, 0xae, 0x5d,
        0x54, 0xec, 0x52, 0xc9, 0x9f, 0xbc, 0xfb, 0x06, 0xa3, 0xc6, 0x9a, 0x6a, 0x9d, 0xca,
        0x52, 0xd2, 0x3b, 0x61, 0x60, 0x73, 0xe2, 0x86, 0x75, 0xa2, 0x3d, 0x18, 0x98, 0x38,
        0xef, 0x1e, 0x2e, 0xe6, 0x52, 0xc0, 0x13, 0xec, 0xb4, 0xae, 0xa9, 0x06, 0x11, 0x23,
        0x24, 0x97, 0x5c, 0x3c, 0xd4, 0x9b, 0x83, 0xbf, 0xac, 0xcb, 0xdd, 0x7d, 0x90, 0xc4,
        0xbd, 0x70, 0x98, 0x48, 0x8e, 0x9c, 0x21, 0x9a, 0x73, 0x72, 0x4e, 0xff, 0xd6, 0xfa,
        0xe5, 0x64, 0x47, 0x38, 0xfa, 0xa3, 0x1a, 0x4f, 0xf5, 0x5b, 0xcc, 0xc0, 0xa1, 0x51,
        0xaf, 0x5f, 0x0d, 0xc8, 0xb4, 0xbd, 0x45, 0xbf, 0x37, 0xdf, 0x36, 0x5c, 0x1a, 0x65,
        0xe6, 0x8c, 0xfd, 0xa7, 0x6d, 0x4d, 0xa7, 0x08, 0xdf, 0x1f, 0xb2, 0xbc, 0x2e, 0x4a,
        0x43, 0x71
    ]
}

/// Bytes of the order of the subgroup, 160 bits.
pub open spec fn group_q_bytes() -> Seq<u8> {
    seq![
        0xf5, 0x18, 0xaa, 0x87, 0x81, 0xa8, 0xdf, 0x27, 0x8a, 0xba, 0x4e, 0x7d, 0x64, 0xb7,
        0xcb, 0x9d, 0x49, 0x46, 0x23, 0x53
    ]
}

/// Bytes of the generator `alpha`.
pub open spec fn group_alpha_bytes() -> Seq<u8> {
    seq![
        0xa4, 0xd1, 0xcb, 0xd5, 0xc3, 0xfd, 0x34, 0x12, 0x67, 0x65, 0xa4, 0x42, 0xef, 0xb9,
        0x99, 0x05, 0xf8, 0x10, 0x4d, 0xd2, 0x58, 0xac, 0x50, 0x7f, 0xd6, 0x40, 0x6c, 0xff,
        0x14, 0x26, 0x6d, 0x31, 0x26, 0x6f, 0xea, 0x1e, 0x5c, 0x41, 0x56, 0x4b, 0x77, 0x7e,
        0x69, 0x0f, 0x55, 0x04, 0xf2, 0x13, 0x16, 0x02, 0x17, 0xb4, 0xb0, 0x1b, 0x88, 0x6a,
        0x5e, 0x91, 0x54, 0x7f, 0x9e, 0x27, 0x49, 0xf4, 0xd7, 0xfb, 0xd7, 0xd3, 0xb9, 0xa9,
        0x2e, 0xe1, 0x90, 0x9d, 0x0d, 0x22, 0x63, 0xf8, 0x0a, 0x76, 0xa6, 0xa2, 0x4c, 0x08,
        0x7a, 0x09, 0x1f, 0x53, 0x1d, 0xbf, 0x0a, 0x01, 0x69, 0xb6, 0xa2, 0x8a, 0xd6, 0x62,
        0xa4, 0xd1, 0x8e, 0x73, 0xaf, 0xa3, 0x2d, 0x77, 0x9d, 0x59, 0x18, 0xd0, 0x8b, 0xc8,
        0x85, 0x8f, 0x4d, 0xce, 0xf9, 0x7c, 0x2a, 0x24, 0x85, 0x5e, 0x6e, 0xeb, 0x22, 0xb3,
        0xb2, 0xe5
    ]
}

/// Bytes of the second generator `beta = alpha^r mod p`, for an `r` that was drawn at random and discarded.
pub open spec fn group_beta_bytes() -> Seq<u8> {
    seq![
        0x6a, 0x26, 0xd6, 0x42, 0x07, 0x9f, 0x04, 0x26, 0x91, 0x28, 0xf5, 0xa1, 0x5b, 0xc9,
        0x9f, 0x90, 0x01, 0x45, 0xee, 0x16, 0x28, 0xea, 0x29, 0xbb, 0xfc, 0x25, 0x7c, 0x2b,
        0x5f, 0xe6, 0x01, 0x07, 0xde, 0x10, 0x30, 0x0f, 0xa3, 0x7a, 0x10, 0xdf, 0xba, 0xbb,
        0x33, 0xe1, 0x20, 0x8c, 0x45, 0x8c, 0x93, 0xd7, 0x7f, 0xbc, 0x2a, 0x32, 0x44, 0x4e,
        0xb1, 0x38, 0x72, 0x45, 0xfb, 0x54, 0x9d, 0x4c, 0xb2, 0xda, 0xb9, 0x90, 0x6d, 0x40,
        0x15, 0xef, 0x38, 0x26, 0x90, 0x1e, 0x51, 0x45, 0x9a, 0x41, 0x19, 0x4d, 0x5e, 0xee,
        0x67, 0x8e, 0x20, 0x9d, 0xdb, 0xcc, 0xbd, 0x9a, 0xde, 0x1e, 0xf1, 0xb5, 0x58, 0x25,
        0x83, 0xfd, 0x57, 0x94, 0xc6, 0x56, 0x18, 0xd2, 0xbd, 0x95, 0xb6, 0x09, 0x70, 0x04,
        0x91, 0xe4, 0x36, 0xaa, 0x88, 0x0a, 0xaa, 0x90, 0x4f, 0x1c, 0xe4, 0xab, 0xc7, 0x2b,
        0x05, 0x10
    ]
}

/// The domain parameters `p` (prime modulus), `q` (subgroup order) and the
/// two generators `alpha`, `beta`.
pub struct ZKP {
    p: BigNum,
    q: BigNum,
    alpha: BigNum,
    beta: BigNum,
}

impl View for ZKP {
    type V = Params;

    closed spec fn view(&self) -> Params {
        Params { p: self.p@, q: self.q@, alpha: self.alpha@, beta: self.beta@ }
    }
}

/// Relies on `DistString::sample_string` of `rand::distributions::Alphanumeric`
/// on `rand::thread_rng()`: `len` characters drawn from `A-Z`, `a-z`, `0-9`.
#[verifier::external_body]
fn random_alphanumeric(len: usize) -> (r: String)
    ensures
        r@.len() == len,
        forall|i: int| 0 <= i < len ==> is_token_char(#[trigger] r@[i]),
{
    Alphanumeric.sample_string(&mut rand::thread_rng(), len)
}

/// `-a mod q`, for a positive `a`, in terms of `a mod q`.
proof fn lemma_mod_of_negative(a: int, q: int)
    requires
        a > 0,
        q > 0,
    ensures
        (-a) % q == if a % q == 0 {
            0
        } else {
            q - a % q
        },
{
    let t = a / q;
    let d = a % q;
    lemma_fundamental_div_mod(a, q);
    assert(a == q * t + d);
    if d == 0 {
        assert(-a == (-t) * q) by (nonlinear_arith)
            requires
                a == q * t + d,
                d == 0,
        ;
        lemma_mod_multiples_basic(-t, q);
    } else {
        assert(-a == q * (-t - 1) + (q - d)) by (nonlinear_arith)
            requires
                a == q * t + d,
        ;
        lemma_mod_multiples_vanish(-t - 1, q - d, q);
        lemma_mod_pos_bound(a, q);
        lemma_small_mod((q - d) as nat, q as nat);
    }
}

impl ZKP {
    /// Holds of every value of the type: what the operations need not to fail.
    pub open spec fn wf(&self) -> bool {
        self@.p > 1 && self@.q > 0
    }

    /// The published domain parameters, in the order `(alpha, beta, p, q)`:
    /// the 1024-bit MODP group with a 160-bit prime-order subgroup of RFC 5114
    /// (section 2.1), with a second generator of that subgroup.
    pub fn get_constants() -> (r: (BigNum, BigNum, BigNum, BigNum))
        ensures
            r.0@ == be_value(group_alpha_bytes()),
            r.1@ == be_value(group_beta_bytes()),
            r.2@ == be_value(group_p_bytes()),
            r.3@ == be_value(group_q_bytes()),
    {
        let alpha_bytes: Vec<u8> = vec![
            0xa4, 0xd1, 0xcb, 0xd5, 0xc3, 0xfd, 0x34, 0x12, 0x67, 0x65, 0xa4, 0x42,
            0xef, 0xb9, 0x99, 0x05, 0xf8, 0x10, 0x4d, 0xd2, 0x58, 0xac, 0x50, 0x7f,
            0xd6, 0x40, 0x6c, 0xff, 0x14, 0x26, 0x6d, 0x31, 0x26, 0x6f, 0xea, 0x1e,
            0x5c, 0x41, 0x56, 0x4b, 0x77, 0x7e, 0x69, 0x0f, 0x55, 0x04, 0xf2, 0x13,
            0x16, 0x02, 0x17, 0xb4, 0xb0, 0x1b, 0x88, 0x6a, 0x5e, 0x91, 0x54, 0x7f,
            0x9e, 0x27, 0x49, 0xf4, 0xd7, 0xfb, 0xd7, 0xd3, 0xb9, 0xa9, 0x2e, 0xe1,
            0x90, 0x9d, 0x0d, 0x22, 0x63, 0xf8, 0x0a, 0x76, 0xa6, 0xa2, 0x4c, 0x08,
            0x7a, 0x09, 0x1f, 0x53, 0x1d, 0xbf, 0x0a, 0x01, 0x69, 0xb6, 0xa2, 0x8a,
            0xd6, 0x62, 0xa4, 0xd1, 0x8e, 0x73, 0xaf, 0xa3, 0x2d, 0x77, 0x9d, 0x59,
            0x18, 0xd0, 0x8b, 0xc8, 0x85, 0x8f, 0x4d, 0xce, 0xf9, 0x7c, 0x2a, 0x24,
            0x85, 0x5e, 0x6e, 0xeb, 0x22, 0xb3, 0xb2, 0xe5
        ];
        assert(alpha_bytes@ =~= group_alpha_bytes());
        let beta_bytes: Vec<u8> = vec![
            0x6a, 0x26, 0xd6, 0x42, 0x07, 0x9f, 0x04, 0x26, 0x91, 0x28, 0xf5, 0xa1,
            0x5b, 0xc9, 0x9f, 0x90, 0x01, 0x45, 0xee, 0x16, 0x28, 0xea, 0x29, 0xbb,
            0xfc, 0x25, 0x7c, 0x2b, 0x5f, 0xe6, 0x01, 0x07, 0xde, 0x10, 0x30, 0x0f,
            0xa3, 0x7a, 0x10, 0xdf, 0xba, 0xbb, 0x33, 0xe1, 0x20, 0x8c, 0x45, 0x8c,
            0x93, 0xd7, 0x7f, 0xbc, 0x2a, 0x32, 0x44, 0x4e, 0xb1, 0x38, 0x72, 0x45,
            0xfb, 0x54, 0x9d, 0x4c, 0xb2, 0xda, 0xb9, 0x90, 0x6d, 0x40, 0x15, 0xef,
            0x38, 0x26, 0x90, 0x1e, 0x51, 0x45, 0x9a, 0x41, 0x19, 0x4d, 0x5e, 0xee,
            0x67, 0x8e, 0x20, 0x9d, 0xdb, 0xcc, 0xbd, 0x9a, 0xde, 0x1e, 0xf1, 0xb5,
            0x58, 0x25, 0x83, 0xfd, 0x57, 0x94, 0xc6, 0x56, 0x18, 0xd2, 0xbd, 0x95,
            0xb6, 0x09, 0x70, 0x04, 0x91, 0xe4, 0x36, 0xaa, 0x88, 0x0a, 0xaa, 0x90,
            0x4f, 0x1c, 0xe4, 0xab, 0xc7, 0x2b, 0x05, 0x10
        ];
        assert(beta_bytes@ =~= group_beta_bytes());
        let p_bytes: Vec<u8> = vec![
            0xb1, 0x0b, 0x8f, 0x96, 0xa0, 0x80, 0xe0, 0x1d, 0xde, 0x92, 0xde, 0x5e,
            0xae, 0x5d, 0x54, 0xec, 0x52, 0xc9, 0x9f, 0xbc, 0xfb, 0x06, 0xa3, 0xc6,
            0x9a, 0x6a, 0x9d, 0xca, 0x52, 0xd2, 0x3b, 0x61, 0x60, 0x73, 0xe2, 0x86,
            0x75, 0xa2, 0x3d, 0x18, 0x98, 0x38, 0xef, 0x1e, 0x2e, 0xe6, 0x52, 0xc0,
            0x13, 0xec, 0xb4, 0xae, 0xa9, 0x06, 0x11, 0x23, 0x24, 0x97, 0x5c, 0x3c,
            0xd4, 0x9b, 0x83, 0xbf, 0xac, 0xcb, 0xdd, 0x7d, 0x90, 0xc4, 0xbd, 0x70,
            0x98, 0x48, 0x8e, 0x9c, 0x21, 0x9a, 0x73, 0x72, 0x4e, 0xff, 0xd6, 0xfa,
            0xe5, 0x64, 0x47, 0x38, 0xfa, 0xa3, 0x1a, 0x4f, 0xf5, 0x5b, 0xcc, 0xc0,
            0xa1, 0x51, 0xaf, 0x5f, 0x0d, 0xc8, 0xb4, 0xbd, 0x45, 0xbf, 0x37, 0xdf,
            0x36, 0x5c, 0x1a, 0x65, 0xe6, 0x8c, 0xfd, 0xa7, 0x6d, 0x4d, 0xa7, 0x08,
            0xdf, 0x1f, 0xb2, 0xbc, 0x2e, 0x4a, 0x43, 0x71
        ];
        assert(p_bytes@ =~= group_p_bytes());
        let q_bytes: Vec<u8> = vec![
            0xf5, 0x18, 0xaa, 0x87, 0x81, 0xa8, 0xdf, 0x27, 0x8a, 0xba, 0x4e, 0x7d,
            0x64, 0xb7, 0xcb, 0x9d, 0x49, 0x46, 0x23, 0x53
        ];
        assert(q_bytes@ =~= group_q_bytes());
        (
            BigNum::from_bytes_be(alpha_bytes),
            BigNum::from_bytes_be(beta_bytes),
            BigNum::from_bytes_be(p_bytes),
            BigNum::from_bytes_be(q_bytes),
        )
    }

    /// The parameters `p, q, alpha, beta`, if they are usable.
    pub fn new(p: BigNum, q: BigNum, alpha: BigNum, beta: BigNum) -> (r: Option<ZKP>)
        ensures
            (r is Some) <==> usable((Params { p: p@, q: q@, alpha: alpha@, beta: beta@ })),
            r is Some ==> r->0@ == (Params { p: p@, q: q@, alpha: alpha@, beta: beta@ }),
    {
        let zero = BigNum::from_u32(0);
        let one = BigNum::from_u32(1);
        let two = BigNum::from_u32(2);
        if !big_ge(&p, &two) || big_eq(&q, &zero) {
            return None;
        }
        let p_minus_one = big_sub(&p, &one);
        let rest = big_rem(&p_minus_one, &q);
        if !big_eq(&rest, &zero) {
            return None;
        }
        let alpha_q = big_mod_pow(&alpha, &q, &p);
        let beta_q = big_mod_pow(&beta, &q, &p);
        if !big_eq(&alpha_q, &one) || !big_eq(&beta_q, &one) {
            return None;
        }
        Some(ZKP { p, q, alpha, beta })
    }

    /// The subgroup order `q`.
    pub fn order(&self) -> (r: BigNum)
        ensures
            r@ == self@.q,
    {
        self.q.duplicate()
    }

    /// `n^exp mod prime`.
    pub fn mod_exp(n: &BigNum, exp: &BigNum, prime: &BigNum) -> (r: BigNum)
        requires
            prime@ > 1,
        ensures
            r@ == commit(n@, exp@, prime@),
    {
        big_mod_pow(n, exp, prime)
    }

    /// The response `s = (k - c·x) mod q`, computed without negative
    /// intermediate values.
    pub fn solve(&self, k: &BigNum, c: &BigNum, x: &BigNum) -> (r: BigNum)
        requires
            self.wf(),
        ensures
            r@ == solve_value(k@, c@, x@, self@.q),
            r@ < self@.q,
    {
        let cx = big_mul(c, x);
        if big_ge(k, &cx) {
            let diff = big_sub(k, &cx);
            big_rem(&diff, &self.q)
        } else {
            let diff = big_sub(&cx, k);
            let d = big_rem(&diff, &self.q);
            proof {
                lemma_mod_of_negative(c@ * x@ - k@, self@.q as int);
                assert(k@ - c@ * x@ == -(c@ * x@ - k@));
            }
            let zero = BigNum::from_u32(0);
            if big_eq(&d, &zero) {
                d
            } else {
                big_sub(&self.q, &d)
            }
        }
    }

    /// Whether `r1 = alpha^s · y1^c mod p` and `r2 = beta^s · y2^c mod p`.
    pub fn verify(
        &self,
        r1: &BigNum,
        r2: &BigNum,
        y1: &BigNum,
        y2: &BigNum,
        c: &BigNum,
        s: &BigNum,
    ) -> (r: bool)
        requires
            self.wf(),
        ensures
            r == accepts(self@, r1@, r2@, y1@, y2@, c@, s@),
    {
        let a1 = big_mod_pow(&self.alpha, s, &self.p);
        let b1 = big_mod_pow(y1, c, &self.p);
        let m1 = big_mul(&a1, &b1);
        let t1 = big_rem(&m1, &self.p);
        let a2 = big_mod_pow(&self.beta, s, &self.p);
        let b2 = big_mod_pow(y2, c, &self.p);
        let m2 = big_mul(&a2, &b2);
        let t2 = big_rem(&m2, &self.p);
        proof {
            let p = self@.p as int;
            lemma_mul_mod_noop(pow(self@.alpha as int, s@), pow(y1@ as int, c@), p);
            lemma_mul_mod_noop(pow(self@.beta as int, s@), pow(y2@ as int, c@), p);
        }
        let condition_one = big_eq(r1, &t1);
        let condition_two = big_eq(r2, &t2);
        condition_one && condition_two
    }

    /// A value drawn uniformly from `[0, bound)`.
    pub fn gen_ran_below(bound: &BigNum) -> (r: BigNum)
        requires
            bound@ > 0,
        ensures
            r@ < bound@,
    {
        random_below(bound)
    }

    /// An unpredictable identifier of `len` ASCII letters and digits.
    pub fn gen_ran_str(len: usize) -> (r: String)
        ensures
            r@.len() == len,
            forall|i: int| 0 <= i < len ==> is_token_char(#[trigger] r@[i]),
    {
        random_alphanumeric(len)
    }
}

} // verus!
