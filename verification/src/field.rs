//! Elements of the Pallas base field.
//!
//! An element is kept as the four little-endian 64-bit limbs of its canonical
//! representative, and its view is the natural number below the modulus that
//! it stands for. Addition, subtraction, multiplication and inversion are done
//! by `pasta_curves`; everything else is computed here.

use ff::Field;
use ff::PrimeField;
use halo2_proofs::pasta::Fp as PastaFp;
use vstd::prelude::*;

verus! {

/// The order of the field:
/// `0x40000000000000000000000000000000224698fc094cf91b992d30ed00000001`.
pub open spec fn modulus() -> nat {
    0x40000000000000000000000000000000224698fc094cf91b992d30ed00000001nat
}

/// `a + b` in the field.
pub open spec fn add_mod(a: nat, b: nat) -> nat {
    (a + b) % modulus()
}

/// `a - b` in the field.
pub open spec fn sub_mod(a: nat, b: nat) -> nat {
    ((a as int - b as int) % (modulus() as int)) as nat
}

/// `a * b` in the field.
pub open spec fn mul_mod(a: nat, b: nat) -> nat {
    (a * b) % modulus()
}

/// `-a` in the field.
pub open spec fn neg_mod(a: nat) -> nat {
    sub_mod(0, a)
}

/// The inverse of `a` in the field, where `a` has one: the number below the
/// modulus whose product with `a` is one.
pub open spec fn inv_mod(a: nat) -> nat {
    choose|x: nat| x < modulus() && mul_mod(a, x) == 1
}

/// An element of the field has at most one inverse.
pub proof fn lemma_inverse_unique(a: nat, x: nat, y: nat)
    requires
        x < modulus(),
        y < modulus(),
        mul_mod(a, x) == 1,
        mul_mod(a, y) == 1,
    ensures
        x == y,
{
    let p = modulus() as int;
    let (a, x, y) = (a as int, x as int, y as int);
    vstd::arithmetic::div_mod::lemma_small_mod(x as nat, p as nat);
    vstd::arithmetic::div_mod::lemma_small_mod(y as nat, p as nat);
    assert((x * ((a * y) % p)) % p == (x * (a * y)) % p) by {
        vstd::arithmetic::div_mod::lemma_mul_mod_noop_right(x, a * y, p);
    }
    assert(x * (a * y) == (a * x) * y) by (nonlinear_arith);
    assert((((a * x) % p) * y) % p == ((a * x) * y) % p) by {
        vstd::arithmetic::div_mod::lemma_mul_mod_noop_left(a * x, y, p);
    }
    assert(x * 1 == x && 1 * y == y);
}

/// The sums, differences and products of the field lie below the modulus.
pub proof fn lemma_results_bounded(a: nat, b: nat)
    ensures
        add_mod(a, b) < modulus(),
        sub_mod(a, b) < modulus(),
        mul_mod(a, b) < modulus(),
        neg_mod(a) < modulus(),
{
    vstd::arithmetic::div_mod::lemma_mod_bound((a + b) as int, modulus() as int);
    vstd::arithmetic::div_mod::lemma_mod_bound(a as int - b as int, modulus() as int);
    vstd::arithmetic::div_mod::lemma_mod_bound(0 - a as int, modulus() as int);
    assert(a * b >= 0) by (nonlinear_arith);
    vstd::arithmetic::div_mod::lemma_mod_bound((a * b) as int, modulus() as int);
}

/// A product with zero is zero.
pub proof fn lemma_mul_zero(a: nat)
    ensures
        mul_mod(0, a) == 0,
        mul_mod(a, 0) == 0,
{
    assert(0 * a == 0 && a * 0 == 0) by (nonlinear_arith);
}

/// A product with one is the other factor.
pub proof fn lemma_mul_one(a: nat)
    requires
        a < modulus(),
    ensures
        mul_mod(1, a) == a,
        mul_mod(a, 1) == a,
{
    assert(1 * a == a && a * 1 == a) by (nonlinear_arith);
    vstd::arithmetic::div_mod::lemma_small_mod(a, modulus());
}

/// Multiplication in the field is commutative.
pub proof fn lemma_mul_commutes(a: nat, b: nat)
    ensures
        mul_mod(a, b) == mul_mod(b, a),
{
    assert(a * b == b * a) by (nonlinear_arith);
}

/// Multiplication in the field is associative.
pub proof fn lemma_mul_associates(a: nat, b: nat, c: nat)
    ensures
        mul_mod(mul_mod(a, b), c) == mul_mod(a, mul_mod(b, c)),
{
    let p = modulus() as int;
    let (x, y, z) = (a as int, b as int, c as int);
    vstd::arithmetic::div_mod::lemma_mul_mod_noop_left(x * y, z, p);
    vstd::arithmetic::div_mod::lemma_mul_mod_noop_right(x, y * z, p);
    assert((x * y) * z == x * (y * z)) by (nonlinear_arith);
}

/// Adding the negation of `b` subtracts `b`.
pub proof fn lemma_add_neg(a: nat, b: nat)
    ensures
        add_mod(a, neg_mod(b)) == sub_mod(a, b),
{
    let p = modulus() as int;
    vstd::arithmetic::div_mod::lemma_add_mod_noop_right(a as int, 0 - b as int, p);
}

/// A difference is zero exactly when the two elements are the same.
pub proof fn lemma_sub_zero(a: nat, b: nat)
    requires
        a < modulus(),
        b < modulus(),
    ensures
        sub_mod(a, b) == 0 <==> a == b,
{
    let p = modulus() as int;
    let d = a as int - b as int;
    if d > 0 {
        vstd::arithmetic::div_mod::lemma_small_mod(d as nat, p as nat);
    } else if d < 0 {
        vstd::arithmetic::div_mod::lemma_mod_add_multiples_vanish(d, p);
        vstd::arithmetic::div_mod::lemma_small_mod((d + p) as nat, p as nat);
    }
}

/// The number that four 64-bit limbs stand for, least significant limb first.
pub open spec fn limbs_value(l0: u64, l1: u64, l2: u64, l3: u64) -> nat {
    (l0 as nat) + (l1 as nat) * 0x1_0000_0000_0000_0000nat + (l2 as nat)
        * 0x1_0000_0000_0000_0000_0000_0000_0000_0000nat + (l3 as nat)
        * 0x1_0000_0000_0000_0000_0000_0000_0000_0000_0000_0000_0000_0000nat
}

/// The number that the eight bytes of `s` from position `k` on stand for,
/// least significant byte first.
pub open spec fn le_limb(s: Seq<u8>, k: int) -> nat {
    (s[k] as nat) + (s[k + 1] as nat) * 0x100nat + (s[k + 2] as nat) * 0x1_0000nat + (s[k
        + 3] as nat) * 0x100_0000nat + (s[k + 4] as nat) * 0x1_0000_0000nat + (s[k + 5] as nat)
        * 0x100_0000_0000nat + (s[k + 6] as nat) * 0x1_0000_0000_0000nat + (s[k + 7] as nat)
        * 0x100_0000_0000_0000nat
}

/// The number that 32 bytes stand for, least significant byte first.
pub open spec fn le_bytes_value(s: Seq<u8>) -> nat {
    le_limb(s, 0) + le_limb(s, 8) * 0x1_0000_0000_0000_0000nat + le_limb(s, 16)
        * 0x1_0000_0000_0000_0000_0000_0000_0000_0000nat + le_limb(s, 24)
        * 0x1_0000_0000_0000_0000_0000_0000_0000_0000_0000_0000_0000_0000nat
}

/// An element of the field, in canonical form.
#[derive(Clone, Copy, Debug, PartialEq, Eq, Structural)]
pub struct Fp {
    l0: u64,
    l1: u64,
    l2: u64,
    l3: u64,
}

impl View for Fp {
    type V = nat;

    /// The natural number that the element stands for.
    closed spec fn view(&self) -> nat {
        limbs_value(self.l0, self.l1, self.l2, self.l3)
    }
}

/// Calls `Add::add` of `pasta_curves::Fp` on the elements congruent to `a`
/// and `b` (`Fp::from_raw`) and hands back the canonical little-endian bytes
/// of the result (`PrimeField::to_repr`): those of `a + b` modulo the field's
/// order.
#[verifier::external_body]
fn pasta_add(a: &Fp, b: &Fp) -> (r: [u8; 32])
    ensures
        le_bytes_value(r@) == add_mod(a@, b@),
{
    let x = PastaFp::from_raw([a.l0, a.l1, a.l2, a.l3]);
    let y = PastaFp::from_raw([b.l0, b.l1, b.l2, b.l3]);
    (x + y).to_repr()
}

/// Calls `Sub::sub` of `pasta_curves::Fp` in the same way: the bytes are
/// those of `a - b` modulo the field's order.
#[verifier::external_body]
fn pasta_sub(a: &Fp, b: &Fp) -> (r: [u8; 32])
    ensures
        le_bytes_value(r@) == sub_mod(a@, b@),
{
    let x = PastaFp::from_raw([a.l0, a.l1, a.l2, a.l3]);
    let y = PastaFp::from_raw([b.l0, b.l1, b.l2, b.l3]);
    (x - y).to_repr()
}

/// Calls `Mul::mul` of `pasta_curves::Fp` in the same way: the bytes are
/// those of `a * b` modulo the field's order.
#[verifier::external_body]
fn pasta_mul(a: &Fp, b: &Fp) -> (r: [u8; 32])
    ensures
        le_bytes_value(r@) == mul_mod(a@, b@),
{
    let x = PastaFp::from_raw([a.l0, a.l1, a.l2, a.l3]);
    let y = PastaFp::from_raw([b.l0, b.l1, b.l2, b.l3]);
    (x * y).to_repr()
}

/// Calls `Field::invert` of `pasta_curves::Fp` on the element congruent to
/// `a`. It has no result exactly when that element is zero; otherwise the
/// bytes are canonical and their product with `a` is one in the field.
#[verifier::external_body]
fn pasta_invert(a: &Fp) -> (r: Option<[u8; 32]>)
    ensures
        r is None <==> a@ % modulus() == 0,
        r matches Some(bytes) ==> le_bytes_value(bytes@) < modulus() && mul_mod(
            a@,
            le_bytes_value(bytes@),
        ) == 1,
{
    let inverse: Option<PastaFp> = PastaFp::from_raw([a.l0, a.l1, a.l2, a.l3]).invert().into();
    match inverse {
        Some(x) => Some(x.to_repr()),
        None => None,
    }
}

/// A number has one lowest digit to the base `2^64`, and one rest.
proof fn lemma_digits(digit_a: int, rest_a: int, digit_b: int, rest_b: int)
    requires
        0 <= digit_a < 0x1_0000_0000_0000_0000,
        0 <= digit_b < 0x1_0000_0000_0000_0000,
        digit_a + 0x1_0000_0000_0000_0000 * rest_a == digit_b + 0x1_0000_0000_0000_0000 * rest_b,
    ensures
        digit_a == digit_b,
        rest_a == rest_b,
{
    if rest_a < rest_b {
        assert(0x1_0000_0000_0000_0000 * rest_a + 0x1_0000_0000_0000_0000
            <= 0x1_0000_0000_0000_0000 * rest_b);
    } else if rest_b < rest_a {
        assert(0x1_0000_0000_0000_0000 * rest_b + 0x1_0000_0000_0000_0000
            <= 0x1_0000_0000_0000_0000 * rest_a);
    }
}

/// The limb that the eight bytes from position `k` on hold.
fn limb_at(bytes: &[u8; 32], k: usize) -> (r: u64)
    requires
        k + 8 <= 32,
    ensures
        r == le_limb(bytes@, k as int),
{
    (bytes[k] as u64) + (bytes[k + 1] as u64) * 0x100u64 + (bytes[k + 2] as u64) * 0x1_0000u64
        + (bytes[k + 3] as u64) * 0x100_0000u64 + (bytes[k + 4] as u64) * 0x1_0000_0000u64
        + (bytes[k + 5] as u64) * 0x100_0000_0000u64 + (bytes[k + 6] as u64)
        * 0x1_0000_0000_0000u64 + (bytes[k + 7] as u64) * 0x100_0000_0000_0000u64
}

impl Fp {
    /// Every element is kept as its representative below the modulus.
    #[verifier::type_invariant]
    pub open spec fn canonical(self) -> bool {
        self@ < modulus()
    }

    /// A canonical element stands for a number below the modulus. Every
    /// element that the functions of this module hand out is canonical.
    pub proof fn lemma_canonical(x: Fp)
        requires
            x.canonical(),
        ensures
            x@ < modulus(),
    {
    }

    /// Two elements with the same view are the same element.
    pub proof fn lemma_view_injective(a: Fp, b: Fp)
        requires
            a@ == b@,
        ensures
            a == b,
    {
        let base = 0x1_0000_0000_0000_0000int;
        let high_a = a.l1 as int + base * (a.l2 as int + base * (a.l3 as int));
        let high_b = b.l1 as int + base * (b.l2 as int + base * (b.l3 as int));
        assert(a@ == a.l0 as int + base * high_a);
        assert(b@ == b.l0 as int + base * high_b);
        lemma_digits(a.l0 as int, high_a, b.l0 as int, high_b);
        lemma_digits(
            a.l1 as int,
            a.l2 as int + base * (a.l3 as int),
            b.l1 as int,
            b.l2 as int + base * (b.l3 as int),
        );
        lemma_digits(a.l2 as int, a.l3 as int, b.l2 as int, b.l3 as int);
    }

    /// The element that canonical bytes stand for.
    fn from_canonical_bytes(bytes: &[u8; 32]) -> (r: Fp)
        requires
            le_bytes_value(bytes@) < modulus(),
        ensures
            r@ == le_bytes_value(bytes@),
    {
        Fp {
            l0: limb_at(bytes, 0),
            l1: limb_at(bytes, 8),
            l2: limb_at(bytes, 16),
            l3: limb_at(bytes, 24),
        }
    }

    /// The additive identity.
    pub fn zero() -> (r: Fp)
        ensures
            r@ == 0,
            r.canonical(),
    {
        Fp { l0: 0, l1: 0, l2: 0, l3: 0 }
    }

    /// The multiplicative identity.
    pub fn one() -> (r: Fp)
        ensures
            r@ == 1,
            r.canonical(),
    {
        Fp { l0: 1, l1: 0, l2: 0, l3: 0 }
    }

    /// The element that stands for `x`.
    pub fn from_u64(x: u64) -> (r: Fp)
        ensures
            r@ == x,
            r.canonical(),
    {
        Fp { l0: x, l1: 0, l2: 0, l3: 0 }
    }

    /// The element that stands for `x`.
    pub fn from_u128(x: u128) -> (r: Fp)
        ensures
            r@ == x,
            r.canonical(),
    {
        let low: u64 = (x % 0x1_0000_0000_0000_0000u128) as u64;
        let high: u64 = (x / 0x1_0000_0000_0000_0000u128) as u64;
        Fp { l0: low, l1: high, l2: 0, l3: 0 }
    }

    /// The four limbs of the element's canonical representative, least
    /// significant first.
    pub fn to_limbs(&self) -> (r: [u64; 4])
        ensures
            limbs_value(r[0], r[1], r[2], r[3]) == self@,
            self.canonical(),
    {
        proof {
            use_type_invariant(self);
        }
        [self.l0, self.l1, self.l2, self.l3]
    }

    /// The element that four limbs stand for, least significant first, if
    /// they stand for a number below the modulus.
    pub fn from_limbs(limbs: [u64; 4]) -> (r: Option<Fp>)
        ensures
            match r {
                Some(x) => x@ == limbs_value(limbs[0], limbs[1], limbs[2], limbs[3])
                    && x.canonical(),
                None => limbs_value(limbs[0], limbs[1], limbs[2], limbs[3]) >= modulus(),
            },
    {
        let (l0, l1, l2, l3) = (limbs[0], limbs[1], limbs[2], limbs[3]);
        let below = l3 < 0x4000_0000_0000_0000 || (l3 == 0x4000_0000_0000_0000 && l2 == 0 && (l1
            < 0x2246_98fc_094c_f91b || (l1 == 0x2246_98fc_094c_f91b && l0
            < 0x992d_30ed_0000_0001)));
        if below {
            Some(Fp { l0, l1, l2, l3 })
        } else {
            None
        }
    }

    /// Whether this is the additive identity.
    pub fn is_zero(&self) -> (r: bool)
        ensures
            r == (self@ == 0),
    {
        self.l0 == 0 && self.l1 == 0 && self.l2 == 0 && self.l3 == 0
    }

    /// Whether the two elements are the same element of the field.
    pub fn equals(&self, other: &Fp) -> (r: bool)
        ensures
            r == (self@ == other@),
            r == (*self == *other),
    {
        proof {
            if self@ == other@ {
                Fp::lemma_view_injective(*self, *other);
            }
        }
        self.l0 == other.l0 && self.l1 == other.l1 && self.l2 == other.l2 && self.l3 == other.l3
    }

    /// The sum of the two elements.
    pub fn add(&self, rhs: &Fp) -> (r: Fp)
        ensures
            r@ == add_mod(self@, rhs@),
            r.canonical(),
    {
        if self.is_zero() {
            proof {
                use_type_invariant(rhs);
            }
            *rhs
        } else if rhs.is_zero() {
            proof {
                use_type_invariant(self);
            }
            *self
        } else {
            let bytes = pasta_add(self, rhs);
            Fp::from_canonical_bytes(&bytes)
        }
    }

    /// The difference of the two elements.
    pub fn sub(&self, rhs: &Fp) -> (r: Fp)
        ensures
            r@ == sub_mod(self@, rhs@),
            r.canonical(),
    {
        if rhs.is_zero() {
            proof {
                use_type_invariant(self);
                vstd::arithmetic::div_mod::lemma_small_mod(self@, modulus());
            }
            *self
        } else {
            let bytes = pasta_sub(self, rhs);
            Fp::from_canonical_bytes(&bytes)
        }
    }

    /// The product of the two elements.
    pub fn mul(&self, rhs: &Fp) -> (r: Fp)
        ensures
            r@ == mul_mod(self@, rhs@),
            r.canonical(),
    {
        if self.is_zero() || rhs.is_zero() {
            assert(self@ * rhs@ == 0) by (nonlinear_arith)
                requires
                    self@ == 0 || rhs@ == 0,
            ;
            Fp::zero()
        } else {
            let bytes = pasta_mul(self, rhs);
            Fp::from_canonical_bytes(&bytes)
        }
    }

    /// The additive inverse of the element.
    pub fn neg(&self) -> (r: Fp)
        ensures
            r@ == neg_mod(self@),
            r.canonical(),
    {
        Fp::zero().sub(self)
    }

    /// The multiplicative inverse of the element, which zero alone lacks.
    pub fn invert(&self) -> (r: Option<Fp>)
        ensures
            match r {
                Some(inverse) => self@ != 0 && inverse.canonical() && inverse@ == inv_mod(self@) && mul_mod(
                    self@,
                    inverse@,
                ) == 1,
                None => self@ == 0,
            },
    {
        proof {
            use_type_invariant(self);
            vstd::arithmetic::div_mod::lemma_small_mod(self@, modulus());
        }
        match pasta_invert(self) {
            Some(bytes) => {
                let inverse = Fp::from_canonical_bytes(&bytes);
                proof {
                    let other = inv_mod(self@);
                    assert(inverse@ < modulus() && mul_mod(self@, inverse@) == 1);
                    lemma_inverse_unique(self@, inverse@, other);
                }
                Some(inverse)
            },
            None => None,
        }
    }
}

} // verus!
