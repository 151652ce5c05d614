//! Scalars: the values that fill trace cells and that constraints evaluate to.

use vstd::prelude::*;

verus! {

/// The modulus of the scalar field, `2^64 - 2^32 + 1`.
pub const MODULUS: u64 = 0xFFFF_FFFF_0000_0001;

/// An element of the integers modulo [`MODULUS`], held as its least
/// non-negative representative.
#[derive(Clone, Copy, Debug, PartialEq, Eq, Structural)]
pub struct Scalar {
    value: u64,
}

impl View for Scalar {
    type V = int;

    /// The representative of the element, as an integer.
    closed spec fn view(&self) -> int {
        self.value as int
    }
}

impl Scalar {
    /// Every scalar that executable code can hold is fully reduced.
    #[verifier::type_invariant]
    closed spec fn reduced(self) -> bool {
        self.value < MODULUS
    }

    /// The element whose representative is `value` reduced modulo [`MODULUS`].
    pub closed spec fn of(value: int) -> Scalar {
        Scalar { value: (value % (MODULUS as int)) as u64 }
    }

    /// The additive identity.
    pub open spec fn spec_zero() -> Scalar {
        Scalar::of(0)
    }

    /// The multiplicative identity.
    pub open spec fn spec_one() -> Scalar {
        Scalar::of(1)
    }

    /// The sum of two elements.
    pub open spec fn sum(self, other: Scalar) -> Scalar {
        Scalar::of(self@ + other@)
    }

    /// The product of two elements.
    pub open spec fn product(self, other: Scalar) -> Scalar {
        Scalar::of(self@ * other@)
    }

    /// The additive inverse of an element.
    pub open spec fn negation(self) -> Scalar {
        Scalar::of(-self@)
    }

    /// The representative of `Scalar::of(value)` is the remainder of `value`.
    pub proof fn lemma_of_view(value: int)
        ensures
            Scalar::of(value)@ == value % (MODULUS as int),
            0 <= Scalar::of(value)@ < MODULUS,
    {
    }

    /// An element and its additive inverse add up to zero.
    pub proof fn lemma_sum_negation(a: Scalar)
        ensures
            a.sum(a.negation()) == Scalar::spec_zero(),
    {
        vstd::arithmetic::div_mod::lemma_add_mod_noop_right(a@, -a@, MODULUS as int);
    }

    /// Reduces `value` modulo [`MODULUS`].
    pub fn new(value: u64) -> (s: Scalar)
        ensures
            s == Scalar::of(value as int),
            s@ == value as int % (MODULUS as int),
    {
        Scalar { value: value % MODULUS }
    }

    /// The representative, in `0..MODULUS`.
    pub fn value(&self) -> (v: u64)
        ensures
            v as int == self@,
            v < MODULUS,
    {
        proof {
            use_type_invariant(self);
        }
        self.value
    }

    pub fn zero() -> (s: Scalar)
        ensures
            s == Scalar::spec_zero(),
            s@ == 0,
    {
        Scalar { value: 0 }
    }

    pub fn one() -> (s: Scalar)
        ensures
            s == Scalar::spec_one(),
            s@ == 1,
    {
        Scalar { value: 1 }
    }

    /// Whether this is the additive identity.
    pub fn is_zero(&self) -> (b: bool)
        ensures
            b == (*self == Scalar::spec_zero()),
            b == (self@ == 0),
    {
        self.value == 0
    }

    pub fn add(&self, other: &Scalar) -> (s: Scalar)
        ensures
            s == self.sum(*other),
            s@ == (self@ + other@) % (MODULUS as int),
    {
        let wide: u128 = self.value as u128 + other.value as u128;
        let reduced: u128 = wide % (MODULUS as u128);
        Scalar { value: reduced as u64 }
    }

    pub fn mul(&self, other: &Scalar) -> (s: Scalar)
        ensures
            s == self.product(*other),
            s@ == (self@ * other@) % (MODULUS as int),
    {
        let a: u128 = self.value as u128;
        let b: u128 = other.value as u128;
        assert(a * b <= 0xFFFF_FFFF_FFFF_FFFE_0000_0000_0000_0001) by (nonlinear_arith)
            requires
                a <= 0xFFFF_FFFF_FFFF_FFFF,
                b <= 0xFFFF_FFFF_FFFF_FFFF,
        ;
        let wide: u128 = a * b;
        let reduced: u128 = wide % (MODULUS as u128);
        Scalar { value: reduced as u64 }
    }

    pub fn neg(&self) -> (s: Scalar)
        ensures
            s == self.negation(),
            s@ == (-self@) % (MODULUS as int),
    {
        proof {
            use_type_invariant(self);
        }
        if self.value == 0 {
            Scalar { value: 0 }
        } else {
            let value: u64 = MODULUS - self.value;
            assert(value as int == (-(self.value as int)) % (MODULUS as int)) by {
                vstd::arithmetic::div_mod::lemma_mod_add_multiples_vanish(
                    -(self.value as int),
                    MODULUS as int,
                );
                vstd::arithmetic::div_mod::lemma_small_mod(value as nat, MODULUS as nat);
            }
            Scalar { value }
        }
    }
}

} // verus!
