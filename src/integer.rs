//! Integer literals: construction from bit patterns and widths, and reading
//! a literal back as a width.
use vstd::arithmetic::power2::{lemma2_to64, lemma_pow2_unfold, pow2};
use vstd::prelude::*;

use crate::ast::{bits_value, digits_value, Bit, Integer};

verus! {

/// Unsigned value of big-endian binary digits.
pub open spec fn binary_value(d: Seq<u8>) -> nat
    decreases d.len(),
{
    if d.len() == 0 {
        0
    } else {
        2 * binary_value(d.drop_last()) + d.last() as nat
    }
}

/// Relies on num_bigint::BigUint::from_radix_be with radix 2, which reads the
/// digits big-endian and refuses any digit that is not below the radix, and on
/// BigUint::to_u64_digits, which lists the value's 64-bit digits least
/// significant first.
#[verifier::external_body]
fn binary_to_digits(binary: &Vec<u8>) -> (r: Option<Vec<u64>>)
    ensures
        r.is_some() <==> forall|i: int| 0 <= i < binary@.len() ==> binary@[i] < 2,
        r.is_some() ==> digits_value(r.unwrap()@) == binary_value(binary@),
{
    match num_bigint::BigUint::from_radix_be(binary.as_slice(), 2) {
        Some(n) => Some(n.to_u64_digits()),
        None => None,
    }
}

proof fn lemma_binary_of_bits(binary: Seq<u8>, bits: Seq<Bit>)
    requires
        binary.len() == bits.len(),
        forall|i: int|
            0 <= i < bits.len() ==> #[trigger] binary[i] == if bits[i] == Bit::One {
                1u8
            } else {
                0u8
            },
    ensures
        binary_value(binary) == bits_value(bits),
    decreases bits.len(),
{
    if bits.len() > 0 {
        let (b2, s2) = (binary.drop_last(), bits.drop_last());
        assert forall|i: int| 0 <= i < s2.len() implies #[trigger] b2[i] == if s2[i] == Bit::One {
            1u8
        } else {
            0u8
        } by {
            assert(b2[i] == binary[i]);
        }
        lemma_binary_of_bits(b2, s2);
        assert(binary.last() == binary[binary.len() - 1]);
    }
}

proof fn lemma_binary_of_ones(binary: Seq<u8>)
    requires
        forall|i: int| 0 <= i < binary.len() ==> #[trigger] binary[i] == 1u8,
    ensures
        binary_value(binary) + 1 == pow2(binary.len() as nat),
    decreases binary.len(),
{
    if binary.len() == 0 {
        lemma2_to64();
    } else {
        let b2 = binary.drop_last();
        assert forall|i: int| 0 <= i < b2.len() implies #[trigger] b2[i] == 1u8 by {
            assert(b2[i] == binary[i]);
        }
        lemma_binary_of_ones(b2);
        lemma_pow2_unfold(binary.len() as nat);
        assert(binary.last() == binary[binary.len() - 1]);
        assert(binary_value(binary) == 2 * binary_value(b2) + 1);
        assert(pow2(binary.len() as nat) == 2 * pow2(b2.len() as nat));
    }
}

proof fn lemma_digits_zero(d: Seq<u64>)
    ensures
        digits_value(d) == 0 <==> forall|i: int| 0 <= i < d.len() ==> d[i] == 0,
    decreases d.len(),
{
    if d.len() > 0 {
        lemma_digits_zero(d.drop_first());
        if digits_value(d) == 0 {
            assert forall|i: int| 0 <= i < d.len() implies d[i] == 0 by {
                if i > 0 {
                    assert(d[i] == d.drop_first()[i - 1]);
                }
            }
        }
        if forall|i: int| 0 <= i < d.len() ==> d[i] == 0 {
            assert forall|i: int| 0 <= i < d.len() - 1 implies d.drop_first()[i] == 0 by {
                assert(d.drop_first()[i] == d[i + 1]);
            }
        }
    }
}

impl Integer {
    /// The integer zero.
    pub fn zero() -> (r: Integer)
        ensures
            r@ == 0,
    {
        Integer { negative: false, magnitude: Vec::new() }
    }

    /// A non-negative integer given as a machine word.
    pub fn from_usize(w: usize) -> (r: Integer)
        ensures
            r@ == w as int,
    {
        let mut magnitude: Vec<u64> = Vec::new();
        magnitude.push(w as u64);
        proof {
            assert(magnitude@.drop_first().len() == 0);
            assert(digits_value(magnitude@.drop_first()) == 0);
        }
        Integer { negative: false, magnitude }
    }

    /// The unsigned integer that a big-endian bit sequence encodes.
    pub fn from_bits(bits: &Vec<Bit>) -> (r: Integer)
        ensures
            r@ == bits_value(bits@) as int,
    {
        let mut binary: Vec<u8> = Vec::new();
        let mut i: usize = 0;
        while i < bits.len()
            invariant
                i <= bits@.len(),
                binary@.len() == i,
                forall|j: int|
                    0 <= j < i ==> #[trigger] binary@[j] == if bits@[j] == Bit::One {
                        1u8
                    } else {
                        0u8
                    },
            decreases bits@.len() - i,
        {
            let digit: u8 = match bits[i] {
                Bit::One => 1,
                Bit::Zero => 0,
            };
            binary.push(digit);
            i = i + 1;
        }
        proof {
            lemma_binary_of_bits(binary@, bits@);
            assert forall|j: int| 0 <= j < binary@.len() implies binary@[j] < 2 by {
                assert(binary@[j] == if bits@[j] == Bit::One { 1u8 } else { 0u8 });
            }
        }
        match binary_to_digits(&binary) {
            Some(magnitude) => Integer { negative: false, magnitude },
            None => Integer::zero(),
        }
    }

    /// `2^width - 1`: all `width` low bits set.
    pub fn all_ones(width: usize) -> (r: Integer)
        ensures
            r@ == pow2(width as nat) - 1,
    {
        let mut binary: Vec<u8> = Vec::new();
        let mut i: usize = 0;
        while i < width
            invariant
                i <= width,
                binary@.len() == i,
                forall|j: int| 0 <= j < i ==> #[trigger] binary@[j] == 1u8,
            decreases width - i,
        {
            binary.push(1u8);
            i = i + 1;
        }
        proof {
            lemma_binary_of_ones(binary@);
        }
        match binary_to_digits(&binary) {
            Some(magnitude) => Integer { negative: false, magnitude },
            None => Integer::zero(),
        }
    }

    /// The integer as a machine word, when it is one.
    pub fn to_usize(&self) -> (r: Option<usize>)
        ensures
            r == if 0 <= self@ <= usize::MAX {
                Some(self@ as usize)
            } else {
                None::<usize>
            },
    {
        let n = self.magnitude.len();
        if n == 0 {
            return Some(0);
        }
        let mut j: usize = 1;
        while j < n
            invariant
                1 <= j <= n,
                n == self.magnitude@.len(),
                forall|k: int| 1 <= k < j ==> self.magnitude@[k] == 0,
            decreases n - j,
        {
            if self.magnitude[j] != 0 {
                proof {
                    let rest = self.magnitude@.drop_first();
                    assert(rest[j - 1] != 0);
                    lemma_digits_zero(rest);
                }
                return None;
            }
            j = j + 1;
        }
        let low = self.magnitude[0];
        proof {
            let rest = self.magnitude@.drop_first();
            assert forall|k: int| 0 <= k < rest.len() implies rest[k] == 0 by {
                assert(rest[k] == self.magnitude@[k + 1]);
            }
            lemma_digits_zero(rest);
        }
        if self.negative && low != 0 {
            None
        } else if low > usize::MAX as u64 {
            None
        } else {
            Some(low as usize)
        }
    }
}

} // verus!
