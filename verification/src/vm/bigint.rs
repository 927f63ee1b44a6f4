//! Integers of any size, as the machine computes with them: held as
//! two's-complement bytes, with the arithmetic done by `num-bigint`.
use vstd::prelude::*;

use num_bigint::BigInt;

use crate::text::decimal;

verus! {

/// An integer of any size, in two's complement, least significant byte
/// first.
#[derive(Debug)]
pub struct Int {
    pub bytes: Vec<u8>,
}

/// The number that two's-complement bytes stand for, least significant
/// first: the last byte carries the sign, none stands for zero.
pub open spec fn twos_value(b: Seq<u8>) -> int
    decreases b.len(),
{
    if b.len() == 0 {
        0
    } else if b.len() == 1 {
        if b[0] < 128 {
            b[0] as int
        } else {
            b[0] - 256
        }
    } else {
        b[0] + 256 * twos_value(b.drop_first())
    }
}

impl Int {
    /// The number the integer stands for.
    pub open spec fn value(&self) -> int {
        twos_value(self.bytes@)
    }

    /// Zero.
    pub fn zero() -> (r: Int)
        ensures
            r.value() == 0,
    {
        Int { bytes: Vec::new() }
    }

    /// A copy of the integer.
    pub fn copy(&self) -> (r: Int)
        ensures
            r.value() == self.value(),
    {
        let mut bytes: Vec<u8> = Vec::new();
        let mut i: usize = 0;
        while i < self.bytes.len()
            invariant
                i <= self.bytes.len(),
                bytes@ == self.bytes@.take(i as int),
            decreases self.bytes.len() - i,
        {
            bytes.push(self.bytes[i]);
            i = i + 1;
            assert(bytes@ =~= self.bytes@.take(i as int));
        }
        assert(bytes@ =~= self.bytes@);
        Int { bytes }
    }
}

/// An integer in decimal, with a minus sign before a negative one (as `{}`
/// writes a `BigInt`).
pub open spec fn int_text(v: int) -> Seq<char> {
    if v < 0 {
        seq!['-'] + decimal((-v) as nat)
    } else {
        decimal(v as nat)
    }
}

/// The quotient of `a` by `b` rounded toward zero.
pub open spec fn trunc_div(a: int, b: int) -> int {
    let q = (if a < 0 {
        -a
    } else {
        a
    }) / (if b < 0 {
        -b
    } else {
        b
    });
    if (a < 0) != (b < 0) {
        -q
    } else {
        q
    }
}

/// `BigInt + BigInt`, read from and written as two's-complement bytes: the
/// sum.
#[verifier::external_body]
pub(crate) fn int_add(a: &Int, b: &Int) -> (r: Int)
    ensures
        r.value() == a.value() + b.value(),
{
    let sum = BigInt::from_signed_bytes_le(&a.bytes) + BigInt::from_signed_bytes_le(&b.bytes);
    Int { bytes: sum.to_signed_bytes_le() }
}

/// `BigInt - BigInt`, read from and written as two's-complement bytes: the
/// difference.
#[verifier::external_body]
pub(crate) fn int_sub(a: &Int, b: &Int) -> (r: Int)
    ensures
        r.value() == a.value() - b.value(),
{
    let diff = BigInt::from_signed_bytes_le(&a.bytes) - BigInt::from_signed_bytes_le(&b.bytes);
    Int { bytes: diff.to_signed_bytes_le() }
}

/// `BigInt * BigInt`, read from and written as two's-complement bytes: the
/// product.
#[verifier::external_body]
pub(crate) fn int_mul(a: &Int, b: &Int) -> (r: Int)
    ensures
        r.value() == a.value() * b.value(),
{
    let prod = BigInt::from_signed_bytes_le(&a.bytes) * BigInt::from_signed_bytes_le(&b.bytes);
    Int { bytes: prod.to_signed_bytes_le() }
}

/// `BigInt / BigInt`, read from and written as two's-complement bytes: the
/// quotient rounded toward zero. It panics on a zero divisor.
#[verifier::external_body]
pub(crate) fn int_div(a: &Int, b: &Int) -> (r: Int)
    requires
        b.value() != 0,
    ensures
        r.value() == trunc_div(a.value(), b.value()),
{
    let quot = BigInt::from_signed_bytes_le(&a.bytes) / BigInt::from_signed_bytes_le(&b.bytes);
    Int { bytes: quot.to_signed_bytes_le() }
}

/// `-BigInt`, read from and written as two's-complement bytes: the
/// negation.
#[verifier::external_body]
pub(crate) fn int_neg(a: &Int) -> (r: Int)
    ensures
        r.value() == -a.value(),
{
    let neg = -BigInt::from_signed_bytes_le(&a.bytes);
    Int { bytes: neg.to_signed_bytes_le() }
}

/// `BigInt < BigInt`, read from two's-complement bytes.
#[verifier::external_body]
pub(crate) fn int_lt(a: &Int, b: &Int) -> (r: bool)
    ensures
        r == (a.value() < b.value()),
{
    BigInt::from_signed_bytes_le(&a.bytes) < BigInt::from_signed_bytes_le(&b.bytes)
}

/// `BigInt == BigInt`, read from two's-complement bytes.
#[verifier::external_body]
pub(crate) fn int_eq(a: &Int, b: &Int) -> (r: bool)
    ensures
        r == (a.value() == b.value()),
{
    BigInt::from_signed_bytes_le(&a.bytes) == BigInt::from_signed_bytes_le(&b.bytes)
}

/// `BigInt`'s `Display`, read from two's-complement bytes: the integer in
/// decimal.
#[verifier::external_body]
pub(crate) fn int_to_string(a: &Int) -> (r: String)
    ensures
        r@ == int_text(a.value()),
{
    BigInt::from_signed_bytes_le(&a.bytes).to_string()
}

/// `usize::try_from(BigInt)`, read from two's-complement bytes: the integer
/// where a `usize` holds it.
#[verifier::external_body]
pub(crate) fn int_to_usize(a: &Int) -> (r: Option<usize>)
    ensures
        r == (if 0 <= a.value() <= usize::MAX {
            Some(a.value() as usize)
        } else {
            None
        }),
{
    usize::try_from(BigInt::from_signed_bytes_le(&a.bytes)).ok()
}

} // verus!
