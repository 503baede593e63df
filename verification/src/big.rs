//! Trusted boundary around `num_bigint::BigInt`.
//!
//! Every sequence value is an exact, unbounded integer carried by the
//! outside crate. Verus sees a `BigInt` as an opaque value; `big_view`
//! names the integer it holds, and each wrapper below states what one
//! `num_bigint` operation does to that integer.
use vstd::prelude::*;

verus! {

use num_bigint::BigInt;

#[verifier::external_type_specification]
#[verifier::external_body]
pub struct ExBigInt(BigInt);

/// The integer held by a `BigInt` value.
pub uninterp spec fn big_view(b: BigInt) -> int;

/// Relies on `<BigInt as From<i64>>::from`: builds the big integer with
/// exactly the given value.
#[verifier::external_body]
pub fn big_from_i64(n: i64) -> (r: BigInt)
    ensures
        big_view(r) == n as int,
{
    BigInt::from(n)
}

/// Relies on `<BigInt as num_traits::Zero>::zero`: the additive identity.
#[verifier::external_body]
pub fn big_zero() -> (r: BigInt)
    ensures
        big_view(r) == 0,
{
    num_traits::Zero::zero()
}

/// Relies on `<BigInt as num_traits::One>::one`: the multiplicative identity.
#[verifier::external_body]
pub fn big_one() -> (r: BigInt)
    ensures
        big_view(r) == 1,
{
    num_traits::One::one()
}

/// Relies on `<BigInt as Clone>::clone`: the copy holds the same integer.
pub assume_specification[ <BigInt as Clone>::clone ](a: &BigInt) -> (r: BigInt)
    ensures
        big_view(r) == big_view(*a),
;

/// Relies on `Add<&BigInt> for &BigInt`: exact integer addition.
#[verifier::external_body]
pub fn big_add(a: &BigInt, b: &BigInt) -> (r: BigInt)
    ensures
        big_view(r) == big_view(*a) + big_view(*b),
{
    a + b
}

/// Relies on `Sub<&BigInt> for &BigInt`: exact integer subtraction.
#[verifier::external_body]
pub fn big_sub(a: &BigInt, b: &BigInt) -> (r: BigInt)
    ensures
        big_view(r) == big_view(*a) - big_view(*b),
{
    a - b
}

/// Relies on `Mul<&BigInt> for &BigInt`: exact integer multiplication.
#[verifier::external_body]
pub fn big_mul(a: &BigInt, b: &BigInt) -> (r: BigInt)
    ensures
        big_view(r) == big_view(*a) * big_view(*b),
{
    a * b
}

/// Relies on `PartialEq for BigInt`: equality of the held integers.
#[verifier::external_body]
pub fn big_eq(a: &BigInt, b: &BigInt) -> (r: bool)
    ensures
        r == (big_view(*a) == big_view(*b)),
{
    a == b
}

/// Relies on `PartialOrd for BigInt`: order of the held integers.
#[verifier::external_body]
pub fn big_le(a: &BigInt, b: &BigInt) -> (r: bool)
    ensures
        r == (big_view(*a) <= big_view(*b)),
{
    a <= b
}

/// Relies on `PartialOrd for BigInt`: strict order of the held integers.
#[verifier::external_body]
pub fn big_lt(a: &BigInt, b: &BigInt) -> (r: bool)
    ensures
        r == (big_view(*a) < big_view(*b)),
{
    a < b
}

/// Relies on `BigInt::bit` at position 0: the two's-complement low bit,
/// which is clear exactly when the integer is even.
#[verifier::external_body]
pub fn big_is_even(a: &BigInt) -> (r: bool)
    ensures
        r == (big_view(*a) % 2 == 0),
{
    !a.bit(0)
}

/// Relies on `Shr<u32> for &BigInt`: an arithmetic shift by one halves a
/// non-negative integer, rounding down.
#[verifier::external_body]
pub fn big_shr1(a: &BigInt) -> (r: BigInt)
    requires
        big_view(*a) >= 0,
    ensures
        big_view(r) == big_view(*a) / 2,
{
    a >> 1u32
}

/// The seed pair held by an optional pair of big integers.
pub open spec fn seed_view(s: Option<(BigInt, BigInt)>) -> Option<(int, int)> {
    match s {
        Some((a, b)) => Some((big_view(a), big_view(b))),
        None => None,
    }
}

/// The integers held by a sequence of big integers.
pub open spec fn seq_view(s: Seq<BigInt>) -> Seq<int> {
    s.map_values(|b: BigInt| big_view(b))
}

pub broadcast proof fn lemma_seq_view_push(s: Seq<BigInt>, x: BigInt)
    ensures
        (#[trigger] seq_view(s.push(x))) == seq_view(s).push(big_view(x)),
{
    assert(seq_view(s.push(x)) =~= seq_view(s).push(big_view(x)));
}

pub broadcast proof fn lemma_seq_view_add(s: Seq<BigInt>, t: Seq<BigInt>)
    ensures
        (#[trigger] seq_view(s + t)) == seq_view(s) + seq_view(t),
{
    assert(seq_view(s + t) =~= seq_view(s) + seq_view(t));
}

pub broadcast proof fn lemma_seq_view_subrange(s: Seq<BigInt>, i: int, j: int)
    requires
        0 <= i <= j <= s.len(),
    ensures
        (#[trigger] seq_view(s.subrange(i, j))) == seq_view(s).subrange(i, j),
{
    assert(seq_view(s.subrange(i, j)) =~= seq_view(s).subrange(i, j));
}

pub broadcast group group_seq_view {
    lemma_seq_view_push,
    lemma_seq_view_add,
    lemma_seq_view_subrange,
}

} // verus!
