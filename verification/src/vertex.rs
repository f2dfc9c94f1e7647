//! Vertex ids: non-negative integers of any size, held as `BigUint`.
//!
//! The arithmetic on them is `num_bigint`'s. This module states what the
//! library relies on, each statement in terms of the number that an id
//! stands for, and builds the few operations on ids that the library needs.

use crate::numeral::{hex, numeral, HEX_RADIX};
use num_bigint::BigUint;
use vstd::prelude::*;

verus! {

#[verifier::external_type_specification]
#[verifier::external_body]
pub struct ExBigUint(num_bigint::BigUint);

/// The base 2^32 digits of a vertex id, least significant first, as
/// `BigUint::to_u32_digits` gives them.
pub uninterp spec fn vertex_limbs(v: BigUint) -> Seq<u32>;

/// The number that base 2^32 digits denote, least significant digit first.
pub open spec fn limbs_value(limbs: Seq<u32>) -> nat
    decreases limbs.len(),
{
    if limbs.len() == 0 {
        0
    } else {
        limbs[0] as nat + 0x1_0000_0000 * limbs_value(limbs.drop_first())
    }
}

/// The number that a vertex id stands for.
pub open spec fn vertex_value(v: BigUint) -> nat {
    limbs_value(vertex_limbs(v))
}

/// Trusted: `<BigUint as num_traits::Zero>::zero` returns the number zero.
#[verifier::external_body]
pub(crate) fn zero_vertex() -> (z: BigUint)
    ensures
        vertex_value(z) == 0,
{
    num_traits::Zero::zero()
}

/// Trusted: `BigUint::new` returns the number whose base 2^32 digits, least
/// significant first, are the ones given; zeros at the high end count for
/// nothing.
#[verifier::external_body]
pub(crate) fn vertex_from_limbs(limbs: Vec<u32>) -> (v: BigUint)
    ensures
        vertex_value(v) == limbs_value(limbs@),
{
    BigUint::new(limbs)
}

/// Trusted: `<BigUint as Clone>::clone` returns a number with the same
/// digits.
#[verifier::external_body]
pub(crate) fn copy_vertex(v: &BigUint) -> (w: BigUint)
    ensures
        vertex_limbs(w) == vertex_limbs(*v),
{
    v.clone()
}

/// Trusted: `<` on `BigUint` is the order of the numbers.
#[verifier::external_body]
pub(crate) fn vertex_below(a: &BigUint, b: &BigUint) -> (below: bool)
    ensures
        below == (vertex_value(*a) < vertex_value(*b)),
{
    a < b
}

/// Trusted: `+` on `BigUint` is the sum of the numbers; it never overflows.
#[verifier::external_body]
pub(crate) fn vertex_plus(a: BigUint, b: BigUint) -> (sum: BigUint)
    ensures
        vertex_value(sum) == vertex_value(a) + vertex_value(b),
{
    a + b
}

/// Trusted: `BigUint::to_str_radix` writes the number in the radix, with the
/// digits `0` to `9` and `a` to `z`, most significant first and without
/// leading zeros, and writes zero as `0`. It panics on a radix outside of 2
/// to 36.
#[verifier::external_body]
pub(crate) fn vertex_numeral(v: &BigUint, radix: u32) -> (text: String)
    requires
        2 <= radix <= 36,
    ensures
        text@ == numeral(vertex_value(*v), radix as nat),
{
    v.to_str_radix(radix)
}

/// The vertex id zero.
pub fn first_vertex() -> (v: BigUint)
    ensures
        vertex_value(v) == 0,
{
    let limbs: Vec<u32> = vec![0];
    proof {
        assert(limbs@.drop_first() =~= Seq::<u32>::empty());
        assert(limbs_value(limbs@.drop_first()) == 0);
    }
    vertex_from_limbs(limbs)
}

/// The vertex id that follows `v`.
pub fn next_vertex(v: BigUint) -> (w: BigUint)
    ensures
        vertex_value(w) == vertex_value(v) + 1,
{
    let limbs: Vec<u32> = vec![1];
    proof {
        assert(limbs@.drop_first() =~= Seq::<u32>::empty());
        assert(limbs_value(limbs@.drop_first()) == 0);
    }
    vertex_plus(v, vertex_from_limbs(limbs))
}

/// The vertex id in lowercase hexadecimal, as identifiers carry it.
pub fn vertex_hex(v: &BigUint) -> (text: String)
    ensures
        text@ == hex(vertex_value(*v)),
{
    vertex_numeral(v, HEX_RADIX)
}

} // verus!
