//! Unsigned 256-bit integers, held as the four limbs that
//! `ethers::types::U256` is made of.

use crate::big_endian::{
    be_bytes, be_value, lemma_be_bytes_of_value, lemma_be_value_bound, pow256,
};
use ethers::types::U256;
use vstd::prelude::*;

verus! {

/// 2^64: the weight of the second limb.
pub open spec fn pow2_64() -> nat {
    0x1_0000_0000_0000_0000nat
}

/// 2^128: the weight of the third limb, and the least value that sixteen
/// bytes cannot hold.
pub open spec fn pow2_128() -> nat {
    0x1_0000_0000_0000_0000_0000_0000_0000_0000nat
}

/// 2^192: the weight of the fourth limb.
pub open spec fn pow2_192() -> nat {
    0x1_0000_0000_0000_0000_0000_0000_0000_0000_0000_0000_0000_0000nat
}

/// The number that four limbs stand for, the least significant limb first.
pub open spec fn limbs_value(limbs: Seq<u64>) -> nat {
    (limbs[0] as nat) + (limbs[1] as nat) * pow2_64() + (limbs[2] as nat) * pow2_128() + (
    limbs[3] as nat) * pow2_192()
}

/// An unsigned 256-bit integer. The field holds its four 64-bit limbs, least
/// significant first: the layout of `ethers::types::U256`, so that a value of
/// either type is made from the other's field.
#[derive(Clone, Copy, Debug, PartialEq, Eq)]
pub struct Uint256(pub [u64; 4]);

impl View for Uint256 {
    type V = nat;

    open spec fn view(&self) -> nat {
        limbs_value(self.0@)
    }
}

/// Calls `U256::to_big_endian` on the integer with the given limbs and a
/// 32-byte buffer. Trusted: the buffer then spells the integer's value, most
/// significant byte first.
#[verifier::external_body]
fn u256_to_big_endian(limbs: &[u64; 4]) -> (out: [u8; 32])
    ensures
        be_value(out@) == limbs_value(limbs@),
{
    let mut out = [0u8; 32];
    U256(*limbs).to_big_endian(&mut out);
    out
}

/// Calls `U256::from_big_endian`, which panics on more than 32 bytes, and
/// hands out the limbs of what it returns. Trusted: the limbs stand for the
/// number that the bytes spell, most significant byte first.
#[verifier::external_body]
fn u256_from_big_endian(bytes: &[u8]) -> (limbs: [u64; 4])
    requires
        bytes@.len() <= 32,
    ensures
        limbs_value(limbs@) == be_value(bytes@),
{
    U256::from_big_endian(bytes).0
}

impl Uint256 {
    /// The integer with the value of `v`.
    pub fn from_u128(v: u128) -> (r: Uint256)
        ensures
            r@ == v,
    {
        let low: u128 = v & 0xffff_ffff_ffff_ffff;
        let high: u128 = v >> 64;
        assert(low <= 0xffff_ffff_ffff_ffff && high <= 0xffff_ffff_ffff_ffff && v == low + high
            * 0x1_0000_0000_0000_0000) by (bit_vector)
            requires
                low == v & 0xffff_ffff_ffff_ffff,
                high == v >> 64,
        ;
        Uint256([low as u64, high as u64, 0, 0])
    }

    /// Whether the value is below 2^128, so that sixteen bytes hold it.
    pub fn fits_u128(&self) -> (fits: bool)
        ensures
            fits == (self@ < pow2_128()),
    {
        self.0[2] == 0 && self.0[3] == 0
    }

    /// The value in 32 bytes, most significant first.
    pub fn to_be_bytes(&self) -> (out: [u8; 32])
        ensures
            out@ == be_bytes(self@, 32),
    {
        let out = u256_to_big_endian(&self.0);
        proof {
            lemma_be_bytes_of_value(out@);
        }
        out
    }

    /// The integer that at most 32 bytes spell, most significant first.
    pub fn from_be_bytes(bytes: &[u8]) -> (r: Uint256)
        requires
            bytes@.len() <= 32,
        ensures
            r@ == be_value(bytes@),
            r@ < pow256(bytes@.len()),
    {
        proof {
            lemma_be_value_bound(bytes@);
        }
        Uint256(u256_from_big_endian(bytes))
    }
}

/// Two integers with the same value have the same limbs.
pub proof fn lemma_value_determines_limbs(a: Uint256, b: Uint256)
    requires
        a@ == b@,
    ensures
        a == b,
{
    let x = a.0@;
    let y = b.0@;
    assert(x[0] == y[0] && x[1] == y[1] && x[2] == y[2] && x[3] == y[3]);
    assert(a.0 =~= b.0);
}

} // verus!
