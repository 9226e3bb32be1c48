//! IEEE 754 numbers, held as their bit patterns.
//!
//! The byte representation of a floating-point number is that of its bit
//! pattern, an unsigned integer of the same width. The two types here carry
//! that pattern; turning it into a number and back is left to the caller.
use crate::endian::{
    bytes_of, le_bytes, le_value, lemma_pow256_values, lemma_value_of_bytes_of, read_unsigned,
    value_of, write_unsigned,
};
use crate::traits::{EndianNumber, SizedNumber};
use vstd::prelude::*;

verus! {

/// A single-precision number as its 32 bits: sign, exponent and fraction, as
/// the conversion of the number to its bits gives them.
#[derive(Clone, Copy, Debug, PartialEq, Eq, Structural)]
pub struct Binary32(pub u32);

/// A double-precision number as its 64 bits.
#[derive(Clone, Copy, Debug, PartialEq, Eq, Structural)]
pub struct Binary64(pub u64);

impl SizedNumber for Binary32 {
    open spec fn spec_size() -> nat {
        4
    }

    open spec fn spec_from_bytes(bytes: Seq<u8>) -> Option<Self> {
        if bytes.len() == 4 {
            Some(Binary32(le_value(bytes) as u32))
        } else {
            None
        }
    }

    open spec fn spec_to_bytes(&self) -> Seq<u8> {
        le_bytes(self.0 as nat, 4)
    }

    proof fn lemma_round_trip(&self) {
        lemma_pow256_values();
        lemma_value_of_bytes_of(self.0 as nat, 4, false);
    }

    proof fn lemma_length_decides(bytes: Seq<u8>) {
    }

    fn size() -> (n: usize) {
        4
    }

    fn from_bytes(bytes: &[u8]) -> (r: Option<Self>) {
        if bytes.len() != 4 {
            return None;
        }
        proof {
            lemma_pow256_values();
        }
        Some(Binary32(read_unsigned(bytes, false) as u32))
    }

    fn to_bytes(&self) -> (r: Vec<u8>) {
        proof {
            lemma_pow256_values();
        }
        write_unsigned(self.0 as u128, 4, false)
    }
}

impl EndianNumber for Binary32 {
    open spec fn spec_from_bytes_e(bytes: Seq<u8>, bigendian: bool) -> Option<Self> {
        if bytes.len() == 4 {
            Some(Binary32(value_of(bytes, bigendian) as u32))
        } else {
            None
        }
    }

    open spec fn spec_to_bytes_e(&self, bigendian: bool) -> Seq<u8> {
        bytes_of(self.0 as nat, 4, bigendian)
    }

    proof fn lemma_round_trip_e(&self, bigendian: bool) {
        lemma_pow256_values();
        lemma_value_of_bytes_of(self.0 as nat, 4, bigendian);
    }

    proof fn lemma_length_decides_e(bytes: Seq<u8>, bigendian: bool) {
    }

    fn from_bytes_e(bytes: &[u8], bigendian: bool) -> (r: Option<Self>) {
        if bytes.len() != 4 {
            return None;
        }
        proof {
            lemma_pow256_values();
        }
        Some(Binary32(read_unsigned(bytes, bigendian) as u32))
    }

    fn to_bytes_e(&self, bigendian: bool) -> (r: Vec<u8>) {
        proof {
            lemma_pow256_values();
        }
        write_unsigned(self.0 as u128, 4, bigendian)
    }
}

impl SizedNumber for Binary64 {
    open spec fn spec_size() -> nat {
        8
    }

    open spec fn spec_from_bytes(bytes: Seq<u8>) -> Option<Self> {
        if bytes.len() == 8 {
            Some(Binary64(le_value(bytes) as u64))
        } else {
            None
        }
    }

    open spec fn spec_to_bytes(&self) -> Seq<u8> {
        le_bytes(self.0 as nat, 8)
    }

    proof fn lemma_round_trip(&self) {
        lemma_pow256_values();
        lemma_value_of_bytes_of(self.0 as nat, 8, false);
    }

    proof fn lemma_length_decides(bytes: Seq<u8>) {
    }

    fn size() -> (n: usize) {
        8
    }

    fn from_bytes(bytes: &[u8]) -> (r: Option<Self>) {
        if bytes.len() != 8 {
            return None;
        }
        proof {
            lemma_pow256_values();
        }
        Some(Binary64(read_unsigned(bytes, false) as u64))
    }

    fn to_bytes(&self) -> (r: Vec<u8>) {
        proof {
            lemma_pow256_values();
        }
        write_unsigned(self.0 as u128, 8, false)
    }
}

impl EndianNumber for Binary64 {
    open spec fn spec_from_bytes_e(bytes: Seq<u8>, bigendian: bool) -> Option<Self> {
        if bytes.len() == 8 {
            Some(Binary64(value_of(bytes, bigendian) as u64))
        } else {
            None
        }
    }

    open spec fn spec_to_bytes_e(&self, bigendian: bool) -> Seq<u8> {
        bytes_of(self.0 as nat, 8, bigendian)
    }

    proof fn lemma_round_trip_e(&self, bigendian: bool) {
        lemma_pow256_values();
        lemma_value_of_bytes_of(self.0 as nat, 8, bigendian);
    }

    proof fn lemma_length_decides_e(bytes: Seq<u8>, bigendian: bool) {
    }

    fn from_bytes_e(bytes: &[u8], bigendian: bool) -> (r: Option<Self>) {
        if bytes.len() != 8 {
            return None;
        }
        proof {
            lemma_pow256_values();
        }
        Some(Binary64(read_unsigned(bytes, bigendian) as u64))
    }

    fn to_bytes_e(&self, bigendian: bool) -> (r: Vec<u8>) {
        proof {
            lemma_pow256_values();
        }
        write_unsigned(self.0 as u128, 8, bigendian)
    }
}

} // verus!
