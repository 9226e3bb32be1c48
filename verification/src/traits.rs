//! The two codec traits and their implementations for the primitive integers.
use crate::endian::{
    be_bytes, bytes_of, le_bytes, le_value, lemma_pow256_values, lemma_signed_of_pattern_of,
    lemma_single_byte, lemma_value_of_bytes_of, pattern_of, read_signed, read_unsigned, signed_of,
    value_of, write_signed, write_unsigned,
};
use vstd::prelude::*;

verus! {

/// A type whose values have a byte representation of one fixed size.
pub trait SizedNumber: Sized {
    /// The number of bytes that every value of the type takes.
    spec fn spec_size() -> nat;

    /// The value that `bytes` stands for, if it stands for one.
    spec fn spec_from_bytes(bytes: Seq<u8>) -> Option<Self>;

    /// The bytes that stand for `self`.
    spec fn spec_to_bytes(&self) -> Seq<u8>;

    /// A value's bytes are `spec_size()` many, and they stand for the value.
    proof fn lemma_round_trip(&self)
        ensures
            self.spec_to_bytes().len() == Self::spec_size(),
            Self::spec_from_bytes(self.spec_to_bytes()) == Some(*self),
    ;

    /// The length alone decides whether bytes stand for a value: runs of
    /// `spec_size()` bytes do, shorter and longer runs do not.
    proof fn lemma_length_decides(bytes: Seq<u8>)
        ensures
            Self::spec_from_bytes(bytes) is Some <==> bytes.len() == Self::spec_size(),
    ;

    /// Returns the size of `Self` in bytes.
    fn size() -> (n: usize)
        ensures
            n == Self::spec_size(),
    ;

    /// Converts the slice to `Self`. Returns `None` if the slice length is not
    /// equal to the size of the type.
    fn from_bytes(bytes: &[u8]) -> (r: Option<Self>)
        ensures
            r == Self::spec_from_bytes(bytes@),
            r is Some <==> bytes@.len() == Self::spec_size(),
    ;

    /// Converts `self` to its byte representation.
    fn to_bytes(&self) -> (r: Vec<u8>)
        ensures
            r@ == self.spec_to_bytes(),
            r@.len() == Self::spec_size(),
    ;
}

/// A sized type whose byte representation can be taken in either byte order.
pub trait EndianNumber: SizedNumber {
    /// The value that `bytes` stands for in the given byte order, if it stands for one.
    spec fn spec_from_bytes_e(bytes: Seq<u8>, bigendian: bool) -> Option<Self>;

    /// The bytes that stand for `self` in the given byte order.
    spec fn spec_to_bytes_e(&self, bigendian: bool) -> Seq<u8>;

    /// In either byte order a value's bytes are `spec_size()` many, and they
    /// stand for the value in that order.
    proof fn lemma_round_trip_e(&self, bigendian: bool)
        ensures
            self.spec_to_bytes_e(bigendian).len() == Self::spec_size(),
            Self::spec_from_bytes_e(self.spec_to_bytes_e(bigendian), bigendian) == Some(*self),
    ;

    /// In either byte order the length alone decides whether bytes stand for
    /// a value.
    proof fn lemma_length_decides_e(bytes: Seq<u8>, bigendian: bool)
        ensures
            Self::spec_from_bytes_e(bytes, bigendian) is Some <==> bytes.len() == Self::spec_size(),
    ;

    /// Converts the slice to `Self` with the specified endianness. Returns
    /// `None` if the slice length is not equal to the size of the type.
    fn from_bytes_e(bytes: &[u8], bigendian: bool) -> (r: Option<Self>)
        ensures
            r == Self::spec_from_bytes_e(bytes@, bigendian),
            r is Some <==> bytes@.len() == Self::spec_size(),
    ;

    /// Converts `self` to its byte representation in the specified endianness.
    fn to_bytes_e(&self, bigendian: bool) -> (r: Vec<u8>)
        ensures
            r@ == self.spec_to_bytes_e(bigendian),
            r@.len() == Self::spec_size(),
    ;
}

impl SizedNumber for u8 {
    open spec fn spec_size() -> nat {
        1
    }

    open spec fn spec_from_bytes(bytes: Seq<u8>) -> Option<Self> {
        if bytes.len() == 1 {
            Some(le_value(bytes) as u8)
        } else {
            None
        }
    }

    open spec fn spec_to_bytes(&self) -> Seq<u8> {
        le_bytes(*self as nat, 1)
    }

    proof fn lemma_round_trip(&self) {
        lemma_pow256_values();
        lemma_value_of_bytes_of(*self as nat, 1, false);
    }

    proof fn lemma_length_decides(bytes: Seq<u8>) {
    }

    fn size() -> (n: usize) {
        1
    }

    fn from_bytes(bytes: &[u8]) -> (r: Option<Self>) {
        if bytes.len() != 1 {
            return None;
        }
        proof {
            lemma_pow256_values();
        }
        Some(read_unsigned(bytes, false) as u8)
    }

    fn to_bytes(&self) -> (r: Vec<u8>) {
        proof {
            lemma_pow256_values();
        }
        write_unsigned(*self as u128, 1, false)
    }
}

impl EndianNumber for u8 {
    open spec fn spec_from_bytes_e(bytes: Seq<u8>, bigendian: bool) -> Option<Self> {
        if bytes.len() == 1 {
            Some(value_of(bytes, bigendian) as u8)
        } else {
            None
        }
    }

    open spec fn spec_to_bytes_e(&self, bigendian: bool) -> Seq<u8> {
        bytes_of(*self as nat, 1, bigendian)
    }

    proof fn lemma_round_trip_e(&self, bigendian: bool) {
        lemma_pow256_values();
        lemma_value_of_bytes_of(*self as nat, 1, bigendian);
    }

    proof fn lemma_length_decides_e(bytes: Seq<u8>, bigendian: bool) {
    }

    fn from_bytes_e(bytes: &[u8], bigendian: bool) -> (r: Option<Self>) {
        if bytes.len() != 1 {
            return None;
        }
        proof {
            lemma_pow256_values();
        }
        Some(read_unsigned(bytes, bigendian) as u8)
    }

    fn to_bytes_e(&self, bigendian: bool) -> (r: Vec<u8>) {
        proof {
            lemma_pow256_values();
        }
        write_unsigned(*self as u128, 1, bigendian)
    }
}

impl SizedNumber for i8 {
    open spec fn spec_size() -> nat {
        1
    }

    open spec fn spec_from_bytes(bytes: Seq<u8>) -> Option<Self> {
        if bytes.len() == 1 {
            Some(signed_of(le_value(bytes), 1) as i8)
        } else {
            None
        }
    }

    open spec fn spec_to_bytes(&self) -> Seq<u8> {
        le_bytes(pattern_of(*self as int, 1), 1)
    }

    proof fn lemma_round_trip(&self) {
        lemma_pow256_values();
        lemma_signed_of_pattern_of(*self as int, 1);
        lemma_value_of_bytes_of(pattern_of(*self as int, 1), 1, false);
    }

    proof fn lemma_length_decides(bytes: Seq<u8>) {
    }

    fn size() -> (n: usize) {
        1
    }

    fn from_bytes(bytes: &[u8]) -> (r: Option<Self>) {
        if bytes.len() != 1 {
            return None;
        }
        proof {
            lemma_pow256_values();
        }
        Some(read_signed(bytes, false) as i8)
    }

    fn to_bytes(&self) -> (r: Vec<u8>) {
        proof {
            lemma_pow256_values();
        }
        write_signed(*self as i128, 1, false)
    }
}

impl EndianNumber for i8 {
    open spec fn spec_from_bytes_e(bytes: Seq<u8>, bigendian: bool) -> Option<Self> {
        if bytes.len() == 1 {
            Some(signed_of(value_of(bytes, bigendian), 1) as i8)
        } else {
            None
        }
    }

    open spec fn spec_to_bytes_e(&self, bigendian: bool) -> Seq<u8> {
        bytes_of(pattern_of(*self as int, 1), 1, bigendian)
    }

    proof fn lemma_round_trip_e(&self, bigendian: bool) {
        lemma_pow256_values();
        lemma_signed_of_pattern_of(*self as int, 1);
        lemma_value_of_bytes_of(pattern_of(*self as int, 1), 1, bigendian);
    }

    proof fn lemma_length_decides_e(bytes: Seq<u8>, bigendian: bool) {
    }

    fn from_bytes_e(bytes: &[u8], bigendian: bool) -> (r: Option<Self>) {
        if bytes.len() != 1 {
            return None;
        }
        proof {
            lemma_pow256_values();
        }
        Some(read_signed(bytes, bigendian) as i8)
    }

    fn to_bytes_e(&self, bigendian: bool) -> (r: Vec<u8>) {
        proof {
            lemma_pow256_values();
        }
        write_signed(*self as i128, 1, bigendian)
    }
}

impl SizedNumber for u16 {
    open spec fn spec_size() -> nat {
        2
    }

    open spec fn spec_from_bytes(bytes: Seq<u8>) -> Option<Self> {
        if bytes.len() == 2 {
            Some(le_value(bytes) as u16)
        } else {
            None
        }
    }

    open spec fn spec_to_bytes(&self) -> Seq<u8> {
        le_bytes(*self as nat, 2)
    }

    proof fn lemma_round_trip(&self) {
        lemma_pow256_values();
        lemma_value_of_bytes_of(*self as nat, 2, false);
    }

    proof fn lemma_length_decides(bytes: Seq<u8>) {
    }

    fn size() -> (n: usize) {
        2
    }

    fn from_bytes(bytes: &[u8]) -> (r: Option<Self>) {
        if bytes.len() != 2 {
            return None;
        }
        proof {
            lemma_pow256_values();
        }
        Some(read_unsigned(bytes, false) as u16)
    }

    fn to_bytes(&self) -> (r: Vec<u8>) {
        proof {
            lemma_pow256_values();
        }
        write_unsigned(*self as u128, 2, false)
    }
}

impl EndianNumber for u16 {
    open spec fn spec_from_bytes_e(bytes: Seq<u8>, bigendian: bool) -> Option<Self> {
        if bytes.len() == 2 {
            Some(value_of(bytes, bigendian) as u16)
        } else {
            None
        }
    }

    open spec fn spec_to_bytes_e(&self, bigendian: bool) -> Seq<u8> {
        bytes_of(*self as nat, 2, bigendian)
    }

    proof fn lemma_round_trip_e(&self, bigendian: bool) {
        lemma_pow256_values();
        lemma_value_of_bytes_of(*self as nat, 2, bigendian);
    }

    proof fn lemma_length_decides_e(bytes: Seq<u8>, bigendian: bool) {
    }

    fn from_bytes_e(bytes: &[u8], bigendian: bool) -> (r: Option<Self>) {
        if bytes.len() != 2 {
            return None;
        }
        proof {
            lemma_pow256_values();
        }
        Some(read_unsigned(bytes, bigendian) as u16)
    }

    fn to_bytes_e(&self, bigendian: bool) -> (r: Vec<u8>) {
        proof {
            lemma_pow256_values();
        }
        write_unsigned(*self as u128, 2, bigendian)
    }
}

impl SizedNumber for i16 {
    open spec fn spec_size() -> nat {
        2
    }

    open spec fn spec_from_bytes(bytes: Seq<u8>) -> Option<Self> {
        if bytes.len() == 2 {
            Some(signed_of(le_value(bytes), 2) as i16)
        } else {
            None
        }
    }

    open spec fn spec_to_bytes(&self) -> Seq<u8> {
        le_bytes(pattern_of(*self as int, 2), 2)
    }

    proof fn lemma_round_trip(&self) {
        lemma_pow256_values();
        lemma_signed_of_pattern_of(*self as int, 2);
        lemma_value_of_bytes_of(pattern_of(*self as int, 2), 2, false);
    }

    proof fn lemma_length_decides(bytes: Seq<u8>) {
    }

    fn size() -> (n: usize) {
        2
    }

    fn from_bytes(bytes: &[u8]) -> (r: Option<Self>) {
        if bytes.len() != 2 {
            return None;
        }
        proof {
            lemma_pow256_values();
        }
        Some(read_signed(bytes, false) as i16)
    }

    fn to_bytes(&self) -> (r: Vec<u8>) {
        proof {
            lemma_pow256_values();
        }
        write_signed(*self as i128, 2, false)
    }
}

impl EndianNumber for i16 {
    open spec fn spec_from_bytes_e(bytes: Seq<u8>, bigendian: bool) -> Option<Self> {
        if bytes.len() == 2 {
            Some(signed_of(value_of(bytes, bigendian), 2) as i16)
        } else {
            None
        }
    }

    open spec fn spec_to_bytes_e(&self, bigendian: bool) -> Seq<u8> {
        bytes_of(pattern_of(*self as int, 2), 2, bigendian)
    }

    proof fn lemma_round_trip_e(&self, bigendian: bool) {
        lemma_pow256_values();
        lemma_signed_of_pattern_of(*self as int, 2);
        lemma_value_of_bytes_of(pattern_of(*self as int, 2), 2, bigendian);
    }

    proof fn lemma_length_decides_e(bytes: Seq<u8>, bigendian: bool) {
    }

    fn from_bytes_e(bytes: &[u8], bigendian: bool) -> (r: Option<Self>) {
        if bytes.len() != 2 {
            return None;
        }
        proof {
            lemma_pow256_values();
        }
        Some(read_signed(bytes, bigendian) as i16)
    }

    fn to_bytes_e(&self, bigendian: bool) -> (r: Vec<u8>) {
        proof {
            lemma_pow256_values();
        }
        write_signed(*self as i128, 2, bigendian)
    }
}

impl SizedNumber for u32 {
    open spec fn spec_size() -> nat {
        4
    }

    open spec fn spec_from_bytes(bytes: Seq<u8>) -> Option<Self> {
        if bytes.len() == 4 {
            Some(le_value(bytes) as u32)
        } else {
            None
        }
    }

    open spec fn spec_to_bytes(&self) -> Seq<u8> {
        le_bytes(*self as nat, 4)
    }

    proof fn lemma_round_trip(&self) {
        lemma_pow256_values();
        lemma_value_of_bytes_of(*self as nat, 4, false);
    }

    proof fn lemma_length_decides(bytes: Seq<u8>) {
    }

    fn size() -> (n: usize) {
        4
    }

    fn from_bytes(bytes: &[u8]) -> (r: Option<Self>) {
        if bytes.len() != 4 {
            return None;
        }
        proof {
            lemma_pow256_values();
        }
        Some(read_unsigned(bytes, false) as u32)
    }

    fn to_bytes(&self) -> (r: Vec<u8>) {
        proof {
            lemma_pow256_values();
        }
        write_unsigned(*self as u128, 4, false)
    }
}

impl EndianNumber for u32 {
    open spec fn spec_from_bytes_e(bytes: Seq<u8>, bigendian: bool) -> Option<Self> {
        if bytes.len() == 4 {
            Some(value_of(bytes, bigendian) as u32)
        } else {
            None
        }
    }

    open spec fn spec_to_bytes_e(&self, bigendian: bool) -> Seq<u8> {
        bytes_of(*self as nat, 4, bigendian)
    }

    proof fn lemma_round_trip_e(&self, bigendian: bool) {
        lemma_pow256_values();
        lemma_value_of_bytes_of(*self as nat, 4, bigendian);
    }

    proof fn lemma_length_decides_e(bytes: Seq<u8>, bigendian: bool) {
    }

    fn from_bytes_e(bytes: &[u8], bigendian: bool) -> (r: Option<Self>) {
        if bytes.len() != 4 {
            return None;
        }
        proof {
            lemma_pow256_values();
        }
        Some(read_unsigned(bytes, bigendian) as u32)
    }

    fn to_bytes_e(&self, bigendian: bool) -> (r: Vec<u8>) {
        proof {
            lemma_pow256_values();
        }
        write_unsigned(*self as u128, 4, bigendian)
    }
}

impl SizedNumber for i32 {
    open spec fn spec_size() -> nat {
        4
    }

    open spec fn spec_from_bytes(bytes: Seq<u8>) -> Option<Self> {
        if bytes.len() == 4 {
            Some(signed_of(le_value(bytes), 4) as i32)
        } else {
            None
        }
    }

    open spec fn spec_to_bytes(&self) -> Seq<u8> {
        le_bytes(pattern_of(*self as int, 4), 4)
    }

    proof fn lemma_round_trip(&self) {
        lemma_pow256_values();
        lemma_signed_of_pattern_of(*self as int, 4);
        lemma_value_of_bytes_of(pattern_of(*self as int, 4), 4, false);
    }

    proof fn lemma_length_decides(bytes: Seq<u8>) {
    }

    fn size() -> (n: usize) {
        4
    }

    fn from_bytes(bytes: &[u8]) -> (r: Option<Self>) {
        if bytes.len() != 4 {
            return None;
        }
        proof {
            lemma_pow256_values();
        }
        Some(read_signed(bytes, false) as i32)
    }

    fn to_bytes(&self) -> (r: Vec<u8>) {
        proof {
            lemma_pow256_values();
        }
        write_signed(*self as i128, 4, false)
    }
}

impl EndianNumber for i32 {
    open spec fn spec_from_bytes_e(bytes: Seq<u8>, bigendian: bool) -> Option<Self> {
        if bytes.len() == 4 {
            Some(signed_of(value_of(bytes, bigendian), 4) as i32)
        } else {
            None
        }
    }

    open spec fn spec_to_bytes_e(&self, bigendian: bool) -> Seq<u8> {
        bytes_of(pattern_of(*self as int, 4), 4, bigendian)
    }

    proof fn lemma_round_trip_e(&self, bigendian: bool) {
        lemma_pow256_values();
        lemma_signed_of_pattern_of(*self as int, 4);
        lemma_value_of_bytes_of(pattern_of(*self as int, 4), 4, bigendian);
    }

    proof fn lemma_length_decides_e(bytes: Seq<u8>, bigendian: bool) {
    }

    fn from_bytes_e(bytes: &[u8], bigendian: bool) -> (r: Option<Self>) {
        if bytes.len() != 4 {
            return None;
        }
        proof {
            lemma_pow256_values();
        }
        Some(read_signed(bytes, bigendian) as i32)
    }

    fn to_bytes_e(&self, bigendian: bool) -> (r: Vec<u8>) {
        proof {
            lemma_pow256_values();
        }
        write_signed(*self as i128, 4, bigendian)
    }
}

impl SizedNumber for u64 {
    open spec fn spec_size() -> nat {
        8
    }

    open spec fn spec_from_bytes(bytes: Seq<u8>) -> Option<Self> {
        if bytes.len() == 8 {
            Some(le_value(bytes) as u64)
        } else {
            None
        }
    }

    open spec fn spec_to_bytes(&self) -> Seq<u8> {
        le_bytes(*self as nat, 8)
    }

    proof fn lemma_round_trip(&self) {
        lemma_pow256_values();
        lemma_value_of_bytes_of(*self as nat, 8, false);
    }

    proof fn lemma_length_decides(bytes: Seq<u8>) {
    }

    fn size() -> (n: usize) {
        8
    }

    fn from_bytes(bytes: &[u8]) -> (r: Option<Self>) {
        if bytes.len() != 8 {
            return None;
        }
        proof {
            lemma_pow256_values();
        }
        Some(read_unsigned(bytes, false) as u64)
    }

    fn to_bytes(&self) -> (r: Vec<u8>) {
        proof {
            lemma_pow256_values();
        }
        write_unsigned(*self as u128, 8, false)
    }
}

impl EndianNumber for u64 {
    open spec fn spec_from_bytes_e(bytes: Seq<u8>, bigendian: bool) -> Option<Self> {
        if bytes.len() == 8 {
            Some(value_of(bytes, bigendian) as u64)
        } else {
            None
        }
    }

    open spec fn spec_to_bytes_e(&self, bigendian: bool) -> Seq<u8> {
        bytes_of(*self as nat, 8, bigendian)
    }

    proof fn lemma_round_trip_e(&self, bigendian: bool) {
        lemma_pow256_values();
        lemma_value_of_bytes_of(*self as nat, 8, bigendian);
    }

    proof fn lemma_length_decides_e(bytes: Seq<u8>, bigendian: bool) {
    }

    fn from_bytes_e(bytes: &[u8], bigendian: bool) -> (r: Option<Self>) {
        if bytes.len() != 8 {
            return None;
        }
        proof {
            lemma_pow256_values();
        }
        Some(read_unsigned(bytes, bigendian) as u64)
    }

    fn to_bytes_e(&self, bigendian: bool) -> (r: Vec<u8>) {
        proof {
            lemma_pow256_values();
        }
        write_unsigned(*self as u128, 8, bigendian)
    }
}

impl SizedNumber for i64 {
    open spec fn spec_size() -> nat {
        8
    }

    open spec fn spec_from_bytes(bytes: Seq<u8>) -> Option<Self> {
        if bytes.len() == 8 {
            Some(signed_of(le_value(bytes), 8) as i64)
        } else {
            None
        }
    }

    open spec fn spec_to_bytes(&self) -> Seq<u8> {
        le_bytes(pattern_of(*self as int, 8), 8)
    }

    proof fn lemma_round_trip(&self) {
        lemma_pow256_values();
        lemma_signed_of_pattern_of(*self as int, 8);
        lemma_value_of_bytes_of(pattern_of(*self as int, 8), 8, false);
    }

    proof fn lemma_length_decides(bytes: Seq<u8>) {
    }

    fn size() -> (n: usize) {
        8
    }

    fn from_bytes(bytes: &[u8]) -> (r: Option<Self>) {
        if bytes.len() != 8 {
            return None;
        }
        proof {
            lemma_pow256_values();
        }
        Some(read_signed(bytes, false) as i64)
    }

    fn to_bytes(&self) -> (r: Vec<u8>) {
        proof {
            lemma_pow256_values();
        }
        write_signed(*self as i128, 8, false)
    }
}

impl EndianNumber for i64 {
    open spec fn spec_from_bytes_e(bytes: Seq<u8>, bigendian: bool) -> Option<Self> {
        if bytes.len() == 8 {
            Some(signed_of(value_of(bytes, bigendian), 8) as i64)
        } else {
            None
        }
    }

    open spec fn spec_to_bytes_e(&self, bigendian: bool) -> Seq<u8> {
        bytes_of(pattern_of(*self as int, 8), 8, bigendian)
    }

    proof fn lemma_round_trip_e(&self, bigendian: bool) {
        lemma_pow256_values();
        lemma_signed_of_pattern_of(*self as int, 8);
        lemma_value_of_bytes_of(pattern_of(*self as int, 8), 8, bigendian);
    }

    proof fn lemma_length_decides_e(bytes: Seq<u8>, bigendian: bool) {
    }

    fn from_bytes_e(bytes: &[u8], bigendian: bool) -> (r: Option<Self>) {
        if bytes.len() != 8 {
            return None;
        }
        proof {
            lemma_pow256_values();
        }
        Some(read_signed(bytes, bigendian) as i64)
    }

    fn to_bytes_e(&self, bigendian: bool) -> (r: Vec<u8>) {
        proof {
            lemma_pow256_values();
        }
        write_signed(*self as i128, 8, bigendian)
    }
}

impl SizedNumber for u128 {
    open spec fn spec_size() -> nat {
        16
    }

    open spec fn spec_from_bytes(bytes: Seq<u8>) -> Option<Self> {
        if bytes.len() == 16 {
            Some(le_value(bytes) as u128)
        } else {
            None
        }
    }

    open spec fn spec_to_bytes(&self) -> Seq<u8> {
        le_bytes(*self as nat, 16)
    }

    proof fn lemma_round_trip(&self) {
        lemma_pow256_values();
        lemma_value_of_bytes_of(*self as nat, 16, false);
    }

    proof fn lemma_length_decides(bytes: Seq<u8>) {
    }

    fn size() -> (n: usize) {
        16
    }

    fn from_bytes(bytes: &[u8]) -> (r: Option<Self>) {
        if bytes.len() != 16 {
            return None;
        }
        proof {
            lemma_pow256_values();
        }
        Some(read_unsigned(bytes, false))
    }

    fn to_bytes(&self) -> (r: Vec<u8>) {
        proof {
            lemma_pow256_values();
        }
        write_unsigned(*self, 16, false)
    }
}

impl EndianNumber for u128 {
    open spec fn spec_from_bytes_e(bytes: Seq<u8>, bigendian: bool) -> Option<Self> {
        if bytes.len() == 16 {
            Some(value_of(bytes, bigendian) as u128)
        } else {
            None
        }
    }

    open spec fn spec_to_bytes_e(&self, bigendian: bool) -> Seq<u8> {
        bytes_of(*self as nat, 16, bigendian)
    }

    proof fn lemma_round_trip_e(&self, bigendian: bool) {
        lemma_pow256_values();
        lemma_value_of_bytes_of(*self as nat, 16, bigendian);
    }

    proof fn lemma_length_decides_e(bytes: Seq<u8>, bigendian: bool) {
    }

    fn from_bytes_e(bytes: &[u8], bigendian: bool) -> (r: Option<Self>) {
        if bytes.len() != 16 {
            return None;
        }
        proof {
            lemma_pow256_values();
        }
        Some(read_unsigned(bytes, bigendian))
    }

    fn to_bytes_e(&self, bigendian: bool) -> (r: Vec<u8>) {
        proof {
            lemma_pow256_values();
        }
        write_unsigned(*self, 16, bigendian)
    }
}

impl SizedNumber for i128 {
    open spec fn spec_size() -> nat {
        16
    }

    open spec fn spec_from_bytes(bytes: Seq<u8>) -> Option<Self> {
        if bytes.len() == 16 {
            Some(signed_of(le_value(bytes), 16) as i128)
        } else {
            None
        }
    }

    open spec fn spec_to_bytes(&self) -> Seq<u8> {
        le_bytes(pattern_of(*self as int, 16), 16)
    }

    proof fn lemma_round_trip(&self) {
        lemma_pow256_values();
        lemma_signed_of_pattern_of(*self as int, 16);
        lemma_value_of_bytes_of(pattern_of(*self as int, 16), 16, false);
    }

    proof fn lemma_length_decides(bytes: Seq<u8>) {
    }

    fn size() -> (n: usize) {
        16
    }

    fn from_bytes(bytes: &[u8]) -> (r: Option<Self>) {
        if bytes.len() != 16 {
            return None;
        }
        proof {
            lemma_pow256_values();
        }
        Some(read_signed(bytes, false))
    }

    fn to_bytes(&self) -> (r: Vec<u8>) {
        proof {
            lemma_pow256_values();
        }
        write_signed(*self, 16, false)
    }
}

impl EndianNumber for i128 {
    open spec fn spec_from_bytes_e(bytes: Seq<u8>, bigendian: bool) -> Option<Self> {
        if bytes.len() == 16 {
            Some(signed_of(value_of(bytes, bigendian), 16) as i128)
        } else {
            None
        }
    }

    open spec fn spec_to_bytes_e(&self, bigendian: bool) -> Seq<u8> {
        bytes_of(pattern_of(*self as int, 16), 16, bigendian)
    }

    proof fn lemma_round_trip_e(&self, bigendian: bool) {
        lemma_pow256_values();
        lemma_signed_of_pattern_of(*self as int, 16);
        lemma_value_of_bytes_of(pattern_of(*self as int, 16), 16, bigendian);
    }

    proof fn lemma_length_decides_e(bytes: Seq<u8>, bigendian: bool) {
    }

    fn from_bytes_e(bytes: &[u8], bigendian: bool) -> (r: Option<Self>) {
        if bytes.len() != 16 {
            return None;
        }
        proof {
            lemma_pow256_values();
        }
        Some(read_signed(bytes, bigendian))
    }

    fn to_bytes_e(&self, bigendian: bool) -> (r: Vec<u8>) {
        proof {
            lemma_pow256_values();
        }
        write_signed(*self, 16, bigendian)
    }
}

/// The primitive integers take little-endian for their own byte order: what
/// `from_bytes` reads is what `from_bytes_e` reads little-endian.
pub proof fn lemma_own_order_is_little_endian(bytes: Seq<u8>)
    ensures
        u8::spec_from_bytes(bytes) == u8::spec_from_bytes_e(bytes, false),
        i8::spec_from_bytes(bytes) == i8::spec_from_bytes_e(bytes, false),
        u16::spec_from_bytes(bytes) == u16::spec_from_bytes_e(bytes, false),
        i16::spec_from_bytes(bytes) == i16::spec_from_bytes_e(bytes, false),
        u32::spec_from_bytes(bytes) == u32::spec_from_bytes_e(bytes, false),
        i32::spec_from_bytes(bytes) == i32::spec_from_bytes_e(bytes, false),
        u64::spec_from_bytes(bytes) == u64::spec_from_bytes_e(bytes, false),
        i64::spec_from_bytes(bytes) == i64::spec_from_bytes_e(bytes, false),
        u128::spec_from_bytes(bytes) == u128::spec_from_bytes_e(bytes, false),
        i128::spec_from_bytes(bytes) == i128::spec_from_bytes_e(bytes, false),
{
}

/// An unsigned byte stands for the same value in both byte orders, and is
/// written as the same byte in both.
pub proof fn lemma_u8_ignores_byte_order(bytes: Seq<u8>, value: u8)
    ensures
        u8::spec_from_bytes_e(bytes, true) == u8::spec_from_bytes_e(bytes, false),
        value.spec_to_bytes_e(true) == value.spec_to_bytes_e(false),
{
    if bytes.len() == 1 {
        lemma_single_byte(bytes);
    }
    assert(be_bytes(value as nat, 1) =~= le_bytes(value as nat, 1)) by {
        reveal_with_fuel(be_bytes, 2);
        reveal_with_fuel(le_bytes, 2);
    }
}

/// A signed byte stands for the same value in both byte orders, and is
/// written as the same byte in both.
pub proof fn lemma_i8_ignores_byte_order(bytes: Seq<u8>, value: i8)
    ensures
        i8::spec_from_bytes_e(bytes, true) == i8::spec_from_bytes_e(bytes, false),
        value.spec_to_bytes_e(true) == value.spec_to_bytes_e(false),
{
    if bytes.len() == 1 {
        lemma_single_byte(bytes);
    }
    let pattern = pattern_of(value as int, 1);
    assert(be_bytes(pattern, 1) =~= le_bytes(pattern, 1)) by {
        reveal_with_fuel(be_bytes, 2);
        reveal_with_fuel(le_bytes, 2);
    }
}

} // verus!
