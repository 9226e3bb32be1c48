//! Byte runs read as numbers.
//!
//! A run of bytes stands for a natural number once a byte order is chosen:
//! little-endian puts the least significant byte first, big-endian puts it
//! last. Signed values are carried in two's complement. This module states
//! both readings as mathematical functions, proves that writing a number and
//! reading it back gives the number again, and implements both directions for
//! every width up to sixteen bytes.
use vstd::prelude::*;

verus! {

/// How many values `width` bytes can tell apart: 256 to the power `width`.
pub open spec fn pow256(width: nat) -> nat
    decreases width,
{
    if width == 0 {
        1
    } else {
        256 * pow256((width - 1) as nat)
    }
}

/// The number that `bytes` stands for when the first byte is the least significant.
pub open spec fn le_value(bytes: Seq<u8>) -> nat
    decreases bytes.len(),
{
    if bytes.len() == 0 {
        0
    } else {
        bytes.first() as nat + 256 * le_value(bytes.drop_first())
    }
}

/// The number that `bytes` stands for when the last byte is the least significant.
pub open spec fn be_value(bytes: Seq<u8>) -> nat
    decreases bytes.len(),
{
    if bytes.len() == 0 {
        0
    } else {
        256 * be_value(bytes.drop_last()) + bytes.last() as nat
    }
}

/// The low `width` base-256 digits of `value`, least significant first.
pub open spec fn le_bytes(value: nat, width: nat) -> Seq<u8>
    decreases width,
{
    if width == 0 {
        Seq::empty()
    } else {
        seq![(value % 256) as u8] + le_bytes(value / 256, (width - 1) as nat)
    }
}

/// The low `width` base-256 digits of `value`, most significant first.
pub open spec fn be_bytes(value: nat, width: nat) -> Seq<u8>
    decreases width,
{
    if width == 0 {
        Seq::empty()
    } else {
        be_bytes(value / 256, (width - 1) as nat).push((value % 256) as u8)
    }
}

/// The number that `bytes` stands for in the byte order chosen by `big_endian`.
pub open spec fn value_of(bytes: Seq<u8>, big_endian: bool) -> nat {
    if big_endian {
        be_value(bytes)
    } else {
        le_value(bytes)
    }
}

/// The `width` bytes that stand for `value` in the byte order chosen by `big_endian`.
pub open spec fn bytes_of(value: nat, width: nat, big_endian: bool) -> Seq<u8> {
    if big_endian {
        be_bytes(value, width)
    } else {
        le_bytes(value, width)
    }
}

/// The two's complement reading of a `width`-byte pattern: patterns in the
/// upper half of the range stand for negative numbers.
pub open spec fn signed_of(pattern: nat, width: nat) -> int {
    if 2 * pattern < pow256(width) {
        pattern as int
    } else {
        pattern - pow256(width)
    }
}

/// The `width`-byte two's complement pattern of `value`.
pub open spec fn pattern_of(value: int, width: nat) -> nat {
    if value >= 0 {
        value as nat
    } else {
        (value + pow256(width)) as nat
    }
}

/// Whether `value` fits a signed integer of `width` bytes.
pub open spec fn fits_signed(value: int, width: nat) -> bool {
    -(pow256(width) as int) <= 2 * value < pow256(width)
}

/// The ranges of the five widths that the primitive integers have.
pub proof fn lemma_pow256_values()
    ensures
        pow256(0) == 1,
        pow256(1) == 0x100,
        pow256(2) == 0x1_0000,
        pow256(4) == 0x1_0000_0000,
        pow256(8) == 0x1_0000_0000_0000_0000,
        pow256(16) == 0x1_0000_0000_0000_0000_0000_0000_0000_0000,
{
    reveal_with_fuel(pow256, 3);
    assert(pow256(2) == 0x1_0000);
    assert(pow256(4) == 0x1_0000 * pow256(2));
    assert(pow256(6) == 0x1_0000 * pow256(4));
    assert(pow256(8) == 0x1_0000 * pow256(6));
    assert(pow256(10) == 0x1_0000 * pow256(8));
    assert(pow256(12) == 0x1_0000 * pow256(10));
    assert(pow256(14) == 0x1_0000 * pow256(12));
    assert(pow256(16) == 0x1_0000 * pow256(14));
}

/// More bytes never tell fewer values apart.
pub proof fn lemma_pow256_monotonic(narrow: nat, wide: nat)
    requires
        narrow <= wide,
    ensures
        1 <= pow256(narrow) <= pow256(wide),
    decreases wide,
{
    if narrow < wide {
        lemma_pow256_monotonic(narrow, (wide - 1) as nat);
    } else if wide > 0 {
        lemma_pow256_monotonic((narrow - 1) as nat, (wide - 1) as nat);
    }
}

/// Writing a number on enough bytes and reading the bytes back gives the
/// number again, in either byte order.
pub proof fn lemma_value_of_bytes_of(value: nat, width: nat, big_endian: bool)
    requires
        value < pow256(width),
    ensures
        bytes_of(value, width, big_endian).len() == width,
        value_of(bytes_of(value, width, big_endian), big_endian) == value,
    decreases width,
{
    if width > 0 {
        let rest = (width - 1) as nat;
        lemma_value_of_bytes_of(value / 256, rest, big_endian);
        if big_endian {
            let run = be_bytes(value, width);
            assert(run.drop_last() =~= be_bytes(value / 256, rest));
        } else {
            let run = le_bytes(value, width);
            assert(run.drop_first() =~= le_bytes(value / 256, rest));
        }
    }
}

/// A written number takes exactly `width` bytes, whether or not it fits them.
pub proof fn lemma_bytes_of_len(value: nat, width: nat, big_endian: bool)
    ensures
        bytes_of(value, width, big_endian).len() == width,
    decreases width,
{
    if width > 0 {
        lemma_bytes_of_len(value / 256, (width - 1) as nat, big_endian);
    }
}

/// One byte reads the same in both byte orders.
pub proof fn lemma_single_byte(bytes: Seq<u8>)
    requires
        bytes.len() == 1,
    ensures
        le_value(bytes) == bytes[0],
        be_value(bytes) == bytes[0],
{
    reveal_with_fuel(le_value, 2);
    reveal_with_fuel(be_value, 2);
}

/// The pattern of a signed value that fits is below `pow256(width)`, and reads
/// back as the value.
pub proof fn lemma_signed_of_pattern_of(value: int, width: nat)
    requires
        fits_signed(value, width),
    ensures
        pattern_of(value, width) < pow256(width),
        signed_of(pattern_of(value, width), width) == value,
{
}

/// The largest pattern of `width` bytes, `pow256(width) - 1`.
fn max_pattern(width: usize) -> (top: u128)
    requires
        width <= 16,
    ensures
        top == pow256(width as nat) - 1,
{
    let mut top: u128 = 0;
    let mut done: usize = 0;
    while done < width
        invariant
            done <= width <= 16,
            top == pow256(done as nat) - 1,
        decreases width - done,
    {
        proof {
            lemma_pow256_monotonic((done + 1) as nat, 16);
            lemma_pow256_values();
        }
        top = top * 256 + 255;
        done = done + 1;
    }
    top
}

/// Reads `bytes` as an unsigned number in the byte order chosen by `big_endian`.
pub fn read_unsigned(bytes: &[u8], big_endian: bool) -> (value: u128)
    requires
        bytes@.len() <= 16,
    ensures
        value == value_of(bytes@, big_endian),
        value < pow256(bytes@.len()),
{
    let n: usize = bytes.len();
    let mut acc: u128 = 0;
    if big_endian {
        let mut next: usize = 0;
        while next < n
            invariant
                next <= n,
                n == bytes@.len(),
                n <= 16,
                acc == be_value(bytes@.take(next as int)),
                acc < pow256(next as nat),
            decreases n - next,
        {
            proof {
                let seen = bytes@.take(next + 1);
                assert(seen.drop_last() =~= bytes@.take(next as int));
                lemma_pow256_monotonic((next + 1) as nat, 16);
                lemma_pow256_values();
            }
            acc = acc * 256 + bytes[next] as u128;
            next = next + 1;
        }
        assert(bytes@.take(n as int) =~= bytes@);
    } else {
        let mut left: usize = n;
        while left > 0
            invariant
                left <= n,
                n == bytes@.len(),
                n <= 16,
                acc == le_value(bytes@.skip(left as int)),
                acc < pow256((n - left) as nat),
            decreases left,
        {
            proof {
                let seen = bytes@.skip(left - 1);
                assert(seen.drop_first() =~= bytes@.skip(left as int));
                lemma_pow256_monotonic((n - left + 1) as nat, 16);
                lemma_pow256_values();
            }
            left = left - 1;
            acc = acc * 256 + bytes[left] as u128;
        }
        assert(bytes@.skip(0) =~= bytes@);
    }
    acc
}

/// Writes `value` on `width` bytes in the byte order chosen by `big_endian`.
pub fn write_unsigned(value: u128, width: usize, big_endian: bool) -> (bytes: Vec<u8>)
    requires
        width <= 16,
        value < pow256(width as nat),
    ensures
        bytes@ == bytes_of(value as nat, width as nat, big_endian),
        bytes@.len() == width,
{
    let mut rest: u128 = value;
    let mut out: Vec<u8> = vec![0u8; width];
    if big_endian {
        let mut left: usize = width;
        while left > 0
            invariant
                left <= width,
                out@.len() == width,
                be_bytes(value as nat, width as nat) == be_bytes(rest as nat, left as nat)
                    + out@.skip(left as int),
            decreases left,
        {
            let ghost before = out@;
            left = left - 1;
            out.set(left, (rest % 256) as u8);
            rest = rest / 256;
            assert(out@.skip(left as int) =~= seq![out@[left as int]] + before.skip(left + 1));
        }
        assert(out@.skip(0) =~= out@);
    } else {
        let mut next: usize = 0;
        while next < width
            invariant
                next <= width,
                out@.len() == width,
                le_bytes(value as nat, width as nat) == out@.take(next as int) + le_bytes(
                    rest as nat,
                    (width - next) as nat,
                ),
            decreases width - next,
        {
            let ghost before = out@;
            out.set(next, (rest % 256) as u8);
            rest = rest / 256;
            next = next + 1;
            assert(out@.take(next as int) =~= before.take(next - 1).push(out@[next - 1]));
        }
        assert(out@.take(width as int) =~= out@);
    }
    proof {
        lemma_bytes_of_len(value as nat, width as nat, big_endian);
    }
    out
}

/// Reads `bytes` as a two's complement number in the byte order chosen by `big_endian`.
pub fn read_signed(bytes: &[u8], big_endian: bool) -> (value: i128)
    requires
        bytes@.len() <= 16,
    ensures
        value == signed_of(value_of(bytes@, big_endian), bytes@.len()),
        fits_signed(value as int, bytes@.len()),
{
    let pattern: u128 = read_unsigned(bytes, big_endian);
    let top: u128 = max_pattern(bytes.len());
    proof {
        lemma_pow256_monotonic(bytes@.len(), 16);
        lemma_pow256_values();
    }
    if pattern <= top / 2 {
        pattern as i128
    } else {
        -((top - pattern) as i128) - 1
    }
}

/// Writes `value` on `width` bytes in two's complement, in the byte order
/// chosen by `big_endian`.
pub fn write_signed(value: i128, width: usize, big_endian: bool) -> (bytes: Vec<u8>)
    requires
        width <= 16,
        fits_signed(value as int, width as nat),
    ensures
        bytes@ == bytes_of(pattern_of(value as int, width as nat), width as nat, big_endian),
        bytes@.len() == width,
{
    let top: u128 = max_pattern(width);
    proof {
        lemma_pow256_monotonic(width as nat, 16);
        lemma_pow256_values();
    }
    let pattern: u128 = if value >= 0 {
        value as u128
    } else {
        top - ((-(value + 1)) as u128)
    };
    write_unsigned(pattern, width, big_endian)
}

} // verus!
