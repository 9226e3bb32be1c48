use seqbytes::float::Binary64;
use seqbytes::prelude::{ByteCursor, EndianNumber, SeqByteReader, SizedNumber};

#[test]
fn it_works() {
    let result: i32 = 2 + 2;
    assert_eq!(result, 4);
}

#[test]
fn f64_trait_test() {
    let a: f64 = 22.4f64;
    let b = Binary64(a.to_bits()).to_bytes();
    let c = Binary64::from_bytes_e(&b, false).unwrap();

    assert_eq!(f64::from_bits(c.0), 22.4);
}

#[test]
fn tt() {
    let a: [u8; 4] = [69, 96, 255, 255];
    let b: i32 = i32::from_le_bytes(a);
    let c: i32 = i32::from_be_bytes(a);

    println!("{}", b);
    println!("{}", c);

    assert_eq!(i32::from_bytes_e(&a, false), Some(b));
    assert_eq!(i32::from_bytes_e(&a, true), Some(c));
}

#[test]
fn endiantest() {
    let a: Vec<u8> = vec![69, 96, 255, 255, 0x68, 0x65, 0x6C, 0x6C, 0x6F];
    let mut cursor = ByteCursor::new(a);

    let num: i32 = cursor.shift().unwrap();
    let s = &*cursor.shift_string(5).unwrap();

    assert_eq!(num, -40891);
    assert_eq!(*s, *"hello");
}
