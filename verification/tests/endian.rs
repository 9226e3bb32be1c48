use seqbytes::endian::{read_signed, read_unsigned, write_signed, write_unsigned};

#[test]
fn reads_unsigned_runs_of_any_width() {
    assert_eq!(read_unsigned(&[], false), 0);
    assert_eq!(read_unsigned(&[], true), 0);
    assert_eq!(read_unsigned(&[7], false), 7);
    assert_eq!(read_unsigned(&[7], true), 7);
    assert_eq!(read_unsigned(&[1, 2, 3], false), 0x030201);
    assert_eq!(read_unsigned(&[1, 2, 3], true), 0x010203);
    assert_eq!(read_unsigned(&[0xFF; 16], false), u128::MAX);
    assert_eq!(read_unsigned(&[0xFF; 16], true), u128::MAX);
    assert_eq!(read_unsigned(&[0, 0, 0, 0, 1], false), 1 << 32);
    assert_eq!(read_unsigned(&[0, 0, 0, 0, 1], true), 1);
}

#[test]
fn writes_unsigned_values_on_any_width() {
    assert_eq!(write_unsigned(0, 0, false), Vec::<u8>::new());
    assert_eq!(write_unsigned(0, 0, true), Vec::<u8>::new());
    assert_eq!(write_unsigned(0x030201, 3, false), vec![1, 2, 3]);
    assert_eq!(write_unsigned(0x030201, 3, true), vec![3, 2, 1]);
    assert_eq!(write_unsigned(5, 4, false), vec![5, 0, 0, 0]);
    assert_eq!(write_unsigned(5, 4, true), vec![0, 0, 0, 5]);
    assert_eq!(write_unsigned(u128::MAX, 16, true), vec![0xFF; 16]);
    assert_eq!(write_unsigned(255, 1, false), vec![255]);
}

#[test]
fn reads_signed_runs_of_any_width() {
    assert_eq!(read_signed(&[0xFF, 0xFF, 0xFF], false), -1);
    assert_eq!(read_signed(&[0x00, 0x00, 0x80], false), -8388608);
    assert_eq!(read_signed(&[0x80, 0x00, 0x00], true), -8388608);
    assert_eq!(read_signed(&[0xFF, 0xFF, 0x7F], false), 8388607);
    assert_eq!(read_signed(&[0x7F], true), 127);
    assert_eq!(read_signed(&[0x80], true), -128);
    assert_eq!(read_signed(&[0xFF; 16], true), -1);
    assert_eq!(read_signed(&[69, 96, 255, 255], false), -40891);
    assert_eq!(read_signed(&[69, 96, 255, 255], true), 1163984895);
}

#[test]
fn writes_signed_values_on_any_width() {
    assert_eq!(write_signed(-1, 3, false), vec![0xFF, 0xFF, 0xFF]);
    assert_eq!(write_signed(-8388608, 3, false), vec![0x00, 0x00, 0x80]);
    assert_eq!(write_signed(-8388608, 3, true), vec![0x80, 0x00, 0x00]);
    assert_eq!(write_signed(8388607, 3, true), vec![0x7F, 0xFF, 0xFF]);
    assert_eq!(write_signed(-128, 1, false), vec![0x80]);
    assert_eq!(write_signed(i128::MIN, 16, true)[0], 0x80);
    assert_eq!(write_signed(-40891, 4, false), vec![69, 96, 255, 255]);
    assert_eq!(read_signed(&write_signed(-12345, 5, true), true), -12345);
    assert_eq!(read_unsigned(&write_unsigned(12345, 5, false), false), 12345);
}
