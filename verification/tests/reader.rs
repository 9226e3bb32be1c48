use seqbytes::bytes::{ESeqByteReader, SeqByteReader};
use seqbytes::float::Binary32;
use seqbytes::source::{ByteCursor, ByteSource, Stream};

#[test]
fn peeking_twice_gives_the_same_value_and_moves_nothing() {
    let mut cursor = ByteCursor::new(vec![69, 96, 255, 255, 1]);
    let before: usize = cursor.position();
    let first: Option<i32> = cursor.next();
    let second: Option<i32> = cursor.next();
    assert_eq!(first, Some(-40891));
    assert_eq!(first, second);
    assert_eq!(cursor.position(), before);

    cursor.set_position(2);
    let first: Option<u64> = cursor.next();
    let second: Option<u64> = cursor.next();
    assert_eq!(first, None);
    assert_eq!(second, None);
    assert_eq!(cursor.position(), 2);
}

#[test]
fn consuming_advances_by_the_size_of_the_type() {
    let data: Vec<u8> = (0..=40u8).collect();
    let mut cursor = ByteCursor::new(data);
    let a: Option<u8> = cursor.shift();
    assert_eq!(a, Some(0));
    assert_eq!(cursor.position(), 1);
    let b: Option<u16> = cursor.shift();
    assert_eq!(b, Some(0x0201));
    assert_eq!(cursor.position(), 3);
    let c: Option<u32> = cursor.shift();
    assert_eq!(c, Some(0x06050403));
    assert_eq!(cursor.position(), 7);
    let d: Option<i64> = cursor.shift();
    assert_eq!(d, Some(0x0E0D0C0B0A090807));
    assert_eq!(cursor.position(), 15);
    let e: Option<u128> = cursor.shift();
    assert_eq!(e, Some(0x1E1D1C1B1A191817161514131211100F));
    assert_eq!(cursor.position(), 31);
    let f: Option<Binary32> = cursor.shift();
    assert_eq!(f, Some(Binary32(0x2221201F)));
    assert_eq!(cursor.position(), 35);
    let g: Option<i128> = cursor.shift();
    assert_eq!(g, None);
    assert_eq!(cursor.position(), 35);
}

#[test]
fn mixed_scan_of_a_number_and_text() {
    let mut cursor = ByteCursor::new(vec![69, 96, 255, 255, 0x68, 0x65, 0x6C, 0x6C, 0x6F]);
    let num: Option<i32> = cursor.shift();
    assert_eq!(num, Some(-40891));
    assert_eq!(cursor.position(), 4);
    assert_eq!(cursor.next_string(5), Some(String::from("hello")));
    assert_eq!(cursor.position(), 4);
    assert_eq!(cursor.shift_string(5), Some(String::from("hello")));
    assert_eq!(cursor.position(), 9);
    assert_eq!(cursor.shift_string(1), None);
    assert_eq!(cursor.position(), 9);
}

#[test]
fn short_read_returns_nothing_and_leaves_the_cursor() {
    let mut cursor = ByteCursor::new(vec![2, 4, 6]);
    let a: Option<u32> = cursor.shift();
    assert_eq!(a, None);
    assert_eq!(cursor.position(), 0);
    let b: Option<u32> = cursor.next();
    assert_eq!(b, None);
    assert_eq!(cursor.position(), 0);
    let c: Option<u32> = cursor.shift_e(true);
    assert_eq!(c, None);
    assert_eq!(cursor.position(), 0);
    assert_eq!(cursor.shift_slice(4), None);
    assert_eq!(cursor.next_slice(4), None);
    assert_eq!(cursor.shift_string(4), None);
    assert_eq!(cursor.next_string(4), None);
    assert_eq!(cursor.position(), 0);
    assert_eq!(cursor.shift_slice(3), Some(vec![2, 4, 6]));
    assert_eq!(cursor.position(), 3);
}

#[test]
fn byte_order_is_chosen_call_by_call() {
    let mut cursor = ByteCursor::new(vec![69, 96, 255, 255]);
    let num: i32 = cursor.next_e(false).unwrap();
    let num2: i32 = cursor.shift_e(true).unwrap();
    let num3: Option<i32> = cursor.shift_e(false);
    assert_ne!(num, num2);
    assert_eq!(num, -40891);
    assert_eq!(num2, 1163984895);
    assert_eq!(num3, None);
}

#[test]
fn peeking_in_a_byte_order_leaves_the_position() {
    let mut cursor = ByteCursor::new(vec![69, 96, 255, 255]);
    let pos1: usize = cursor.position();
    let num: i32 = cursor.next_e(false).unwrap();
    let pos2: usize = cursor.position();
    assert_eq!(pos1, pos2);
    assert_eq!(num, -40891);
    let again: i32 = cursor.next_e(false).unwrap();
    assert_eq!(again, num);
    let other: i32 = cursor.next_e(true).unwrap();
    assert_eq!(other, 1163984895);
    assert_eq!(cursor.position(), 0);
}

#[test]
fn consuming_in_a_byte_order_moves_the_position() {
    let mut cursor = ByteCursor::new(vec![69, 96, 255, 255]);
    let pos1: usize = cursor.position();
    let num: i32 = cursor.shift_e(false).unwrap();
    let pos2: usize = cursor.position();
    assert_ne!(pos1, pos2);
    assert_eq!(pos2, pos1 + 4);
    assert_eq!(num, -40891);
}

#[test]
fn byte_runs_come_out_as_they_stand() {
    let mut cursor = ByteCursor::new(vec![10, 20, 30, 40, 50]);
    assert_eq!(cursor.next_slice(2), Some(vec![10, 20]));
    assert_eq!(cursor.position(), 0);
    assert_eq!(cursor.shift_slice(2), Some(vec![10, 20]));
    assert_eq!(cursor.position(), 2);
    assert_eq!(cursor.next_slice(0), Some(vec![]));
    assert_eq!(cursor.shift_slice(0), Some(vec![]));
    assert_eq!(cursor.position(), 2);
    assert_eq!(cursor.next_slice(4), None);
    assert_eq!(cursor.shift_slice(3), Some(vec![30, 40, 50]));
    assert_eq!(cursor.position(), 5);
    assert_eq!(cursor.shift_slice(0), Some(vec![]));
    assert_eq!(cursor.shift_slice(1), None);
    assert_eq!(cursor.position(), 5);
}

#[test]
fn malformed_text_is_replaced_not_refused() {
    let mut cursor = ByteCursor::new(vec![0x68, 0xFF, 0x69, 0xC3, 0xA9, 0xC3]);
    assert_eq!(cursor.next_string(3), Some(String::from("h\u{FFFD}i")));
    assert_eq!(cursor.shift_string(3), Some(String::from("h\u{FFFD}i")));
    assert_eq!(cursor.next_string(2), Some(String::from("\u{E9}")));
    assert_eq!(cursor.shift_string(3), Some(String::from("\u{E9}\u{FFFD}")));
    assert_eq!(cursor.position(), 6);
    assert_eq!(cursor.shift_string(0), Some(String::new()));
}

#[test]
fn cursor_reports_and_takes_positions() {
    let mut cursor = ByteCursor::new(vec![1, 2, 3]);
    assert_eq!(cursor.position(), 0);
    assert_eq!(cursor.get_ref(), &vec![1, 2, 3]);
    cursor.set_position(2);
    assert_eq!(cursor.position(), 2);
    let last: Option<u8> = cursor.shift();
    assert_eq!(last, Some(3));
    cursor.set_position(7);
    assert_eq!(cursor.position(), 7);
    let none: Option<u8> = cursor.next();
    assert_eq!(none, None);
    assert_eq!(cursor.shift_slice(0), None);
    assert_eq!(cursor.position(), 7);
    cursor.set_position(3);
    assert_eq!(cursor.shift_slice(0), Some(vec![]));
    assert_eq!(cursor.into_inner(), vec![1, 2, 3]);
}

#[test]
fn source_fills_the_buffer_or_leaves_it() {
    let mut cursor = ByteCursor::new(vec![9, 8, 7]);
    let mut buf: Vec<u8> = vec![0, 0];
    assert!(cursor.read_exact(&mut buf));
    assert_eq!(buf, vec![9, 8]);
    assert_eq!(cursor.position(), 2);
    let mut wide: Vec<u8> = vec![5, 5];
    assert!(!cursor.read_exact(&mut wide));
    assert_eq!(wide, vec![5, 5]);
    assert_eq!(cursor.position(), 2);
    cursor.step_back(2);
    assert_eq!(cursor.position(), 0);
    let mut all: Vec<u8> = vec![0; 3];
    assert!(cursor.read_exact(&mut all));
    assert_eq!(all, vec![9, 8, 7]);
    let mut none: Vec<u8> = Vec::new();
    assert!(cursor.read_exact(&mut none));
    assert_eq!(cursor.position(), 3);
}

struct Halting {
    data: Vec<u8>,
    at: usize,
    limit: usize,
}

impl ByteSource for Halting {
    fn view(&self) -> Stream {
        unreachable!()
    }

    fn read_exact(&mut self, buf: &mut Vec<u8>) -> bool {
        let end: usize = self.at + buf.len();
        if end > self.limit || end > self.data.len() {
            return false;
        }
        buf.copy_from_slice(&self.data[self.at..end]);
        self.at = end;
        true
    }

    fn step_back(&mut self, n: usize) {
        self.at -= n;
    }
}

#[test]
fn any_source_is_a_reader() {
    let mut source = Halting { data: vec![1, 0, 2, 0, 3, 0], at: 0, limit: 4 };
    let a: Option<u16> = source.next();
    assert_eq!(a, Some(1));
    assert_eq!(source.at, 0);
    let b: Option<u16> = source.shift();
    assert_eq!(b, Some(1));
    let c: Option<u16> = source.shift_e(true);
    assert_eq!(c, Some(0x0200));
    assert_eq!(source.at, 4);
    let d: Option<u16> = source.shift();
    assert_eq!(d, None);
    assert_eq!(source.at, 4);
    assert_eq!(source.next_slice(1), None);
}
