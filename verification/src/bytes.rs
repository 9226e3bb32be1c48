//! Sequential readers: peeking and consuming values, byte runs and text at
//! the cursor of a byte source.
use crate::source::{ByteSource, Stream};
use crate::traits::{EndianNumber, SizedNumber};
use vstd::prelude::*;
use vstd::utf8::{decode_utf8, valid_utf8};

verus! {

/// The text that lossy UTF-8 decoding makes of `bytes`: the characters that
/// the bytes encode, with U+FFFD in place of each malformed stretch.
pub uninterp spec fn utf8_lossy(bytes: Seq<u8>) -> Seq<char>;

/// Decodes `bytes` as UTF-8 with `String::from_utf8_lossy`.
///
/// Taken on trust from the standard library: the call decides nothing but
/// from its argument, so its result has a name, `utf8_lossy`; and bytes that
/// are well-formed UTF-8 come back as the very characters they encode.
#[verifier::external_body]
fn lossy_text(bytes: &[u8]) -> (text: String)
    ensures
        text@ == utf8_lossy(bytes@),
        valid_utf8(bytes@) ==> text@ == decode_utf8(bytes@),
{
    String::from_utf8_lossy(bytes).into_owned()
}

/// What one reading operation comes to: the value it returns and the stream
/// it leaves behind.
pub struct Outcome<T> {
    pub value: Option<T>,
    pub stream: Stream,
}

impl Stream {
    /// The value of type `U` that stands at the cursor, in the type's own byte order.
    pub open spec fn decode<U: SizedNumber>(self) -> Option<U> {
        match self.read(U::spec_size()) {
            Some(run) => U::spec_from_bytes(run),
            None => None,
        }
    }

    /// The value of type `U` that stands at the cursor in the given byte order.
    pub open spec fn decode_endian<U: EndianNumber>(self, bigendian: bool) -> Option<U> {
        match self.read(U::spec_size()) {
            Some(run) => U::spec_from_bytes_e(run, bigendian),
            None => None,
        }
    }

    /// The text that the `n` bytes at the cursor make.
    pub open spec fn text(self, n: nat) -> Option<Seq<char>> {
        match self.read(n) {
            Some(run) => Some(utf8_lossy(run)),
            None => None,
        }
    }

    /// Looking at the value at the cursor: the stream stays as it is.
    pub open spec fn peek<U: SizedNumber>(self) -> Outcome<U> {
        Outcome { value: self.decode::<U>(), stream: self }
    }

    /// Taking the value at the cursor: the cursor moves past the bytes read.
    pub open spec fn consume<U: SizedNumber>(self) -> Outcome<U> {
        Outcome { value: self.decode::<U>(), stream: self.skip(U::spec_size()) }
    }

    /// Looking at the value at the cursor in a given byte order.
    pub open spec fn peek_endian<U: EndianNumber>(self, bigendian: bool) -> Outcome<U> {
        Outcome { value: self.decode_endian::<U>(bigendian), stream: self }
    }

    /// Taking the value at the cursor in a given byte order.
    pub open spec fn consume_endian<U: EndianNumber>(self, bigendian: bool) -> Outcome<U> {
        Outcome { value: self.decode_endian::<U>(bigendian), stream: self.skip(U::spec_size()) }
    }

    /// Looking at the `n` bytes at the cursor.
    pub open spec fn peek_bytes(self, n: nat) -> Outcome<Seq<u8>> {
        Outcome { value: self.read(n), stream: self }
    }

    /// Taking the `n` bytes at the cursor.
    pub open spec fn consume_bytes(self, n: nat) -> Outcome<Seq<u8>> {
        Outcome { value: self.read(n), stream: self.skip(n) }
    }

    /// Looking at the `n` bytes at the cursor as text.
    pub open spec fn peek_text(self, n: nat) -> Outcome<Seq<char>> {
        Outcome { value: self.text(n), stream: self }
    }

    /// Taking the `n` bytes at the cursor as text.
    pub open spec fn consume_text(self, n: nat) -> Outcome<Seq<char>> {
        Outcome { value: self.text(n), stream: self.skip(n) }
    }
}

/// A sequential reader of values, byte runs and text. Every byte source is one.
pub trait SeqByteReader: ByteSource {
    /// Peeks the next `U` at the current position: reads as many bytes as a
    /// `U` takes, converts them, and leaves the position where it was.
    /// Returns `None` if there are not enough bytes to be read.
    fn next<U: SizedNumber>(&mut self) -> (r: Option<U>)
        ensures
            r == old(self)@.peek::<U>().value,
            final(self)@ == old(self)@.peek::<U>().stream,
            r is Some <==> old(self)@.available(U::spec_size()),
            final(self)@ == old(self)@,
    ;

    /// Reads the next `U` at the current position and moves the position
    /// past its bytes. Returns `None`, and moves nothing, if there are not
    /// enough bytes to be read.
    fn shift<U: SizedNumber>(&mut self) -> (r: Option<U>)
        ensures
            r == old(self)@.consume::<U>().value,
            final(self)@ == old(self)@.consume::<U>().stream,
            r is Some <==> old(self)@.available(U::spec_size()),
            r is Some ==> final(self)@.position == old(self)@.position + U::spec_size(),
            r is None ==> final(self)@ == old(self)@,
    ;

    /// Peeks the next `amount` bytes.
    fn next_slice(&mut self, amount: usize) -> (r: Option<Vec<u8>>)
        ensures
            match r {
                Some(run) => old(self)@.peek_bytes(amount as nat).value == Some(run@),
                None => old(self)@.peek_bytes(amount as nat).value is None,
            },
            final(self)@ == old(self)@.peek_bytes(amount as nat).stream,
            final(self)@ == old(self)@,
    ;

    /// Reads the next `amount` bytes and moves the position past them.
    fn shift_slice(&mut self, amount: usize) -> (r: Option<Vec<u8>>)
        ensures
            match r {
                Some(run) => old(self)@.consume_bytes(amount as nat).value == Some(run@),
                None => old(self)@.consume_bytes(amount as nat).value is None,
            },
            final(self)@ == old(self)@.consume_bytes(amount as nat).stream,
            r is Some ==> final(self)@.position == old(self)@.position + amount,
            r is None ==> final(self)@ == old(self)@,
    ;

    /// Peeks the next `amount` bytes as text, decoded as UTF-8 with
    /// replacement of what is malformed.
    fn next_string(&mut self, amount: usize) -> (r: Option<String>)
        ensures
            match r {
                Some(text) => old(self)@.peek_text(amount as nat).value == Some(text@),
                None => old(self)@.peek_text(amount as nat).value is None,
            },
            r matches Some(text) ==> (valid_utf8(old(self)@.window(amount as nat)) ==> text@
                == decode_utf8(old(self)@.window(amount as nat))),
            final(self)@ == old(self)@.peek_text(amount as nat).stream,
            final(self)@ == old(self)@,
    {
        let slice = self.next_slice(amount)?;
        Some(lossy_text(slice.as_slice()))
    }

    /// Reads the next `amount` bytes as text, decoded as UTF-8 with
    /// replacement of what is malformed, and moves the position past them.
    fn shift_string(&mut self, amount: usize) -> (r: Option<String>)
        ensures
            match r {
                Some(text) => old(self)@.consume_text(amount as nat).value == Some(text@),
                None => old(self)@.consume_text(amount as nat).value is None,
            },
            r matches Some(text) ==> (valid_utf8(old(self)@.window(amount as nat)) ==> text@
                == decode_utf8(old(self)@.window(amount as nat))),
            final(self)@ == old(self)@.consume_text(amount as nat).stream,
            r is Some ==> final(self)@.position == old(self)@.position + amount,
            r is None ==> final(self)@ == old(self)@,
    {
        let slice = self.shift_slice(amount)?;
        Some(lossy_text(slice.as_slice()))
    }
}

/// A sequential reader of values in a byte order chosen call by call. Every
/// byte source is one.
pub trait ESeqByteReader: ByteSource {
    /// Peeks the next `U` at the current position in the given byte order,
    /// and leaves the position where it was. Returns `None` if there are not
    /// enough bytes to be read.
    fn next_e<U: EndianNumber>(&mut self, bigendian: bool) -> (r: Option<U>)
        ensures
            r == old(self)@.peek_endian::<U>(bigendian).value,
            final(self)@ == old(self)@.peek_endian::<U>(bigendian).stream,
            r is Some <==> old(self)@.available(U::spec_size()),
            final(self)@ == old(self)@,
    ;

    /// Reads the next `U` at the current position in the given byte order
    /// and moves the position past its bytes. Returns `None`, and moves
    /// nothing, if there are not enough bytes to be read.
    fn shift_e<U: EndianNumber>(&mut self, bigendian: bool) -> (r: Option<U>)
        ensures
            r == old(self)@.consume_endian::<U>(bigendian).value,
            final(self)@ == old(self)@.consume_endian::<U>(bigendian).stream,
            r is Some <==> old(self)@.available(U::spec_size()),
            r is Some ==> final(self)@.position == old(self)@.position + U::spec_size(),
            r is None ==> final(self)@ == old(self)@,
    ;
}

impl<T: ByteSource> SeqByteReader for T {
    fn next<U: SizedNumber>(&mut self) -> (r: Option<U>) {
        let size: usize = U::size();
        let mut a: Vec<u8> = vec![0u8; size];
        if !self.read_exact(&mut a) {
            return None;
        }
        self.step_back(size);
        U::from_bytes(a.as_slice())
    }

    fn shift<U: SizedNumber>(&mut self) -> (r: Option<U>) {
        let size: usize = U::size();
        let mut a: Vec<u8> = vec![0u8; size];
        if !self.read_exact(&mut a) {
            return None;
        }
        U::from_bytes(a.as_slice())
    }

    fn next_slice(&mut self, amount: usize) -> (r: Option<Vec<u8>>) {
        let mut a: Vec<u8> = vec![0u8; amount];
        if !self.read_exact(&mut a) {
            return None;
        }
        self.step_back(amount);
        Some(a)
    }

    fn shift_slice(&mut self, amount: usize) -> (r: Option<Vec<u8>>) {
        let mut a: Vec<u8> = vec![0u8; amount];
        if !self.read_exact(&mut a) {
            return None;
        }
        Some(a)
    }
}

impl<T: ByteSource> ESeqByteReader for T {
    fn next_e<U: EndianNumber>(&mut self, bigendian: bool) -> (r: Option<U>) {
        let size: usize = U::size();
        let mut a: Vec<u8> = vec![0u8; size];
        if !self.read_exact(&mut a) {
            return None;
        }
        self.step_back(size);
        U::from_bytes_e(a.as_slice(), bigendian)
    }

    fn shift_e<U: EndianNumber>(&mut self, bigendian: bool) -> (r: Option<U>) {
        let size: usize = U::size();
        let mut a: Vec<u8> = vec![0u8; size];
        if !self.read_exact(&mut a) {
            return None;
        }
        U::from_bytes_e(a.as_slice(), bigendian)
    }
}

/// Peeking twice in a row gives the same value both times, and the cursor
/// stands after the second peek where it stood before the first.
pub proof fn lemma_peek_idempotent<U: SizedNumber>(s: Stream)
    ensures
        s.peek::<U>().stream.peek::<U>() == s.peek::<U>(),
        s.peek::<U>().stream.position == s.position,
{
}

/// The same of peeking in a chosen byte order.
pub proof fn lemma_peek_endian_idempotent<U: EndianNumber>(s: Stream, bigendian: bool)
    ensures
        s.peek_endian::<U>(bigendian).stream.peek_endian::<U>(bigendian) == s.peek_endian::<U>(
            bigendian,
        ),
        s.peek_endian::<U>(bigendian).stream.position == s.position,
{
}

/// Consuming a value moves the cursor forward by exactly the size of its
/// type. It fails only where the bytes are not there, and then nothing moves.
pub proof fn lemma_consume_advances<U: SizedNumber>(s: Stream)
    ensures
        s.consume::<U>().value is Some <==> s.available(U::spec_size()),
        s.consume::<U>().value is Some ==> s.consume::<U>().stream.position == s.position
            + U::spec_size(),
        s.consume::<U>().value is None ==> s.consume::<U>().stream == s,
{
    if s.available(U::spec_size()) {
        U::lemma_length_decides(s.window(U::spec_size()));
    }
}

/// The same of consuming in a chosen byte order.
pub proof fn lemma_consume_endian_advances<U: EndianNumber>(s: Stream, bigendian: bool)
    ensures
        s.consume_endian::<U>(bigendian).value is Some <==> s.available(U::spec_size()),
        s.consume_endian::<U>(bigendian).value is Some ==> s.consume_endian::<U>(
            bigendian,
        ).stream.position == s.position + U::spec_size(),
        s.consume_endian::<U>(bigendian).value is None ==> s.consume_endian::<U>(
            bigendian,
        ).stream == s,
{
    if s.available(U::spec_size()) {
        U::lemma_length_decides_e(s.window(U::spec_size()), bigendian);
    }
}

} // verus!
