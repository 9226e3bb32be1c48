//! Byte sources: anything that hands out the bytes at a cursor, all of the
//! requested run or none of it, and can step the cursor back.
use vstd::prelude::*;

verus! {

/// The mathematical picture of a byte source: everything it can supply, and
/// how far into it the cursor stands.
pub struct Stream {
    pub bytes: Seq<u8>,
    pub position: nat,
}

impl Stream {
    /// Whether `n` more bytes lie at or after the cursor.
    pub open spec fn available(self, n: nat) -> bool {
        self.position + n <= self.bytes.len()
    }

    /// The `n` bytes that start at the cursor.
    pub open spec fn window(self, n: nat) -> Seq<u8>
        recommends
            self.available(n),
    {
        self.bytes.subrange(self.position as int, (self.position + n) as int)
    }

    /// The same bytes with the cursor `n` further on.
    pub open spec fn advance(self, n: nat) -> Stream {
        Stream { bytes: self.bytes, position: self.position + n }
    }

    /// The same bytes with the cursor `n` further back.
    pub open spec fn retreat(self, n: nat) -> Stream
        recommends
            n <= self.position,
    {
        Stream { bytes: self.bytes, position: (self.position - n) as nat }
    }

    /// The run that reading `n` bytes yields: all of them, or nothing.
    pub open spec fn read(self, n: nat) -> Option<Seq<u8>> {
        if self.available(n) {
            Some(self.window(n))
        } else {
            None
        }
    }

    /// The stream that reading `n` bytes leaves: past the run where it could
    /// be had, untouched where it could not.
    pub open spec fn skip(self, n: nat) -> Stream {
        if self.available(n) {
            self.advance(n)
        } else {
            self
        }
    }
}

/// A linear run of bytes with a cursor.
///
/// A source supplies a requested run whole or not at all. Whatever keeps it
/// from supplying the run (the end of the data, a failing device) counts as
/// the run not being there: `view` describes what the source can supply.
pub trait ByteSource {
    /// The bytes of the source and the place of its cursor.
    spec fn view(&self) -> Stream;

    /// Fills `buf` with the bytes at the cursor and moves the cursor past
    /// them. Where fewer than `buf.len()` bytes are left, returns `false` and
    /// changes neither the buffer nor the cursor.
    fn read_exact(&mut self, buf: &mut Vec<u8>) -> (filled: bool)
        ensures
            filled == old(self)@.available(old(buf)@.len()),
            final(self)@ == old(self)@.skip(old(buf)@.len()),
            filled ==> final(buf)@ == old(self)@.window(old(buf)@.len()),
            !filled ==> final(buf)@ == old(buf)@,
    ;

    /// Moves the cursor back by `n` bytes.
    fn step_back(&mut self, n: usize)
        requires
            n <= old(self)@.position,
        ensures
            final(self)@ == old(self)@.retreat(n as nat),
    ;
}

/// A byte source over a vector held in memory.
pub struct ByteCursor {
    data: Vec<u8>,
    pos: usize,
}

impl ByteCursor {
    /// A cursor at the start of `data`.
    pub fn new(data: Vec<u8>) -> (cursor: Self)
        ensures
            cursor@ == (Stream { bytes: data@, position: 0 }),
    {
        ByteCursor { data, pos: 0 }
    }

    /// The offset of the cursor from the start of the data.
    pub fn position(&self) -> (pos: usize)
        ensures
            pos == self@.position,
    {
        self.pos
    }

    /// Puts the cursor at offset `pos`. An offset past the end is accepted:
    /// nothing can be read there.
    pub fn set_position(&mut self, pos: usize)
        ensures
            final(self)@ == (Stream { bytes: old(self)@.bytes, position: pos as nat }),
    {
        self.pos = pos;
    }

    /// The data that the cursor runs over.
    pub fn get_ref(&self) -> (data: &Vec<u8>)
        ensures
            data@ == self@.bytes,
    {
        &self.data
    }

    /// Gives the data back.
    pub fn into_inner(self) -> (data: Vec<u8>)
        ensures
            data@ == self@.bytes,
    {
        self.data
    }
}

impl ByteSource for ByteCursor {
    closed spec fn view(&self) -> Stream {
        Stream { bytes: self.data@, position: self.pos as nat }
    }

    fn read_exact(&mut self, buf: &mut Vec<u8>) -> (filled: bool) {
        let n: usize = buf.len();
        if n > self.data.len() || self.pos > self.data.len() - n {
            return false;
        }
        let start: usize = self.pos;
        let mut done: usize = 0;
        while done < n
            invariant
                done <= n,
                n == buf@.len(),
                start + n <= self.data.len(),
                self.pos == start,
                self.data@ == old(self).data@,
                forall|i: int| 0 <= i < done ==> buf@[i] == self.data@[start + i],
            decreases n - done,
        {
            buf.set(done, self.data[start + done]);
            done = done + 1;
        }
        self.pos = start + n;
        assert(buf@ =~= old(self)@.window(n as nat));
        true
    }

    fn step_back(&mut self, n: usize) {
        self.pos = self.pos - n;
    }
}

} // verus!
