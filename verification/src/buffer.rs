//! The outbound write buffer.
//!
//! Bytes accumulate here when `Write` commands are drained and leave from
//! the front as the transport accepts them, so a partial write never
//! reorders or drops anything.
use vstd::prelude::*;

verus! {

/// Not-yet-flushed outbound bytes, owned solely by the I/O loop.
pub struct WriteBuffer {
    bytes: Vec<u8>,
}

impl WriteBuffer {
    /// The pending bytes, oldest first.
    pub closed spec fn view(&self) -> Seq<u8> {
        self.bytes@
    }

    /// An empty buffer.
    pub fn new() -> (b: WriteBuffer)
        ensures
            b@ == Seq::<u8>::empty(),
    {
        WriteBuffer { bytes: Vec::new() }
    }

    /// How many bytes are pending.
    pub fn len(&self) -> (n: usize)
        ensures
            n == self@.len(),
    {
        self.bytes.len()
    }

    /// True when nothing is pending.
    pub fn is_empty(&self) -> (r: bool)
        ensures
            r == (self@.len() == 0),
    {
        self.bytes.len() == 0
    }

    /// The pending bytes, for one flush attempt.
    pub fn pending(&self) -> (s: &[u8])
        ensures
            s@ == self@,
    {
        self.bytes.as_slice()
    }

    /// Appends a drained `Write` payload to the back.
    pub fn append(&mut self, data: Vec<u8>)
        ensures
            final(self)@ == old(self)@ + data@,
    {
        let mut data = data;
        self.bytes.append(&mut data);
    }

    /// Removes the `n` bytes that the transport accepted from the front;
    /// the rest stay, in order, for the next flush attempt.
    pub fn consume(&mut self, n: usize)
        requires
            n <= old(self)@.len(),
        ensures
            final(self)@ == old(self)@.skip(n as int),
    {
        let mut kept: Vec<u8> = Vec::new();
        let mut i: usize = n;
        while i < self.bytes.len()
            invariant
                n <= i <= self.bytes.len(),
                self.bytes@ == old(self)@,
                kept@ == old(self)@.subrange(n as int, i as int),
            decreases self.bytes@.len() - i,
        {
            kept.push(self.bytes[i]);
            i = i + 1;
        }
        assert(kept@ =~= old(self)@.skip(n as int));
        self.bytes = kept;
    }
}

} // verus!
