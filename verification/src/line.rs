//! A line of diagnostics in a fixed buffer. Formatting never allocates, because
//! the heap is emptied between commands.

use crate::text::{at_most, smaller};
use vstd::prelude::*;

verus! {

/// The bytes that a line of diagnostics holds.
pub const LINE_SIZE: usize = 256;

/// A line of diagnostics that is being written. What it has no room for is
/// dropped.
pub struct Line {
    buf: [u8; LINE_SIZE],
    len: usize,
}

impl View for Line {
    type V = Seq<u8>;

    closed spec fn view(&self) -> Seq<u8> {
        self.buf@.take(self.len as int)
    }
}

impl Line {
    #[verifier::type_invariant]
    spec fn well_formed(self) -> bool {
        self.len <= LINE_SIZE
    }

    /// An empty line.
    pub fn new() -> (r: Self)
        ensures
            r@ == Seq::<u8>::empty(),
    {
        let r = Line { buf: [0u8; LINE_SIZE], len: 0 };
        assert(r@ =~= Seq::<u8>::empty());
        r
    }

    /// Add text to the line.
    pub fn write_str(&mut self, s: &str)
        ensures
            final(self)@ == at_most(
                old(self)@ + vstd::utf8::encode_utf8(s@),
                LINE_SIZE as int,
            ),
    {
        self.write_bytes(s.as_bytes());
    }

    /// Add bytes to the line.
    pub fn write_bytes(&mut self, bytes: &[u8])
        ensures
            final(self)@ == at_most(old(self)@ + bytes@, LINE_SIZE as int),
    {
        proof {
            use_type_invariant(&*self);
        }
        let ghost before = self@;
        let mut i: usize = 0;
        assert(self@ =~= (before + bytes@.take(0)).take(before.len() as int));
        while i < bytes.len()
            invariant
                i <= bytes@.len(),
                before.len() <= LINE_SIZE,
                self.len == smaller(before.len() + i, LINE_SIZE as int),
                self@ =~= (before + bytes@.take(i as int)).take(self.len as int),
            decreases bytes@.len() - i,
        {
            let ghost so_far = self@;
            if self.len < LINE_SIZE {
                let n: usize = self.len;
                self.buf[n] = bytes[i];
                self.len = n + 1;
                assert(self@ =~= so_far.push(bytes@[i as int]));
            }
            i = i + 1;
        }
        assert(bytes@.take(i as int) =~= bytes@);
    }

    /// The bytes of the line.
    pub fn as_bytes(&self) -> (r: &[u8])
        ensures
            r@ == self@,
            r@.len() <= LINE_SIZE,
    {
        proof {
            use_type_invariant(self);
        }
        vstd::slice::slice_subrange(self.buf.as_slice(), 0, self.len)
    }
}

} // verus!
