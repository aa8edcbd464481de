//! Cutting application bytes into command lines.

use crate::text::at_most;
use vstd::prelude::*;

verus! {

/// The bytes that a command line holds.
pub const COMMAND_SIZE: usize = 4096;

/// Ends a command line.
pub const LF: u8 = 10;

/// May stand before the end of a command line.
pub const CR: u8 = 13;

/// What application bytes amount to.
#[verifier::ext_equal]
pub struct Fed {
    /// The command lines that they complete, in order.
    pub lines: Seq<Seq<u8>>,
    /// The begun line that they leave.
    pub pending: Seq<u8>,
}

/// A line without the carriage return at its end.
pub open spec fn without_cr(line: Seq<u8>) -> Seq<u8> {
    if line.len() > 0 && line.last() == CR {
        line.drop_last()
    } else {
        line
    }
}

/// The lines to run for a line that is complete: none for an empty one.
pub open spec fn completed(line: Seq<u8>) -> Seq<Seq<u8>> {
    if without_cr(line).len() > 0 {
        seq![without_cr(line)]
    } else {
        seq![]
    }
}

/// As much of a line as the buffer holds.
pub open spec fn cut(line: Seq<u8>) -> Seq<u8> {
    at_most(line, COMMAND_SIZE as int)
}

/// What one application byte amounts to behind a begun line.
pub open spec fn feed_byte(pending: Seq<u8>, b: u8) -> Fed {
    if b == LF {
        Fed { lines: completed(pending), pending: seq![] }
    } else {
        Fed { lines: seq![], pending: cut(pending.push(b)) }
    }
}

/// What application bytes amount to behind a begun line.
pub open spec fn feed(pending: Seq<u8>, bytes: Seq<u8>) -> Fed
    decreases bytes.len(),
{
    if bytes.len() == 0 {
        Fed { lines: seq![], pending }
    } else {
        let front = feed(pending, bytes.drop_last());
        let back = feed_byte(front.pending, bytes.last());
        Fed { lines: front.lines + back.lines, pending: back.pending }
    }
}

/// The command line that is being read.
pub struct Commands {
    buf: [u8; COMMAND_SIZE],
    len: usize,
    ready: bool,
}

impl Commands {
    #[verifier::type_invariant]
    spec fn well_formed(self) -> bool {
        self.len <= COMMAND_SIZE
    }

    /// The line that was begun and is not complete yet.
    pub closed spec fn pending(self) -> Seq<u8> {
        if self.ready {
            seq![]
        } else {
            self.buf@.take(self.len as int)
        }
    }

    /// The line that was completed last, until the next byte is read.
    pub closed spec fn current(self) -> Option<Seq<u8>> {
        if self.ready {
            Some(self.buf@.take(self.len as int))
        } else {
            None
        }
    }

    /// Begin with nothing read.
    pub fn new() -> (r: Self)
        ensures
            r.pending() == Seq::<u8>::empty(),
            r.current() is None,
    {
        let r = Commands { buf: [0u8; COMMAND_SIZE], len: 0, ready: false };
        assert(r.pending() =~= Seq::<u8>::empty());
        r
    }

    /// Read application bytes from index `from` on until a line to run is
    /// complete or they are used up. Gives the index of the first byte that was
    /// not read.
    pub fn next_line(&mut self, bytes: &[u8], from: usize) -> (r: usize)
        requires
            from <= bytes@.len(),
        ensures
            from <= r <= bytes@.len(),
            final(self).pending() == feed(
                old(self).pending(),
                bytes@.subrange(from as int, r as int),
            ).pending,
            match final(self).current() {
                Some(line) => {
                    &&& feed(old(self).pending(), bytes@.subrange(from as int, r as int)).lines
                        == seq![line]
                    &&& from < r
                    &&& line.len() > 0
                    &&& final(self).pending() == Seq::<u8>::empty()
                },
                None => {
                    &&& r == bytes@.len()
                    &&& feed(old(self).pending(), bytes@.subrange(from as int, r as int)).lines
                        == Seq::<Seq<u8>>::empty()
                },
            },
            forall|k: int|
                from <= k < r ==> feed(
                    old(self).pending(),
                    #[trigger] bytes@.subrange(from as int, k),
                ).lines == Seq::<Seq<u8>>::empty(),
    {
        proof {
            use_type_invariant(&*self);
        }
        let ghost before = self.pending();
        if self.ready {
            self.len = 0;
            self.ready = false;
            assert(self.pending() =~= before);
        }
        let mut i: usize = from;
        assert(bytes@.subrange(from as int, from as int) =~= Seq::empty());
        while i < bytes.len()
            invariant
                from <= i <= bytes@.len(),
                before == old(self).pending(),
                !self.ready,
                self.len <= COMMAND_SIZE,
                self.pending() == feed(before, bytes@.subrange(from as int, i as int)).pending,
                forall|k: int|
                    from <= k <= i ==> feed(
                        before,
                        #[trigger] bytes@.subrange(from as int, k),
                    ).lines == Seq::<Seq<u8>>::empty(),
            decreases bytes@.len() - i,
        {
            let b: u8 = bytes[i];
            let ghost front = self.pending();
            let ghost so_far = bytes@.subrange(from as int, i as int);
            let ghost with_b = bytes@.subrange(from as int, i + 1);
            proof {
                assert(with_b.drop_last() =~= so_far);
                assert(feed(before, so_far).lines == Seq::<Seq<u8>>::empty());
                assert(feed(before, with_b).lines =~= feed_byte(front, b).lines);
            }
            i = i + 1;
            if b == LF {
                let mut end: usize = self.len;
                if end > 0 && self.buf[end - 1] == CR {
                    end = end - 1;
                }
                assert(self.buf@.take(end as int) =~= without_cr(front));
                if end > 0 {
                    self.len = end;
                    self.ready = true;
                    return i;
                }
                self.len = 0;
                assert(self.pending() =~= Seq::<u8>::empty());
            } else if self.len < COMMAND_SIZE {
                let n: usize = self.len;
                self.buf[n] = b;
                self.len = n + 1;
                assert(self.pending() =~= cut(front.push(b)));
            } else {
                assert(self.pending() =~= cut(front.push(b)));
            }
        }
        i
    }

    /// The line that was completed last.
    pub fn line(&self) -> (r: &[u8])
        requires
            self.current() is Some,
        ensures
            self.current() == Some(r@),
            r@.len() <= COMMAND_SIZE,
    {
        proof {
            use_type_invariant(self);
        }
        vstd::slice::slice_subrange(self.buf.as_slice(), 0, self.len)
    }

    /// Whether a line was completed last.
    pub fn is_ready(&self) -> (r: bool)
        ensures
            r == (self.current() is Some),
    {
        self.ready
    }
}

/// It makes no difference where a read ends: a line that stands in two reads is
/// the same line.
pub proof fn law_feed_split(pending: Seq<u8>, a: Seq<u8>, b: Seq<u8>)
    ensures
        feed(pending, a + b).lines == feed(pending, a).lines + feed(
            feed(pending, a).pending,
            b,
        ).lines,
        feed(pending, a + b).pending == feed(feed(pending, a).pending, b).pending,
    decreases b.len(),
{
    if b.len() == 0 {
        assert(a + b =~= a);
        assert(feed(pending, a).lines + Seq::<Seq<u8>>::empty() =~= feed(pending, a).lines);
    } else {
        assert((a + b).drop_last() =~= a + b.drop_last());
        law_feed_split(pending, a, b.drop_last());
        let front = feed(pending, a);
        let mid = feed(front.pending, b.drop_last());
        let last = feed_byte(mid.pending, b.last());
        assert((front.lines + mid.lines) + last.lines =~= front.lines + (mid.lines + last.lines));
    }
}

/// Bytes that end no line are kept, as far as the buffer holds them.
pub proof fn law_begun_line(pending: Seq<u8>, bytes: Seq<u8>)
    requires
        pending.len() <= COMMAND_SIZE,
        !bytes.contains(LF),
    ensures
        feed(pending, bytes) == (Fed { lines: seq![], pending: cut(pending + bytes) }),
    decreases bytes.len(),
{
    if bytes.len() == 0 {
        assert(pending + bytes =~= pending);
        assert(cut(pending) =~= pending);
    } else {
        assert(bytes.contains(bytes.last()));
        assert forall|b: u8| bytes.drop_last().contains(b) implies bytes.contains(b) by {
            let i = bytes.drop_last().index_of(b);
            assert(bytes[i] == b);
        }
        law_begun_line(pending, bytes.drop_last());
        let front = cut(pending + bytes.drop_last());
        assert(cut(front.push(bytes.last())) =~= cut(pending + bytes));
        assert(feed(pending, bytes).lines =~= Seq::<Seq<u8>>::empty());
    }
}

/// A line feed completes the begun line, less the carriage return before it;
/// an empty line is nothing to run. The next line begins behind it.
pub proof fn law_complete_line(pending: Seq<u8>, body: Seq<u8>)
    requires
        pending.len() <= COMMAND_SIZE,
        !body.contains(LF),
    ensures
        feed(pending, body.push(LF)) == (Fed {
            lines: completed(cut(pending + body)),
            pending: seq![],
        }),
{
    law_begun_line(pending, body);
    assert(body.push(LF).drop_last() =~= body);
    assert(feed(pending, body.push(LF)).lines =~= completed(cut(pending + body)));
}

/// A line of at most 4096 bytes is run byte for byte as it was sent: all that
/// stands before the line feed, less one carriage return there. The next line
/// begins right behind it.
pub proof fn law_line_as_sent(body: Seq<u8>, rest: Seq<u8>)
    requires
        !body.contains(10),
        0 < body.len() <= 4096,
    ensures
        body.last() != 13 ==> {
            &&& feed(seq![], body + seq![10u8] + rest).lines == seq![body] + feed(
                seq![],
                rest,
            ).lines
            &&& feed(seq![], body + seq![10u8] + rest).pending == feed(seq![], rest).pending
        },
        body.last() != 13 || body.len() < 4096 ==> {
            &&& feed(seq![], body + seq![13u8, 10] + rest).lines == seq![body] + feed(
                seq![],
                rest,
            ).lines
            &&& feed(seq![], body + seq![13u8, 10] + rest).pending == feed(seq![], rest).pending
        },
{
    if body.last() != 13 {
        law_complete_line(seq![], body);
        assert(body + seq![10u8] =~= body.push(10));
        assert(cut(seq![] + body) =~= body);
        law_feed_split(seq![], body.push(10), rest);
    }
    if body.last() != 13 || body.len() < 4096 {
        let ended = body.push(13);
        assert forall|i: int| 0 <= i < ended.len() implies ended[i] != 10 by {
            if i < body.len() {
                assert(body.contains(body[i]));
            }
        }
        law_complete_line(seq![], ended);
        assert(body + seq![13u8, 10] =~= ended.push(10));
        assert(seq![] + ended =~= ended);
        if body.len() < 4096 {
            assert(cut(ended) =~= ended);
            assert(ended.drop_last() =~= body);
        } else {
            assert(cut(ended) =~= body);
        }
        law_feed_split(seq![], ended.push(10), rest);
    }
}

/// Of a longer line the first 4096 bytes are run, less a carriage return at
/// their end.
pub proof fn law_long_line(body: Seq<u8>)
    requires
        !body.contains(10),
        body.len() > 4096,
    ensures
        feed(seq![], body + seq![10u8]).lines == seq![
            body.take(
                if body[4095] == 13 {
                    4095
                } else {
                    4096
                },
            ),
        ],
{
    law_complete_line(seq![], body);
    assert(body + seq![10u8] =~= body.push(10));
    assert(cut(seq![] + body) =~= body.take(4096));
    assert(body.take(4096).drop_last() =~= body.take(4095));
}

/// Nothing is run for a line without a byte, with a carriage return or without.
pub proof fn law_empty_line(rest: Seq<u8>)
    ensures
        feed(seq![], seq![10u8] + rest) == feed(seq![], rest),
        feed(seq![], seq![13u8, 10] + rest) == feed(seq![], rest),
{
    let none = Seq::<u8>::empty();
    let cr = seq![13u8];
    law_complete_line(seq![], none);
    law_complete_line(seq![], cr);
    assert(none.push(10) =~= seq![10u8]);
    assert(cr.push(10) =~= seq![13u8, 10]);
    assert(cut(none + none) =~= none);
    assert(cut(none + cr) =~= cr);
    assert(cr.drop_last() =~= none);
    law_feed_split(seq![], seq![10u8], rest);
    law_feed_split(seq![], seq![13u8, 10], rest);
    assert(Seq::<Seq<u8>>::empty() + feed(seq![], rest).lines =~= feed(seq![], rest).lines);
}

/// Bytes behind which no line feed came yet are kept as they are, and no line is
/// run for them.
pub proof fn law_nothing_before_the_end(pending: Seq<u8>, bytes: Seq<u8>)
    requires
        !bytes.contains(10),
        pending.len() + bytes.len() <= 4096,
    ensures
        feed(pending, bytes).lines == Seq::<Seq<u8>>::empty(),
        feed(pending, bytes).pending == pending + bytes,
{
    law_begun_line(pending, bytes);
    assert(cut(pending + bytes) =~= pending + bytes);
}

} // verus!
