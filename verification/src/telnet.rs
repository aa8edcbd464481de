//! The telnet layer: framing bytes for the wire and taking the framing off.
//!
//! This layer carries command lines in and what the shell writes out. Any byte
//! may stand there, and 255 is the telnet escape (IAC). Inbound doubled escapes
//! are collapsed and negotiation is answered; outbound escapes are doubled.
//! Binary transmission is requested both ways up front and is the one option
//! that is agreed to.

use crate::text::smaller;
use vstd::prelude::*;

verus! {

/// The escape: what follows it is a command.
pub const IAC: u8 = 255;

/// Ends a subnegotiation, behind an escape.
pub const SE: u8 = 240;

/// Begins a subnegotiation.
pub const SB: u8 = 250;

/// The sender wants to use an option.
pub const WILL: u8 = 251;

/// The sender does not use an option.
pub const WONT: u8 = 252;

/// The sender wants the receiver to use an option.
pub const DO: u8 = 253;

/// The sender wants the receiver not to use an option.
pub const DONT: u8 = 254;

/// The option of binary transmission.
pub const OPT_BINARY: u8 = 0;

/// The bytes that one outbound write carries at most.
pub const CHUNK_SIZE: usize = 1024;

/// Where the inbound stream stands between two bytes.
#[derive(Clone, Copy, Debug, PartialEq, Eq, Structural)]
pub enum Phase {
    /// Between application bytes.
    Data,
    /// Behind an escape.
    Command,
    /// Behind an escape and a negotiation verb.
    Verb {
        /// That verb.
        verb: u8,
    },
    /// In a subnegotiation.
    Subnegotiation,
    /// Behind an escape in a subnegotiation.
    SubnegotiationEscape,
}

/// A telnet connection.
pub struct Telnet {
    /// The socket.
    pub sock: usize,
    /// Where the inbound stream stands, carried from one read to the next.
    pub phase: Phase,
}

/// The bytes of one answer to a negotiation.
pub const ANSWER_SIZE: usize = 3;

/// What inbound bytes amount to.
#[verifier::ext_equal]
pub struct Decoded {
    /// Where the stream stands behind them.
    pub phase: Phase,
    /// The application bytes among them.
    pub data: Seq<u8>,
    /// The bytes to answer with.
    pub replies: Seq<u8>,
}

/// The requests that open a connection: binary transmission in both directions.
pub open spec fn hello() -> Seq<u8> {
    seq![IAC, WILL, OPT_BINARY, IAC, DO, OPT_BINARY]
}

/// The answer to a negotiation: every option but binary transmission is
/// refused. What the peer gives up or forbids is not answered.
pub open spec fn answer(verb: u8, option: u8) -> Seq<u8> {
    if verb == DO {
        seq![
            IAC,
            if option == OPT_BINARY {
                WILL
            } else {
                WONT
            },
            option,
        ]
    } else if verb == WILL {
        seq![
            IAC,
            if option == OPT_BINARY {
                DO
            } else {
                DONT
            },
            option,
        ]
    } else {
        seq![]
    }
}

/// Whether a byte is one of the four negotiation verbs.
pub open spec fn is_verb(b: u8) -> bool {
    b == WILL || b == WONT || b == DO || b == DONT
}

/// What one inbound byte amounts to.
pub open spec fn decode_byte(phase: Phase, b: u8) -> Decoded {
    let nothing = Seq::<u8>::empty();
    match phase {
        Phase::Data => if b == IAC {
            Decoded { phase: Phase::Command, data: nothing, replies: nothing }
        } else {
            Decoded { phase: Phase::Data, data: seq![b], replies: nothing }
        },
        Phase::Command => if b == IAC {
            Decoded { phase: Phase::Data, data: seq![IAC], replies: nothing }
        } else if b == SB {
            Decoded { phase: Phase::Subnegotiation, data: nothing, replies: nothing }
        } else if is_verb(b) {
            Decoded { phase: Phase::Verb { verb: b }, data: nothing, replies: nothing }
        } else {
            Decoded { phase: Phase::Data, data: nothing, replies: nothing }
        },
        Phase::Verb { verb } => Decoded {
            phase: Phase::Data,
            data: nothing,
            replies: answer(verb, b),
        },
        Phase::Subnegotiation => Decoded {
            phase: if b == IAC {
                Phase::SubnegotiationEscape
            } else {
                Phase::Subnegotiation
            },
            data: nothing,
            replies: nothing,
        },
        Phase::SubnegotiationEscape => Decoded {
            phase: if b == SE {
                Phase::Data
            } else {
                Phase::Subnegotiation
            },
            data: nothing,
            replies: nothing,
        },
    }
}

/// What a run of inbound bytes amounts to.
pub open spec fn decode(phase: Phase, src: Seq<u8>) -> Decoded
    decreases src.len(),
{
    if src.len() == 0 {
        Decoded { phase, data: Seq::empty(), replies: Seq::empty() }
    } else {
        let front = decode(phase, src.drop_last());
        let back = decode_byte(front.phase, src.last());
        Decoded {
            phase: back.phase,
            data: front.data + back.data,
            replies: front.replies + back.replies,
        }
    }
}

/// One application byte as it goes over the wire.
pub open spec fn escape_byte(b: u8) -> Seq<u8> {
    if b == IAC {
        seq![IAC, IAC]
    } else {
        seq![b]
    }
}

/// Application bytes as they go over the wire.
pub open spec fn escape(data: Seq<u8>) -> Seq<u8>
    decreases data.len(),
{
    if data.len() == 0 {
        Seq::empty()
    } else {
        escape(data.drop_last()) + escape_byte(data.last())
    }
}

/// The part of some application bytes that was framed for one write.
#[derive(Clone, Copy, Debug, PartialEq, Eq, Structural)]
pub struct Chunk {
    /// The index of the first byte that is left for the next chunk.
    pub next: usize,
    /// The number of framed bytes.
    pub len: usize,
}

/// How the bytes that `unescape` produced are spread.
#[derive(Clone, Copy, Debug, PartialEq, Eq, Structural)]
pub struct Unescaped {
    /// The number of application bytes.
    pub data: usize,
    /// The number of bytes to answer with.
    pub replies: usize,
}

/// What the replies may have taken from the room that the bytes so far give.
spec fn credit(phase: Phase) -> int {
    match phase {
        Phase::Data => 0,
        Phase::Command => 1,
        Phase::Verb { .. } => 2,
        Phase::Subnegotiation => 0,
        Phase::SubnegotiationEscape => 0,
    }
}

proof fn lemma_reply_room(phase: Phase, src: Seq<u8>)
    ensures
        decode(phase, src).replies.len() + credit(decode(phase, src).phase) <= src.len() + 2,
    decreases src.len(),
{
    if src.len() != 0 {
        lemma_reply_room(phase, src.drop_last());
    }
}

proof fn lemma_decode_step(phase: Phase, src: Seq<u8>, i: int)
    requires
        0 <= i < src.len(),
    ensures
        ({
            let front = decode(phase, src.take(i));
            let back = decode_byte(front.phase, src[i]);
            &&& decode(phase, src.take(i + 1)).phase == back.phase
            &&& decode(phase, src.take(i + 1)).data == front.data + back.data
            &&& decode(phase, src.take(i + 1)).replies == front.replies + back.replies
        }),
{
    assert(src.take(i + 1).drop_last() =~= src.take(i));
}

impl Telnet {
    /// Open a connection on a socket. The bytes are to be sent first.
    pub fn new(sock: usize) -> (r: (Self, [u8; 6]))
        ensures
            r.0.sock == sock,
            r.0.phase == Phase::Data,
            r.1@ == hello(),
    {
        let first: [u8; 6] = [IAC, WILL, OPT_BINARY, IAC, DO, OPT_BINARY];
        assert(first@ =~= hello());
        (Telnet { sock, phase: Phase::Data }, first)
    }

    /// Frame application bytes from index `from` on for one write, doubling the
    /// escape so that none of them can be read as a command. A chunk ends where
    /// one more byte might not fit.
    pub fn write(&self, data: &[u8], from: usize, chunk: &mut [u8; CHUNK_SIZE]) -> (r: Chunk)
        requires
            from <= data@.len(),
        ensures
            from <= r.next <= data@.len(),
            from < data@.len() ==> from < r.next,
            r.len <= CHUNK_SIZE,
            r.len == escape(data@.subrange(from as int, r.next as int)).len(),
            final(chunk)@ == escape(data@.subrange(from as int, r.next as int)) + old(
                chunk,
            )@.skip(r.len as int),
            r.next == data@.len() || r.len >= CHUNK_SIZE - 1,
            forall|k: int|
                from <= k < r.next ==> escape(#[trigger] data@.subrange(from as int, k)).len()
                    < CHUNK_SIZE - 1,
    {
        let ghost before = chunk@;
        let mut n: usize = 0;
        let mut i: usize = from;
        assert(data@.subrange(from as int, from as int) =~= Seq::empty());
        while i < data.len() && n < CHUNK_SIZE - 1
            invariant
                from <= i <= data@.len(),
                n <= CHUNK_SIZE,
                i > from || n == 0,
                n == escape(data@.subrange(from as int, i as int)).len(),
                chunk@ =~= escape(data@.subrange(from as int, i as int)) + before.skip(n as int),
                before.len() == CHUNK_SIZE,
                forall|k: int|
                    from <= k < i ==> escape(#[trigger] data@.subrange(from as int, k)).len()
                        < CHUNK_SIZE - 1,
            decreases data@.len() - i,
        {
            let b: u8 = data[i];
            proof {
                assert(data@.subrange(from as int, i + 1).drop_last() =~= data@.subrange(
                    from as int,
                    i as int,
                ));
            }
            chunk[n] = b;
            n = n + 1;
            if b == IAC {
                chunk[n] = IAC;
                n = n + 1;
            }
            i = i + 1;
        }
        Chunk { next: i, len: n }
    }

    /// Strip telnet framing from `src`: application bytes go to `dst`, which
    /// drops what it has no room for, and the answers to negotiation go to
    /// `replies`.
    pub fn unescape(&mut self, src: &[u8], dst: &mut [u8], replies: &mut [u8]) -> (r: Unescaped)
        requires
            src@.len() + 2 <= old(replies)@.len(),
        ensures
            final(self).sock == old(self).sock,
            final(self).phase == decode(old(self).phase, src@).phase,
            r.data == smaller(
                decode(old(self).phase, src@).data.len() as int,
                old(dst)@.len() as int,
            ),
            final(dst)@ == decode(old(self).phase, src@).data.take(r.data as int) + old(dst)@.skip(
                r.data as int,
            ),
            r.replies == decode(old(self).phase, src@).replies.len(),
            final(replies)@ == decode(old(self).phase, src@).replies + old(replies)@.skip(
                r.replies as int,
            ),
    {
        let ghost p = self.phase;
        let ghost d0 = dst@;
        let ghost r0 = replies@;
        let mut out: usize = 0;
        let mut sent: usize = 0;
        let mut i: usize = 0;
        assert(src@.take(0) =~= Seq::empty());
        assert(dst@ =~= decode(p, src@.take(0)).data.take(0) + d0.skip(0));
        while i < src.len()
            invariant
                i <= src@.len(),
                src@.len() + 2 <= r0.len(),
                dst@.len() == d0.len(),
                replies@.len() == r0.len(),
                self.sock == old(self).sock,
                self.phase == decode(p, src@.take(i as int)).phase,
                out == smaller(
                    decode(p, src@.take(i as int)).data.len() as int,
                    d0.len() as int,
                ),
                dst@ =~= decode(p, src@.take(i as int)).data.take(out as int) + d0.skip(
                    out as int,
                ),
                sent == decode(p, src@.take(i as int)).replies.len(),
                sent <= i + 2,
                replies@ =~= decode(p, src@.take(i as int)).replies + r0.skip(sent as int),
            decreases src@.len() - i,
        {
            let b: u8 = src[i];
            proof {
                lemma_decode_step(p, src@, i as int);
                lemma_reply_room(p, src@.take(i + 1));
            }
            let ghost front = decode(p, src@.take(i as int));
            match self.phase {
                Phase::Data => {
                    if b == IAC {
                        self.phase = Phase::Command;
                    } else if out < dst.len() {
                        dst[out] = b;
                        out = out + 1;
                    }
                },
                Phase::Command => {
                    if b == IAC {
                        // a doubled escape is one literal byte
                        if out < dst.len() {
                            dst[out] = IAC;
                            out = out + 1;
                        }
                        self.phase = Phase::Data;
                    } else if b == SB {
                        self.phase = Phase::Subnegotiation;
                    } else if b == WILL || b == WONT || b == DO || b == DONT {
                        self.phase = Phase::Verb { verb: b };
                    } else {
                        self.phase = Phase::Data;
                    }
                },
                Phase::Verb { verb } => {
                    // Refuse everything but binary transmission.
                    let reply: u8 = if verb == DO {
                        if b == OPT_BINARY {
                            WILL
                        } else {
                            WONT
                        }
                    } else if verb == WILL {
                        if b == OPT_BINARY {
                            DO
                        } else {
                            DONT
                        }
                    } else {
                        0
                    };
                    if reply != 0 {
                        replies[sent] = IAC;
                        replies[sent + 1] = reply;
                        replies[sent + 2] = b;
                        sent = sent + 3;
                    }
                    self.phase = Phase::Data;
                },
                Phase::Subnegotiation => {
                    if b == IAC {
                        self.phase = Phase::SubnegotiationEscape;
                    }
                },
                Phase::SubnegotiationEscape => {
                    self.phase = if b == SE {
                        Phase::Data
                    } else {
                        Phase::Subnegotiation
                    };
                },
            }
            i = i + 1;
        }
        assert(src@.take(i as int) =~= src@);
        Unescaped { data: out, replies: sent }
    }
}

/// How far a run of bytes has been written out. The kernel may take fewer bytes
/// than it is given, so one run may need several writes.
#[derive(Clone, Copy, Debug, PartialEq, Eq, Structural)]
pub struct Delivery {
    /// The number of bytes in the run.
    pub len: usize,
    /// The number of bytes that are written.
    pub off: usize,
    /// Whether a write failed or took nothing.
    pub stopped: bool,
}

impl Delivery {
    /// The index from which the rest is to be written next, if it is.
    pub open spec fn pending_from(self) -> Option<usize> {
        if !self.stopped && self.off < self.len {
            Some(self.off)
        } else {
            None
        }
    }

    /// What a write of the rest leaves, by the number of bytes that it took or
    /// the error that it gave.
    pub open spec fn after(self, outcome: Result<usize, i32>) -> Delivery {
        match outcome {
            Ok(n) if n > 0 => Delivery {
                off: smaller(self.off + n, self.len as int) as usize,
                ..self
            },
            _ => Delivery { stopped: true, ..self },
        }
    }

    /// What a series of writes leaves.
    pub open spec fn after_all(self, outcomes: Seq<Result<usize, i32>>) -> Delivery
        decreases outcomes.len(),
    {
        if outcomes.len() == 0 {
            self
        } else {
            let front = self.after_all(outcomes.drop_last());
            if front.pending_from() is Some {
                front.after(outcomes.last())
            } else {
                front
            }
        }
    }

    /// Begin with a run of `len` bytes.
    pub fn start(len: usize) -> (r: Self)
        ensures
            r == (Delivery { len, off: 0, stopped: false }),
    {
        Delivery { len, off: 0, stopped: false }
    }

    /// The index from which the rest is to be written next, if it is.
    pub fn pending(&self) -> (r: Option<usize>)
        ensures
            r == self.pending_from(),
    {
        if !self.stopped && self.off < self.len {
            Some(self.off)
        } else {
            None
        }
    }

    /// Record what the write of the rest came to.
    pub fn advance(&mut self, outcome: Result<usize, i32>)
        requires
            old(self).pending_from() is Some,
        ensures
            *final(self) == old(self).after(outcome),
    {
        match outcome {
            Ok(n) => {
                if n == 0 {
                    self.stopped = true;
                } else if n >= self.len - self.off {
                    self.off = self.len;
                } else {
                    self.off = self.off + n;
                }
            },
            Err(_) => {
                self.stopped = true;
            },
        }
    }
}

/// The bytes that a series of writes took.
pub open spec fn taken(outcomes: Seq<Result<usize, i32>>) -> int
    decreases outcomes.len(),
{
    if outcomes.len() == 0 {
        0
    } else {
        taken(outcomes.drop_last()) + match outcomes.last() {
            Ok(n) => n as int,
            Err(_) => 0,
        }
    }
}

/// As long as every write takes something, each one carries on where the one
/// before it ended, and the run is complete once they have taken all of it.
pub proof fn law_delivery_completes(len: usize, outcomes: Seq<Result<usize, i32>>)
    requires
        forall|i: int|
            0 <= i < outcomes.len() ==> (#[trigger] outcomes[i] matches Ok(n) && n > 0),
    ensures
        ({
            let end = (Delivery { len, off: 0, stopped: false }).after_all(outcomes);
            &&& end.len == len
            &&& end.off == smaller(taken(outcomes), len as int)
            &&& end.pending_from() is None <==> taken(outcomes) >= len
            &&& taken(outcomes) < len ==> end.pending_from() == Some(taken(outcomes) as usize)
        }),
    decreases outcomes.len(),
{
    if outcomes.len() != 0 {
        assert(outcomes.last() matches Ok(n) && n > 0);
        assert forall|i: int| 0 <= i < outcomes.drop_last().len() implies (
        #[trigger] outcomes.drop_last()[i] matches Ok(n) && n > 0) by {
            assert(outcomes[i] matches Ok(n) && n > 0);
        }
        law_delivery_completes(len, outcomes.drop_last());
    }
}

/// Behind a write that failed or took nothing, nothing more of the run is
/// written.
pub proof fn law_delivery_stops(
    delivery: Delivery,
    outcome: Result<usize, i32>,
    later: Seq<Result<usize, i32>>,
)
    requires
        outcome is Err || outcome == Ok::<usize, i32>(0),
    ensures
        delivery.after(outcome).after_all(later).off == delivery.off,
        delivery.after(outcome).after_all(later).pending_from() is None,
    decreases later.len(),
{
    if later.len() != 0 {
        law_delivery_stops(delivery, outcome, later.drop_last());
    }
}

/// It makes no difference where a read ends: what a stream amounts to is what
/// its first part amounts to, then its second part from where the first left
/// the stream.
pub proof fn law_decode_split(phase: Phase, a: Seq<u8>, b: Seq<u8>)
    ensures
        ({
            let front = decode(phase, a);
            let back = decode(front.phase, b);
            let whole = decode(phase, a + b);
            &&& whole.phase == back.phase
            &&& whole.data == front.data + back.data
            &&& whole.replies == front.replies + back.replies
        }),
    decreases b.len(),
{
    if b.len() == 0 {
        assert(a + b =~= a);
    } else {
        assert((a + b).drop_last() =~= a + b.drop_last());
        law_decode_split(phase, a, b.drop_last());
        let front = decode(phase, a);
        let mid = decode(front.phase, b.drop_last());
        let last = decode_byte(mid.phase, b.last());
        assert((front.data + mid.data) + last.data =~= front.data + (mid.data + last.data));
        assert((front.replies + mid.replies) + last.replies =~= front.replies + (mid.replies
            + last.replies));
    }
}

/// What is framed for the wire comes off the wire as it was, whatever bytes it
/// holds, and is never taken for a negotiation.
pub proof fn law_escape_decodes(data: Seq<u8>)
    ensures
        decode(Phase::Data, escape(data)) == (Decoded {
            phase: Phase::Data,
            data,
            replies: Seq::empty(),
        }),
    decreases data.len(),
{
    if data.len() != 0 {
        let front = data.drop_last();
        let b = data.last();
        law_escape_decodes(front);
        law_decode_split(Phase::Data, escape(front), escape_byte(b));
        lemma_escape_byte_decodes(b);
        assert(front + seq![b] =~= data);
    }
}

proof fn lemma_escape_byte_decodes(b: u8)
    ensures
        decode(Phase::Data, escape_byte(b)) == (Decoded {
            phase: Phase::Data,
            data: seq![b],
            replies: Seq::empty(),
        }),
{
    reveal_with_fuel(decode, 3);
    let e = escape_byte(b);
    assert(decode(Phase::Data, e).data =~= seq![b]);
    assert(decode(Phase::Data, e).replies =~= Seq::<u8>::empty());
}

/// Framing goes byte by byte: it makes no difference how the application bytes
/// are cut.
pub proof fn law_escape_split(a: Seq<u8>, b: Seq<u8>)
    ensures
        escape(a + b) == escape(a) + escape(b),
    decreases b.len(),
{
    if b.len() == 0 {
        assert(a + b =~= a);
        assert(escape(a) + escape(b) =~= escape(a));
    } else {
        assert((a + b).drop_last() =~= a + b.drop_last());
        law_escape_split(a, b.drop_last());
        assert((escape(a) + escape(b.drop_last())) + escape_byte(b.last()) =~= escape(a) + (escape(
            b.drop_last(),
        ) + escape_byte(b.last())));
    }
}

/// The chunks that end at `cuts`, one behind the other.
pub open spec fn joined_chunks(data: Seq<u8>, cuts: Seq<int>) -> Seq<u8>
    decreases cuts.len(),
{
    if cuts.len() <= 1 {
        Seq::empty()
    } else {
        joined_chunks(data, cuts.drop_last()) + escape(
            data.subrange(cuts[cuts.len() - 2], cuts.last()),
        )
    }
}

/// However application bytes are cut into chunks, the chunks together are the
/// framed bytes.
pub proof fn law_chunks_join(data: Seq<u8>, cuts: Seq<int>)
    requires
        cuts.len() > 0,
        cuts[0] == 0,
        forall|i: int, j: int| 0 <= i <= j < cuts.len() ==> cuts[i] <= cuts[j],
        cuts.last() <= data.len(),
    ensures
        joined_chunks(data, cuts) == escape(data.take(cuts.last())),
    decreases cuts.len(),
{
    if cuts.len() == 1 {
        assert(data.take(0) =~= Seq::empty());
    } else {
        let a = cuts[cuts.len() - 2];
        let b = cuts.last();
        law_chunks_join(data, cuts.drop_last());
        law_escape_split(data.take(a), data.subrange(a, b));
        assert(data.take(a) + data.subrange(a, b) =~= data.take(b));
    }
}

/// Bytes without an escape are application bytes, and nothing is sent back for
/// them: the agent does not echo.
pub proof fn law_plain_bytes(src: Seq<u8>)
    requires
        !src.contains(IAC),
    ensures
        decode(Phase::Data, src) == (Decoded {
            phase: Phase::Data,
            data: src,
            replies: Seq::empty(),
        }),
    decreases src.len(),
{
    if src.len() == 0 {
        assert(src =~= Seq::empty());
    } else {
        assert(src.contains(src.last()));
        assert forall|b: u8| src.drop_last().contains(b) implies src.contains(b) by {
            let i = src.drop_last().index_of(b);
            assert(src[i] == b);
        }
        law_plain_bytes(src.drop_last());
        assert(src.drop_last() + seq![src.last()] =~= src);
    }
}

/// A negotiation yields no application byte and is answered as `answer` says.
pub proof fn law_negotiation(verb: u8, option: u8)
    requires
        is_verb(verb),
    ensures
        decode(Phase::Data, seq![IAC, verb, option]) == (Decoded {
            phase: Phase::Data,
            data: Seq::empty(),
            replies: answer(verb, option),
        }),
{
    reveal_with_fuel(decode, 4);
    let s = seq![IAC, verb, option];
    assert(s.drop_last() =~= seq![IAC, verb]);
    assert(s.drop_last().drop_last() =~= seq![IAC]);
    assert(decode(Phase::Data, s).data =~= Seq::<u8>::empty());
    assert(decode(Phase::Data, s).replies =~= answer(verb, option));
}

/// A subnegotiation yields no application byte and no answer, whatever its body
/// holds. It ends at an escape and an end mark, and nothing in the body ends it.
pub proof fn law_subnegotiation(body: Seq<u8>)
    ensures
        decode(Phase::Data, seq![IAC, SB] + escape(body)) == (Decoded {
            phase: Phase::Subnegotiation,
            data: Seq::empty(),
            replies: Seq::empty(),
        }),
        decode(Phase::Data, seq![IAC, SB] + escape(body) + seq![IAC, SE]) == (Decoded {
            phase: Phase::Data,
            data: Seq::empty(),
            replies: Seq::empty(),
        }),
{
    let nothing = Seq::<u8>::empty();
    let open = seq![IAC, SB];
    let end = seq![IAC, SE];
    assert(decode(Phase::Data, open) == (Decoded {
        phase: Phase::Subnegotiation,
        data: nothing,
        replies: nothing,
    })) by {
        reveal_with_fuel(decode, 3);
        assert(open.drop_last() =~= seq![IAC]);
        assert(decode(Phase::Data, open).data =~= nothing);
        assert(decode(Phase::Data, open).replies =~= nothing);
    }
    assert(decode(Phase::Subnegotiation, end) == (Decoded {
        phase: Phase::Data,
        data: nothing,
        replies: nothing,
    })) by {
        reveal_with_fuel(decode, 3);
        assert(end.drop_last() =~= seq![IAC]);
        assert(decode(Phase::Subnegotiation, end).data =~= nothing);
        assert(decode(Phase::Subnegotiation, end).replies =~= nothing);
    }
    lemma_in_subnegotiation(body);
    assert(nothing + nothing =~= nothing);
    law_decode_split(Phase::Data, open, escape(body));
    law_decode_split(Phase::Data, open + escape(body), end);
}

proof fn lemma_in_subnegotiation(body: Seq<u8>)
    ensures
        decode(Phase::Subnegotiation, escape(body)) == (Decoded {
            phase: Phase::Subnegotiation,
            data: Seq::empty(),
            replies: Seq::empty(),
        }),
    decreases body.len(),
{
    if body.len() != 0 {
        let nothing = Seq::<u8>::empty();
        let last = escape_byte(body.last());
        lemma_in_subnegotiation(body.drop_last());
        law_decode_split(Phase::Subnegotiation, escape(body.drop_last()), last);
        reveal_with_fuel(decode, 3);
        assert(decode(Phase::Subnegotiation, last).data =~= nothing);
        assert(decode(Phase::Subnegotiation, last).replies =~= nothing);
        assert(nothing + nothing =~= nothing);
    }
}

/// Whatever comes in, all that is sent back are whole answers, and the only
/// option that is ever agreed to is binary transmission.
pub proof fn law_only_answers(phase: Phase, src: Seq<u8>)
    ensures
        decode(phase, src).replies.len() % 3 == 0,
        forall|i: int|
            #![trigger decode(phase, src).replies[3 * i]]
            0 <= 3 * i < decode(phase, src).replies.len() ==> {
                let replies = decode(phase, src).replies;
                let verb = replies[3 * i + 1];
                let option = replies[3 * i + 2];
                &&& replies[3 * i] == IAC
                &&& is_verb(verb)
                &&& (verb == WILL || verb == DO) <==> option == OPT_BINARY
            },
    decreases src.len(),
{
    if src.len() != 0 {
        law_only_answers(phase, src.drop_last());
        let front = decode(phase, src.drop_last());
        let back = decode_byte(front.phase, src.last());
        let whole = decode(phase, src);
        assert(whole.replies == front.replies + back.replies);
        assert forall|i: int|
            #![trigger whole.replies[3 * i]]
            0 <= 3 * i < whole.replies.len() implies {
            let verb = whole.replies[3 * i + 1];
            let option = whole.replies[3 * i + 2];
            &&& whole.replies[3 * i] == IAC
            &&& is_verb(verb)
            &&& (verb == WILL || verb == DO) <==> option == OPT_BINARY
        } by {
            if 3 * i < front.replies.len() {
                assert(front.replies[3 * i] == IAC);
            }
        }
    }
}

/// Taking the framing off never makes a stream longer, so nothing is dropped
/// where `dst` is as long as `src`, and the answers need two bytes more than
/// `src` has at most.
pub proof fn law_decode_room(phase: Phase, src: Seq<u8>)
    ensures
        decode(phase, src).data.len() <= src.len(),
        decode(phase, src).replies.len() <= src.len() + 2,
    decreases src.len(),
{
    lemma_reply_room(phase, src);
    if src.len() != 0 {
        law_decode_room(phase, src.drop_last());
    }
}

/// On the wire, every application byte but 255 stands as it is, and 255 stands
/// there twice.
pub proof fn law_bytes_on_the_wire(a: Seq<u8>, b: Seq<u8>)
    requires
        !a.contains(255),
    ensures
        escape(a) == a,
        escape(a + seq![255u8] + b) == a + seq![255u8, 255u8] + escape(b),
{
    lemma_escape_plain(a);
    law_escape_split(a, seq![255u8]);
    law_escape_split(a + seq![255u8], b);
    reveal_with_fuel(escape, 2);
    assert(escape(seq![255u8]) =~= seq![255u8, 255u8]);
}

proof fn lemma_escape_plain(a: Seq<u8>)
    requires
        !a.contains(255),
    ensures
        escape(a) == a,
    decreases a.len(),
{
    if a.len() == 0 {
        assert(a =~= Seq::empty());
    } else {
        assert(a.contains(a.last()));
        assert forall|b: u8| a.drop_last().contains(b) implies a.contains(b) by {
            let i = a.drop_last().index_of(b);
            assert(a[i] == b);
        }
        lemma_escape_plain(a.drop_last());
        assert(a.drop_last() + seq![a.last()] =~= a);
    }
}

/// Bytes without 255 come off the wire as they are, whatever follows.
pub proof fn law_inbound_bytes(a: Seq<u8>, rest: Seq<u8>)
    requires
        !a.contains(255),
    ensures
        decode(Phase::Data, a + rest).data == a + decode(Phase::Data, rest).data,
        decode(Phase::Data, a + rest).replies == decode(Phase::Data, rest).replies,
        decode(Phase::Data, a + rest).phase == decode(Phase::Data, rest).phase,
{
    law_plain_bytes(a);
    law_decode_split(Phase::Data, a, rest);
    assert(Seq::<u8>::empty() + decode(Phase::Data, rest).replies =~= decode(
        Phase::Data,
        rest,
    ).replies);
}

/// Behind a 255, a second one yields the byte 255, and a byte that neither is
/// one nor begins a negotiation or subnegotiation (250 to 254) yields nothing.
/// Neither is answered.
pub proof fn law_inbound_command(b: u8, rest: Seq<u8>)
    requires
        !(250 <= b <= 254),
    ensures
        decode(Phase::Data, seq![255u8, b] + rest).data == if b == 255 {
            seq![255u8] + decode(Phase::Data, rest).data
        } else {
            decode(Phase::Data, rest).data
        },
        decode(Phase::Data, seq![255u8, b] + rest).replies == decode(Phase::Data, rest).replies,
        decode(Phase::Data, seq![255u8, b] + rest).phase == decode(Phase::Data, rest).phase,
{
    let two = seq![255u8, b];
    let nothing = Seq::<u8>::empty();
    reveal_with_fuel(decode, 3);
    assert(two.drop_last() =~= seq![255u8]);
    assert(decode(Phase::Data, two).replies =~= nothing);
    if b == 255 {
        assert(decode(Phase::Data, two).data =~= seq![255u8]);
    } else {
        assert(decode(Phase::Data, two).data =~= nothing);
    }
    law_decode_split(Phase::Data, two, rest);
    assert(nothing + decode(Phase::Data, rest).data =~= decode(Phase::Data, rest).data);
    assert(nothing + decode(Phase::Data, rest).replies =~= decode(Phase::Data, rest).replies);
}

/// A request (253, for the agent to use an option, and 251, for the peer to) is
/// answered at once: agreed to for option 0, with 251 and 253, and refused for
/// every other option, with 252 and 254. The two withdrawals (252 and 254) are
/// not answered. None of the four yields an application byte.
pub proof fn law_inbound_negotiation(verb: u8, option: u8, rest: Seq<u8>)
    requires
        251 <= verb <= 254,
    ensures
        decode(Phase::Data, seq![255u8, verb, option] + rest).data == decode(
            Phase::Data,
            rest,
        ).data,
        decode(Phase::Data, seq![255u8, verb, option] + rest).phase == decode(
            Phase::Data,
            rest,
        ).phase,
        ({
            let replies = decode(Phase::Data, seq![255u8, verb, option] + rest).replies;
            let later = decode(Phase::Data, rest).replies;
            &&& verb == 253 && option == 0 ==> replies == seq![255u8, 251, 0] + later
            &&& verb == 253 && option != 0 ==> replies == seq![255u8, 252, option] + later
            &&& verb == 251 && option == 0 ==> replies == seq![255u8, 253, 0] + later
            &&& verb == 251 && option != 0 ==> replies == seq![255u8, 254, option] + later
            &&& verb == 252 || verb == 254 ==> replies == later
        }),
{
    let three = seq![255u8, verb, option];
    let nothing = Seq::<u8>::empty();
    law_negotiation(verb, option);
    law_decode_split(Phase::Data, three, rest);
    assert(nothing + decode(Phase::Data, rest).data =~= decode(Phase::Data, rest).data);
    assert(nothing + decode(Phase::Data, rest).replies =~= decode(Phase::Data, rest).replies);
}

/// A subnegotiation (255 250) leaves no trace once it has ended (255 240), and
/// what stands behind a 255 in it ends it only if that is a 240.
pub proof fn law_inbound_subnegotiation(body: Seq<u8>, b: u8, rest: Seq<u8>)
    ensures
        decode(Phase::Data, seq![255u8, 250] + escape(body) + seq![255u8, b] + rest) == if b
            == 240 {
            decode(Phase::Data, rest)
        } else {
            decode(Phase::Data, seq![255u8, 250] + rest)
        },
        decode(Phase::Data, seq![255u8, 250] + escape(body)).data == Seq::<u8>::empty(),
        decode(Phase::Data, seq![255u8, 250] + escape(body)).replies == Seq::<u8>::empty(),
{
    let nothing = Seq::<u8>::empty();
    let open = seq![255u8, 250];
    let two = seq![255u8, b];
    law_subnegotiation(body);
    law_subnegotiation(nothing);
    assert(open + escape(nothing) =~= open);
    reveal_with_fuel(decode, 3);
    assert(two.drop_last() =~= seq![255u8]);
    assert(decode(Phase::Subnegotiation, two).data =~= nothing);
    assert(decode(Phase::Subnegotiation, two).replies =~= nothing);
    law_decode_split(Phase::Data, open + escape(body), two);
    law_decode_split(Phase::Data, open + escape(body) + two, rest);
    law_decode_split(Phase::Data, open, rest);
    let phase = if b == 240 {
        Phase::Data
    } else {
        Phase::Subnegotiation
    };
    let later = decode(phase, rest);
    assert(nothing + nothing =~= nothing);
    assert(nothing + later.data =~= later.data);
    assert(nothing + later.replies =~= later.replies);
}

/// A connection is opened with the offer and the request of option 0.
pub proof fn law_hello()
    ensures
        hello() == seq![255u8, 251, 0, 255, 253, 0],
{
}

} // verus!
