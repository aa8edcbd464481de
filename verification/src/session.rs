//! One connection: what is read, what is answered, and which lines are run.

use crate::commands::{feed, law_feed_split, Commands, COMMAND_SIZE};
use crate::telnet::{
    decode, hello, law_decode_room, law_decode_split, law_only_answers, Phase, Telnet, ANSWER_SIZE,
};
use vstd::prelude::*;
use vstd::slice::slice_subrange;

verus! {

/// The bytes that one read takes at most.
pub const READ_SIZE: usize = 1024;

/// The bytes that the answers to one read take at most.
pub const REPLY_SIZE: usize = 1026;

/// What a connection is waiting for.
#[derive(Clone, Copy, Debug, PartialEq, Eq, Structural)]
pub enum Stage {
    /// The outgoing bytes are to be sent.
    Sending,
    /// Bytes are to be read.
    Reading,
    /// The completed line is to be run.
    Running,
    /// The connection is to be closed.
    Closed,
}

/// A connection.
pub struct Session {
    telnet: Telnet,
    commands: Commands,
    app: [u8; READ_SIZE],
    filled: usize,
    read: usize,
    out: [u8; REPLY_SIZE],
    out_from: usize,
    out_to: usize,
    out_len: usize,
    stage: Stage,
}

/// Whether reading `unread` behind the begun line `pending` has brought a
/// session where it stands: to the first line that they complete, or to their
/// end where they complete none.
pub open spec fn scanned(pending: Seq<u8>, unread: Seq<u8>, s: Session) -> bool {
    let k = unread.len() - s.unread().len();
    let fed = feed(pending, unread.take(k));
    &&& 0 <= k
    &&& s.unread() == unread.skip(k)
    &&& s.pending() == fed.pending
    &&& forall|j: int|
        0 <= j < k ==> feed(pending, #[trigger] unread.take(j)).lines == Seq::<Seq<u8>>::empty()
    &&& match s.current() {
        Some(line) => s.stage() == Stage::Running && fed.lines == seq![line],
        None => s.stage() == Stage::Reading && k == unread.len() && fed.lines
            == Seq::<Seq<u8>>::empty(),
    }
}

/// Whether a session is where it must be, given all bytes that it has read and
/// all lines that were run: the lines that were run and the lines that are to be
/// run are the lines of the stream, in order.
pub open spec fn in_step(s: Session, seen: Seq<u8>, done: Seq<Seq<u8>>) -> bool {
    let stream = decode(Phase::Data, seen);
    &&& s.phase() == stream.phase
    &&& feed(seq![], stream.data).lines == done + s.to_run()
    &&& feed(seq![], stream.data).pending == feed(s.pending(), s.unread()).pending
}

/// Whether a session is where it must be, given all bytes that it has read and
/// all bytes that it has handed out to be sent: those and the bytes that are
/// still to be sent are the opening requests and the answers to the stream, in
/// order.
pub open spec fn answered(s: Session, seen: Seq<u8>, sent: Seq<u8>) -> bool {
    let stream = decode(Phase::Data, seen);
    &&& s.phase() == stream.phase
    &&& sent + s.to_send() == hello() + stream.replies
}

impl Session {
    /// What the connection is waiting for.
    pub closed spec fn stage(self) -> Stage {
        self.stage
    }

    /// The socket.
    pub closed spec fn sock(self) -> usize {
        self.telnet.sock
    }

    /// Where the inbound stream stands.
    pub closed spec fn phase(self) -> Phase {
        self.telnet.phase
    }

    /// The line that was begun.
    pub closed spec fn pending(self) -> Seq<u8> {
        self.commands.pending()
    }

    /// The line that is to be run now.
    pub closed spec fn current(self) -> Option<Seq<u8>> {
        self.commands.current()
    }

    /// The application bytes that came in and are not cut into lines yet.
    pub closed spec fn unread(self) -> Seq<u8> {
        self.app@.subrange(self.read as int, self.filled as int)
    }

    /// The bytes to send: the opening requests, or one answer.
    pub closed spec fn outgoing(self) -> Seq<u8> {
        self.out@.subrange(self.out_from as int, self.out_to as int)
    }

    /// The answers to send behind them, one at a time. Whether one could be sent
    /// makes no difference to the next.
    pub closed spec fn answers(self) -> Seq<u8> {
        self.out@.subrange(self.out_to as int, self.out_len as int)
    }

    /// All bytes that are still to be sent.
    pub open spec fn to_send(self) -> Seq<u8> {
        if self.stage() == Stage::Sending {
            self.outgoing() + self.answers()
        } else {
            Seq::empty()
        }
    }

    /// The lines that came in and are not run yet.
    pub open spec fn to_run(self) -> Seq<Seq<u8>> {
        let later = feed(self.pending(), self.unread()).lines;
        match self.current() {
            Some(line) => seq![line] + later,
            None => later,
        }
    }

    /// What holds of a session between any two steps.
    pub closed spec fn wf(self) -> bool {
        &&& self.read <= self.filled <= READ_SIZE
        &&& self.out_from <= self.out_to <= self.out_len <= REPLY_SIZE
        &&& self.out_len == self.out_to || self.out_len >= self.out_to + ANSWER_SIZE
        &&& (self.out_len - self.out_to) % (ANSWER_SIZE as int) == 0
        &&& self.stage == Stage::Running ==> self.commands.current() is Some && self.out_to
            == self.out_len
        &&& self.stage == Stage::Reading || self.stage == Stage::Sending
            ==> self.commands.current() is None
        &&& self.stage == Stage::Reading ==> self.read == self.filled
    }

    /// A connection on a socket. What it sends first are its requests.
    pub fn new(sock: usize) -> (r: Self)
        ensures
            r.wf(),
            r.sock() == sock,
            r.stage() == Stage::Sending,
            r.outgoing() == hello(),
            r.answers() == Seq::<u8>::empty(),
            r.phase() == Phase::Data,
            r.pending() == Seq::<u8>::empty(),
            r.current() is None,
            r.unread() == Seq::<u8>::empty(),
            in_step(r, Seq::empty(), Seq::empty()),
            answered(r, Seq::empty(), Seq::empty()),
    {
        let (telnet, first) = Telnet::new(sock);
        let mut out: [u8; REPLY_SIZE] = [0u8; REPLY_SIZE];
        let mut i: usize = 0;
        while i < 6
            invariant
                i <= 6,
                first@.len() == 6,
                out@.len() == REPLY_SIZE,
                out@.take(i as int) =~= first@.take(i as int),
            decreases 6 - i,
        {
            let ghost before = out@.take(i as int);
            out[i] = first[i];
            assert(out@.take(i + 1) =~= before.push(first@[i as int]));
            assert(first@.take(i + 1) =~= first@.take(i as int).push(first@[i as int]));
            i = i + 1;
        }
        assert(first@.take(6) =~= first@);
        let r = Session {
            telnet,
            commands: Commands::new(),
            app: [0u8; READ_SIZE],
            filled: 0,
            read: 0,
            out,
            out_from: 0,
            out_to: 6,
            out_len: 6,
            stage: Stage::Sending,
        };
        assert(r.unread() =~= Seq::<u8>::empty());
        assert(r.outgoing() =~= first@);
        assert(Seq::<u8>::empty() + r.to_send() =~= hello() + Seq::<u8>::empty());
        r
    }

    /// What the connection is waiting for.
    pub fn get_stage(&self) -> (r: Stage)
        ensures
            r == self.stage(),
    {
        self.stage
    }

    /// The bytes to send.
    pub fn get_outgoing(&self) -> (r: &[u8])
        requires
            self.wf(),
            self.stage() == Stage::Sending,
        ensures
            r@ == self.outgoing(),
    {
        slice_subrange(self.out.as_slice(), self.out_from, self.out_to)
    }

    /// The line to run.
    pub fn get_line(&self) -> (r: &[u8])
        requires
            self.wf(),
            self.stage() == Stage::Running,
        ensures
            self.current() == Some(r@),
            r@.len() <= COMMAND_SIZE,
    {
        self.commands.line()
    }

    /// Read on in the application bytes.
    fn scan(&mut self)
        requires
            old(self).read <= old(self).filled <= READ_SIZE,
            old(self).out_from <= old(self).out_to == old(self).out_len <= REPLY_SIZE,
        ensures
            final(self).wf(),
            final(self).sock() == old(self).sock(),
            final(self).phase() == old(self).phase(),
            scanned(old(self).pending(), old(self).unread(), *final(self)),
    {
        let ghost unread = self.unread();
        let ghost pending = self.pending();
        let ghost from = self.read as int;
        let bytes = slice_subrange(self.app.as_slice(), 0, self.filled);
        let next = self.commands.next_line(bytes, self.read);
        proof {
            let k = next - from;
            assert forall|j: int| 0 <= j <= k implies unread.take(j) == #[trigger] bytes@.subrange(
                from,
                from + j,
            ) by {
                assert(unread.take(j) =~= bytes@.subrange(from, from + j));
            }
            assert forall|j: int| 0 <= j < k implies feed(
                pending,
                #[trigger] unread.take(j),
            ).lines == Seq::<Seq<u8>>::empty() by {
                assert(unread.take(j) == bytes@.subrange(from, from + j));
            }
            assert(unread.take(k) == bytes@.subrange(from, from + k));
        }
        self.read = next;
        self.stage = if self.commands.is_ready() {
            Stage::Running
        } else {
            Stage::Reading
        };
        assert(self.unread() =~= unread.skip(next - from));
    }

    /// The outgoing bytes were sent, or could not be.
    pub fn sent(&mut self)
        requires
            old(self).wf(),
            old(self).stage() == Stage::Sending,
        ensures
            final(self).wf(),
            final(self).sock() == old(self).sock(),
            final(self).phase() == old(self).phase(),
            old(self).answers().len() > 0 ==> {
                &&& final(self).stage() == Stage::Sending
                &&& final(self).outgoing() == old(self).answers().take(ANSWER_SIZE as int)
                &&& final(self).answers() == old(self).answers().skip(ANSWER_SIZE as int)
                &&& final(self).pending() == old(self).pending()
                &&& final(self).unread() == old(self).unread()
                &&& final(self).current() is None
            },
            old(self).answers().len() == 0 ==> scanned(
                old(self).pending(),
                old(self).unread(),
                *final(self),
            ),
            final(self).to_run() == old(self).to_run(),
            forall|seen: Seq<u8>, done: Seq<Seq<u8>>|
                in_step(*old(self), seen, done) ==> #[trigger] in_step(*final(self), seen, done),
            forall|seen: Seq<u8>, sent: Seq<u8>|
                #![trigger answered(*old(self), seen, sent)]
                answered(*old(self), seen, sent) ==> answered(
                    *final(self),
                    seen,
                    sent + old(self).outgoing(),
                ),
    {
        let ghost before = *self;
        if self.out_to < self.out_len {
            self.out_from = self.out_to;
            self.out_to = self.out_to + ANSWER_SIZE;
            proof {
                assert(self.outgoing() =~= before.answers().take(ANSWER_SIZE as int));
                assert(self.answers() =~= before.answers().skip(ANSWER_SIZE as int));
            }
        } else {
            self.scan();
            proof {
                lemma_scanned(before.pending(), before.unread(), *self);
            }
        }
        proof {
            assert forall|seen: Seq<u8>, sent: Seq<u8>|
                #![trigger answered(before, seen, sent)]
                answered(before, seen, sent) implies answered(
                *self,
                seen,
                sent + before.outgoing(),
            ) by {
                assert(before.answers() =~= self.to_send());
                assert(sent + before.outgoing() + self.to_send() =~= sent + before.to_send());
            }
        }
    }

    /// Bytes were read. None at all mean that the stream has ended or failed.
    pub fn received(&mut self, raw: &[u8])
        requires
            old(self).wf(),
            old(self).stage() == Stage::Reading,
            raw@.len() <= READ_SIZE,
        ensures
            final(self).wf(),
            final(self).sock() == old(self).sock(),
            raw@.len() == 0 ==> final(self).stage() == Stage::Closed,
            raw@.len() > 0 ==> {
                let decoded = decode(old(self).phase(), raw@);
                &&& final(self).phase() == decoded.phase
                &&& decoded.replies.len() > 0 ==> {
                    &&& final(self).stage() == Stage::Sending
                    &&& final(self).outgoing() == decoded.replies.take(ANSWER_SIZE as int)
                    &&& final(self).answers() == decoded.replies.skip(ANSWER_SIZE as int)
                    &&& final(self).pending() == old(self).pending()
                    &&& final(self).unread() == decoded.data
                    &&& final(self).current() is None
                }
                &&& decoded.replies.len() == 0 ==> scanned(
                    old(self).pending(),
                    decoded.data,
                    *final(self),
                )
                &&& final(self).to_run() == feed(old(self).pending(), decoded.data).lines
            },
            raw@.len() > 0 ==> forall|seen: Seq<u8>, done: Seq<Seq<u8>>|
                in_step(*old(self), seen, done) ==> #[trigger] in_step(
                    *final(self),
                    seen + raw@,
                    done,
                ),
            forall|seen: Seq<u8>, sent: Seq<u8>|
                answered(*old(self), seen, sent) ==> #[trigger] answered(
                    *final(self),
                    seen + raw@,
                    sent,
                ),
    {
        let ghost before = *self;
        if raw.len() == 0 {
            self.stage = Stage::Closed;
            proof {
                assert forall|seen: Seq<u8>, sent: Seq<u8>|
                    answered(before, seen, sent) implies #[trigger] answered(
                    *self,
                    seen + raw@,
                    sent,
                ) by {
                    assert(seen + raw@ =~= seen);
                }
            }
            return;
        }
        let got = self.telnet.unescape(raw, &mut self.app, &mut self.out);
        let ghost decoded = decode(before.phase(), raw@);
        proof {
            law_decode_room(before.phase(), raw@);
            law_only_answers(before.phase(), raw@);
            assert(decoded.data.take(decoded.data.len() as int) =~= decoded.data);
        }
        self.filled = got.data;
        self.read = 0;
        self.out_from = 0;
        self.out_len = got.replies;
        assert(self.unread() =~= decoded.data);
        if self.out_len > 0 {
            self.out_to = ANSWER_SIZE;
            self.stage = Stage::Sending;
            assert(self.outgoing() =~= decoded.replies.take(ANSWER_SIZE as int));
            assert(self.answers() =~= decoded.replies.skip(ANSWER_SIZE as int));
        } else {
            self.out_to = 0;
            self.scan();
            proof {
                lemma_scanned(before.pending(), decoded.data, *self);
            }
        }
        proof {
            assert(before.unread() =~= Seq::<u8>::empty());
            assert forall|seen: Seq<u8>, done: Seq<Seq<u8>>|
                in_step(before, seen, done) implies #[trigger] in_step(
                *self,
                seen + raw@,
                done,
            ) by {
                let stream = decode(Phase::Data, seen);
                law_decode_split(Phase::Data, seen, raw@);
                law_feed_split(seq![], stream.data, decoded.data);
                assert(before.to_run() =~= Seq::<Seq<u8>>::empty());
                assert(done + before.to_run() =~= done);
            }
            assert(self.to_send() =~= decoded.replies);
            assert forall|seen: Seq<u8>, sent: Seq<u8>|
                answered(before, seen, sent) implies #[trigger] answered(
                *self,
                seen + raw@,
                sent,
            ) by {
                let replies = decode(Phase::Data, seen).replies;
                law_decode_split(Phase::Data, seen, raw@);
                assert(sent + before.to_send() =~= sent);
                assert((hello() + replies) + decoded.replies =~= hello() + (replies
                    + decoded.replies));
            }
        }
    }

    /// The line was run, and asks for the connection to be closed or not.
    pub fn ran(&mut self, close: bool)
        requires
            old(self).wf(),
            old(self).stage() == Stage::Running,
        ensures
            final(self).wf(),
            final(self).sock() == old(self).sock(),
            close ==> final(self).stage() == Stage::Closed,
            !close ==> {
                &&& final(self).phase() == old(self).phase()
                &&& scanned(old(self).pending(), old(self).unread(), *final(self))
                &&& old(self).to_run() == seq![old(self).current()->0] + final(self).to_run()
            },
            !close ==> forall|seen: Seq<u8>, done: Seq<Seq<u8>>|
                in_step(*old(self), seen, done) ==> #[trigger] in_step(
                    *final(self),
                    seen,
                    done.push(old(self).current()->0),
                ),
            forall|seen: Seq<u8>, sent: Seq<u8>|
                answered(*old(self), seen, sent) ==> #[trigger] answered(*final(self), seen, sent),
    {
        if close {
            self.stage = Stage::Closed;
            return;
        }
        let ghost before = *self;
        self.scan();
        proof {
            lemma_scanned(before.pending(), before.unread(), *self);
            let line = before.current()->0;
            assert forall|seen: Seq<u8>, done: Seq<Seq<u8>>|
                in_step(before, seen, done) implies #[trigger] in_step(
                *self,
                seen,
                done.push(line),
            ) by {
                assert(done + (seq![line] + self.to_run()) =~= done.push(line) + self.to_run());
            }
        }
    }
}

proof fn lemma_scanned(pending: Seq<u8>, unread: Seq<u8>, s: Session)
    requires
        scanned(pending, unread, s),
    ensures
        s.to_run() == feed(pending, unread).lines,
        feed(s.pending(), s.unread()).pending == feed(pending, unread).pending,
{
    let k = unread.len() - s.unread().len();
    assert(unread.take(k) + unread.skip(k) =~= unread);
    law_feed_split(pending, unread.take(k), unread.skip(k));
    assert(s.to_run() =~= feed(pending, unread).lines);
}

/// Whenever the next bytes are to be read, every line of the stream so far has
/// been run, in order and once, wherever the reads have cut the stream.
pub proof fn law_every_line_is_run(s: Session, seen: Seq<u8>, done: Seq<Seq<u8>>)
    requires
        s.wf(),
        s.stage() == Stage::Reading,
        in_step(s, seen, done),
    ensures
        done == feed(seq![], decode(Phase::Data, seen).data).lines,
        s.pending() == feed(seq![], decode(Phase::Data, seen).data).pending,
{
    assert(s.unread() =~= Seq::<u8>::empty());
    assert(done + s.to_run() =~= done);
}

/// What a connection hands out to be sent are its opening requests and then the
/// answers to the whole stream so far, wherever the reads have cut the stream:
/// all of them whenever nothing is waiting to be sent, and the first of them
/// otherwise.
pub proof fn law_every_request_is_answered(s: Session, seen: Seq<u8>, sent: Seq<u8>)
    requires
        answered(s, seen, sent),
    ensures
        sent.is_prefix_of(hello() + decode(Phase::Data, seen).replies),
        s.stage() != Stage::Sending ==> sent == hello() + decode(Phase::Data, seen).replies,
{
    assert((sent + s.to_send()).take(sent.len() as int) =~= sent);
    if s.stage() != Stage::Sending {
        assert(sent + s.to_send() =~= sent);
    }
}

/// Where bytes that came in complete lines, the first of them is to be run and
/// the others come behind it. Where they complete none, more bytes are to be
/// read, and what was begun is kept.
pub proof fn law_first_line_is_next(pending: Seq<u8>, unread: Seq<u8>, s: Session)
    requires
        scanned(pending, unread, s),
    ensures
        ({
            let fed = feed(pending, unread);
            &&& fed.lines.len() == 0 ==> {
                &&& s.stage() == Stage::Reading
                &&& s.current() is None
                &&& s.unread().len() == 0
                &&& s.pending() == fed.pending
            }
            &&& fed.lines.len() > 0 ==> {
                &&& s.stage() == Stage::Running
                &&& s.current() == Some(fed.lines[0])
                &&& feed(s.pending(), s.unread()).lines == fed.lines.skip(1)
                &&& feed(s.pending(), s.unread()).pending == fed.pending
            }
        }),
{
    let fed = feed(pending, unread);
    lemma_scanned(pending, unread, s);
    if let Some(line) = s.current() {
        assert((seq![line] + feed(s.pending(), s.unread()).lines).skip(1) =~= feed(
            s.pending(),
            s.unread(),
        ).lines);
    } else {
        assert(unread.take(unread.len() as int) =~= unread);
    }
}

} // verus!
