//! Running one command line.

use crate::kernel::Call;
use crate::launch::{create_launch, extract_launch, shell_launch, Launch, LaunchModel, Program};
use crate::search::{
    find, law_no_quoted_run, law_occurs, law_quoted_run, occurs, occurs_at, quoted, quoted_run, QUOTE,
};
use crate::spawn::Ctx;
use crate::text::{ascii, at_most, law_at_most, text};
use vstd::prelude::*;
use vstd::slice::slice_subrange;

verus! {

/// The bytes of a directory that are taken over.
pub const DIR_SIZE: usize = 256;

/// The bytes of a line that makes a directory.
pub const MKDIR_SIZE: usize = 320;

/// What a command line is.
#[derive(Clone, Copy, Debug, PartialEq, Eq, Structural)]
pub enum Kind {
    /// It unpacks the archive that follows on the connection.
    Extract,
    /// It packs a directory into an archive.
    Create,
    /// It is for the shell.
    Shell,
}

/// What a command line is, by the archiver's name and operation in it.
pub open spec fn kind(line: Seq<u8>) -> Kind {
    if occurs(line, ascii("tar -xf -"@)) || occurs(line, ascii("tar x"@)) {
        Kind::Extract
    } else if occurs(line, ascii("tar -cf -"@)) || occurs(line, ascii("tar c"@)) {
        Kind::Create
    } else {
        Kind::Shell
    }
}

/// A program that a command line starts.
#[derive(Clone, Copy, Debug, PartialEq, Eq, Structural)]
pub enum Job {
    /// The shell makes the directory.
    MakeDir,
    /// The archiver unpacks into it.
    Extract,
    /// The archiver packs it.
    Create,
    /// The shell runs the line.
    Shell,
}

/// What the agent itself says.
#[derive(Clone, Copy, Debug, PartialEq, Eq, Structural)]
pub enum Message {
    /// An archiver's line names no directory.
    NoDirectory,
    /// The archive is unpacked.
    Unpacked,
    /// The archive could not be unpacked.
    ExtractFailed,
}

impl Message {
    /// The bytes, as a text.
    pub open spec fn bytes_text(self) -> Seq<char> {
        match self {
            Message::NoDirectory => "anyvmd: no directory in tar line\r\n"@,
            Message::Unpacked => "anyvm-tar-done\r\n"@,
            Message::ExtractFailed => "anyvmd: tar extract failed\r\n"@,
        }
    }

    /// The bytes.
    pub fn bytes(self) -> (r: &'static [u8])
        ensures
            r@ == ascii(self.bytes_text()),
    {
        proof {
            reveal_strlit("anyvmd: no directory in tar line\r\n");
            reveal_strlit("anyvm-tar-done\r\n");
            reveal_strlit("anyvmd: tar extract failed\r\n");
        }
        match self {
            Message::NoDirectory => text("anyvmd: no directory in tar line\r\n"),
            Message::Unpacked => text("anyvm-tar-done\r\n"),
            Message::ExtractFailed => text("anyvmd: tar extract failed\r\n"),
        }
    }
}

/// What is to be done next for a command line.
#[derive(Clone, Copy, Debug, PartialEq, Eq, Structural)]
pub enum Action {
    /// Empty the arena.
    ResetArena,
    /// Start a program and wait for it.
    Spawn {
        /// Which one.
        job: Job,
    },
    /// A system call. What it returns does not matter.
    Call {
        /// Which one.
        call: Call,
    },
    /// Send a message.
    Say {
        /// Which one.
        message: Message,
    },
    /// Nothing: the line is run.
    Finish {
        /// Whether the connection is to be closed.
        close: bool,
    },
}

/// The directory of an archiver's line, as far as it is taken over.
pub open spec fn directory(line: Seq<u8>) -> Option<Seq<u8>> {
    match quoted_run(line) {
        Some(run) => Some(at_most(run, DIR_SIZE as int)),
        None => None,
    }
}

/// The line that makes a directory.
pub open spec fn mkdir_line(dir: Seq<u8>) -> Seq<u8> {
    ascii("mkdir -p '"@) + dir + seq![QUOTE]
}

/// The exit code in the status of a child.
pub open spec fn exit_code(status: usize) -> int {
    (status as int / 256) % 256
}

/// Whether a child exited, and with a code that means success.
pub open spec fn succeeded(result: Result<usize, i32>) -> bool {
    match result {
        Ok(status) => status != usize::MAX && exit_code(status) == 0,
        Err(_) => false,
    }
}

/// The call that makes a connection's socket one of the agent's own standard
/// streams again.
pub open spec fn restore(sock: usize, target: usize) -> Action {
    Action::Call { call: Call::Dup2 { fd: sock, target } }
}

/// All that is done for a command line on a connection, in order. A tar transfer
/// ends the connection: what is still in flight behind an archive must not be
/// read as the next line. What the agent says behind an archive depends on
/// whether it was unpacked.
pub open spec fn plan(sock: usize, line: Seq<u8>, unpacked: bool) -> Seq<Action> {
    let none = seq![
        Action::ResetArena,
        Action::Say { message: Message::NoDirectory },
        Action::Finish { close: false },
    ];
    match kind(line) {
        Kind::Extract => if directory(line) is None {
            none
        } else {
            seq![
                Action::ResetArena,
                Action::Spawn { job: Job::MakeDir },
                Action::ResetArena,
                Action::Spawn { job: Job::Extract },
                restore(sock, 0),
                restore(sock, 1),
                restore(sock, 2),
                Action::Say {
                    message: if unpacked {
                        Message::Unpacked
                    } else {
                        Message::ExtractFailed
                    },
                },
                Action::Finish { close: true },
            ]
        },
        Kind::Create => if directory(line) is None {
            none
        } else {
            seq![
                Action::ResetArena,
                Action::Spawn { job: Job::Create },
                restore(sock, 0),
                restore(sock, 1),
                restore(sock, 2),
                Action::Finish { close: true },
            ]
        },
        Kind::Shell => seq![
            Action::ResetArena,
            Action::Spawn { job: Job::Shell },
            restore(sock, 0),
            restore(sock, 1),
            restore(sock, 2),
            Action::Finish { close: false },
        ],
    }
}

/// How a job is started.
pub open spec fn job_launch(line: Seq<u8>, job: Job) -> LaunchModel {
    match job {
        Job::MakeDir => shell_launch(mkdir_line(directory(line)->0)),
        Job::Extract => extract_launch(directory(line)->0),
        Job::Create => create_launch(directory(line)->0),
        Job::Shell => shell_launch(line),
    }
}

/// A command line that is being run.
pub struct Dispatch<'a> {
    sock: usize,
    line: &'a [u8],
    kind: Kind,
    has_dir: bool,
    dir: [u8; DIR_SIZE],
    dir_len: usize,
    mkdir: [u8; MKDIR_SIZE],
    mkdir_len: usize,
    at: usize,
    unpacked: bool,
}

impl<'a> Dispatch<'a> {
    /// The connection's socket.
    pub closed spec fn sock(self) -> usize {
        self.sock
    }

    /// The line.
    pub closed spec fn line(self) -> Seq<u8> {
        self.line@
    }

    /// The number of actions that are done.
    pub closed spec fn at(self) -> int {
        self.at as int
    }

    /// Whether the archive was unpacked.
    pub closed spec fn unpacked(self) -> bool {
        self.unpacked
    }

    /// What is to be done next.
    pub open spec fn asks(self) -> Action {
        plan(self.sock(), self.line(), self.unpacked())[self.at()]
    }

    /// What holds between any two steps.
    pub closed spec fn wf(self) -> bool {
        &&& self.line@.len() + 100 <= usize::MAX
        &&& self.kind == kind(self.line@)
        &&& self.has_dir <==> directory(self.line@) is Some
        &&& self.dir_len <= DIR_SIZE
        &&& self.mkdir_len <= MKDIR_SIZE
        &&& self.has_dir ==> self.dir@.take(self.dir_len as int) == directory(self.line@)->0
        &&& self.has_dir ==> self.mkdir@.take(self.mkdir_len as int) == mkdir_line(
            directory(self.line@)->0,
        )
        &&& self.at < plan(self.sock, self.line@, self.unpacked).len()
    }
}

fn classify(line: &[u8]) -> (r: Kind)
    ensures
        r == kind(line@),
{
    proof {
        reveal_strlit("tar -xf -");
        reveal_strlit("tar x");
        reveal_strlit("tar -cf -");
        reveal_strlit("tar c");
    }
    if find(line, text("tar -xf -")).is_some() || find(line, text("tar x")).is_some() {
        Kind::Extract
    } else if find(line, text("tar -cf -")).is_some() || find(line, text("tar c")).is_some() {
        Kind::Create
    } else {
        Kind::Shell
    }
}

/// Whether the exit code in a status means success.
fn exited_well(result: Result<usize, i32>) -> (r: bool)
    ensures
        r == succeeded(result),
{
    match result {
        Ok(status) => {
            proof {
                assert((status & 0xff00) == 0 <==> (status / 256) % 256 == 0) by (bit_vector);
            }
            status != usize::MAX && (status & 0xff00) == 0
        },
        Err(_) => false,
    }
}

/// Append bytes to the first `len` bytes of a buffer.
fn append(buf: &mut [u8; MKDIR_SIZE], len: usize, bytes: &[u8]) -> (r: usize)
    requires
        len + bytes@.len() <= MKDIR_SIZE,
    ensures
        r == len + bytes@.len(),
        final(buf)@.take(r as int) == old(buf)@.take(len as int) + bytes@,
{
    let ghost before = buf@.take(len as int);
    let mut n: usize = len;
    let mut i: usize = 0;
    assert(before + bytes@.take(0) =~= before);
    while i < bytes.len()
        invariant
            i <= bytes@.len(),
            n == len + i,
            len + bytes@.len() <= MKDIR_SIZE,
            buf@.take(n as int) =~= before + bytes@.take(i as int),
        decreases bytes@.len() - i,
    {
        let ghost so_far = buf@.take(n as int);
        buf[n] = bytes[i];
        n = n + 1;
        i = i + 1;
        assert(buf@.take(n as int) =~= so_far.push(bytes@[i - 1]));
        assert(bytes@.take(i as int) =~= bytes@.take(i - 1).push(bytes@[i - 1]));
    }
    assert(bytes@.take(i as int) =~= bytes@);
    n
}

impl<'a> Dispatch<'a> {
    /// Begin with a line that came in on a connection.
    pub fn new(ctx: &Ctx, line: &'a [u8]) -> (r: Self)
        requires
            line@.len() + 100 <= usize::MAX,
        ensures
            r.wf(),
            r.sock() == ctx.sock,
            r.line() == line@,
            r.at() == 0,
            !r.unpacked(),
    {
        let mut dir: [u8; DIR_SIZE] = [0u8; DIR_SIZE];
        let mut mkdir: [u8; MKDIR_SIZE] = [0u8; MKDIR_SIZE];
        let mut mkdir_len: usize = 0;
        let found = quoted(line, &mut dir);
        let (has_dir, dir_len): (bool, usize) = match found {
            Some(d) => {
                proof {
                    reveal_strlit("mkdir -p '");
                }
                let close: [u8; 1] = [QUOTE];
                mkdir_len = append(&mut mkdir, 0, text("mkdir -p '"));
                mkdir_len = append(&mut mkdir, mkdir_len, d);
                mkdir_len = append(&mut mkdir, mkdir_len, &close);
                proof {
                    assert(close@ =~= seq![QUOTE]);
                    assert(mkdir@.take(mkdir_len as int) =~= mkdir_line(d@));
                }
                (true, d.len())
            },
            None => (false, 0),
        };
        proof {
            if has_dir {
                assert(dir@.take(dir_len as int) =~= directory(line@)->0);
            }
        }
        Dispatch {
            sock: ctx.sock,
            line,
            kind: classify(line),
            has_dir,
            dir,
            dir_len,
            mkdir,
            mkdir_len,
            at: 0,
            unpacked: false,
        }
    }

    /// What is to be done next.
    pub fn action(&self) -> (r: Action)
        requires
            self.wf(),
        ensures
            r == self.asks(),
    {
        if self.at == 0 {
            return Action::ResetArena;
        }
        match self.kind {
            Kind::Extract => if !self.has_dir {
                self.no_directory()
            } else if self.at == 1 {
                Action::Spawn { job: Job::MakeDir }
            } else if self.at == 2 {
                Action::ResetArena
            } else if self.at == 3 {
                Action::Spawn { job: Job::Extract }
            } else if self.at < 7 {
                self.restoring(self.at - 4)
            } else if self.at == 7 {
                Action::Say {
                    message: if self.unpacked {
                        Message::Unpacked
                    } else {
                        Message::ExtractFailed
                    },
                }
            } else {
                Action::Finish { close: true }
            },
            Kind::Create => if !self.has_dir {
                self.no_directory()
            } else if self.at == 1 {
                Action::Spawn { job: Job::Create }
            } else if self.at < 5 {
                self.restoring(self.at - 2)
            } else {
                Action::Finish { close: true }
            },
            Kind::Shell => if self.at == 1 {
                Action::Spawn { job: Job::Shell }
            } else if self.at < 5 {
                self.restoring(self.at - 2)
            } else {
                Action::Finish { close: false }
            },
        }
    }

    fn restoring(&self, target: usize) -> (r: Action)
        ensures
            r == restore(self.sock(), target),
    {
        Action::Call { call: Call::Dup2 { fd: self.sock, target } }
    }

    fn no_directory(&self) -> (r: Action)
        requires
            self.wf(),
            self.at() > 0,
            kind(self.line()) != Kind::Shell,
            directory(self.line()) is None,
        ensures
            r == self.asks(),
    {
        if self.at == 1 {
            Action::Say { message: Message::NoDirectory }
        } else {
            Action::Finish { close: false }
        }
    }

    /// How the program that is to be started is started.
    pub fn launch(&self, job: Job) -> (r: Launch<'_>)
        requires
            self.wf(),
            self.asks() == (Action::Spawn { job }),
        ensures
            r@ == job_launch(self.line(), job),
    {
        match job {
            Job::MakeDir => Launch::shell(
                slice_subrange(self.mkdir.as_slice(), 0, self.mkdir_len),
            ),
            Job::Extract => Launch::extract(slice_subrange(self.dir.as_slice(), 0, self.dir_len)),
            Job::Create => Launch::create(slice_subrange(self.dir.as_slice(), 0, self.dir_len)),
            Job::Shell => Launch::shell(self.line),
        }
    }

    /// The action is done.
    pub fn done(&mut self)
        requires
            old(self).wf(),
            !(old(self).asks() is Spawn),
            !(old(self).asks() is Finish),
        ensures
            final(self).wf(),
            final(self).sock() == old(self).sock(),
            final(self).line() == old(self).line(),
            final(self).at() == old(self).at() + 1,
            final(self).unpacked() == old(self).unpacked(),
    {
        self.at = self.at + 1;
    }

    /// The program was started and came to `result`.
    pub fn spawned(&mut self, result: Result<usize, i32>)
        requires
            old(self).wf(),
            old(self).asks() is Spawn,
        ensures
            final(self).wf(),
            final(self).sock() == old(self).sock(),
            final(self).line() == old(self).line(),
            final(self).at() == old(self).at() + 1,
            final(self).unpacked() == if old(self).asks() == (Action::Spawn {
                job: Job::Extract,
            }) {
                succeeded(result)
            } else {
                old(self).unpacked()
            },
    {
        match self.action() {
            Action::Spawn { job: Job::Extract } => {
                self.unpacked = exited_well(result);
            },
            _ => {},
        }
        self.at = self.at + 1;
    }
}

/// A tar transfer ends the connection, whether it works or not. Nothing else
/// does: neither a line for the shell nor an archiver's line that names no
/// directory.
pub proof fn law_transfer_ends_connection(sock: usize, line: Seq<u8>, unpacked: bool)
    ensures
        plan(sock, line, unpacked).last() == (Action::Finish {
            close: kind(line) != Kind::Shell && directory(line) is Some,
        }),
        forall|i: int|
            0 <= i < plan(sock, line, unpacked).len() - 1 ==> !(#[trigger] plan(
                sock,
                line,
                unpacked,
            )[i] is Finish),
{
}

/// The mark of an unpacked archive is sent only for an archive that was
/// unpacked, and it is sent for every one.
pub proof fn law_mark_means_unpacked(sock: usize, line: Seq<u8>, unpacked: bool)
    ensures
        plan(sock, line, unpacked).contains(Action::Say { message: Message::Unpacked }) <==> kind(
            line,
        ) == Kind::Extract && directory(line) is Some && unpacked,
{
    if kind(line) == Kind::Extract && directory(line) is Some && unpacked {
        assert(plan(sock, line, unpacked)[7] == (Action::Say { message: Message::Unpacked }));
    }
}

/// The arena is emptied right before every program is started.
pub proof fn law_arena_is_empty_at_start(sock: usize, line: Seq<u8>, unpacked: bool, i: int)
    requires
        0 <= i < plan(sock, line, unpacked).len(),
        plan(sock, line, unpacked)[i] is Spawn,
    ensures
        i > 0,
        plan(sock, line, unpacked)[i - 1] == Action::ResetArena,
{
}

/// The agent takes back all three of its standard streams behind the last
/// program, before it says anything or is finished, and what it takes back is
/// the connection's socket.
pub proof fn law_streams_are_restored(sock: usize, line: Seq<u8>, unpacked: bool, i: int)
    requires
        0 <= i < plan(sock, line, unpacked).len() - 1,
        plan(sock, line, unpacked)[i] is Spawn,
        forall|j: int|
            i < j < plan(sock, line, unpacked).len() ==> !(#[trigger] plan(
                sock,
                line,
                unpacked,
            )[j] is Spawn),
    ensures
        i + 4 < plan(sock, line, unpacked).len(),
        plan(sock, line, unpacked)[i + 1] == restore(sock, 0),
        plan(sock, line, unpacked)[i + 2] == restore(sock, 1),
        plan(sock, line, unpacked)[i + 3] == restore(sock, 2),
{
    if kind(line) == Kind::Extract && directory(line) is Some && i == 1 {
        assert(plan(sock, line, unpacked)[3] is Spawn);
    }
}

/// The shell always gets the terminal and the archiver always gets the socket.
pub proof fn law_two_stdio_paths(line: Seq<u8>, job: Job)
    ensures
        job_launch(line, job).terminal <==> job_launch(line, job).program == Program::Ion,
{
}

/// A directory that was taken from a line holds no quote, so the line that makes
/// it names it whole and nothing else.
pub proof fn law_mkdir_names_directory(line: Seq<u8>)
    requires
        directory(line) is Some,
    ensures
        !directory(line)->0.contains(QUOTE),
        directory(line)->0.len() <= DIR_SIZE,
        quoted_run(mkdir_line(directory(line)->0)) == Some(directory(line)->0),
{
    let dir = directory(line)->0;
    line.index_of_first_ensures(QUOTE);
    let a = line.index_of_first(QUOTE)->0;
    let rest = line.skip(a + 1);
    rest.index_of_first_ensures(QUOTE);
    let b = rest.index_of_first(QUOTE)->0;
    assert forall|i: int| 0 <= i < dir.len() implies dir[i] != QUOTE by {
        assert(dir[i] == rest[i]);
    }
    reveal_strlit("mkdir -p '");
    let pre = ascii("mkdir -p '"@);
    let mk = mkdir_line(dir);
    assert(pre.len() == 10);
    assert(mk[9] == QUOTE);
    assert(forall|i: int| 0 <= i < 9 ==> mk[i] != QUOTE);
    mk.index_of_first_ensures(QUOTE);
    assert(mk.contains(QUOTE));
    assert(mk.index_of_first(QUOTE) == Some(9int));
    let tail = mk.skip(10);
    assert(tail =~= dir + seq![QUOTE]);
    assert(tail[dir.len() as int] == QUOTE);
    tail.index_of_first_ensures(QUOTE);
    assert(tail.contains(QUOTE));
    let c = tail.index_of_first(QUOTE)->0;
    if c < dir.len() {
        assert(tail[c] == dir[c]);
    }
    assert(tail.take(dir.len() as int) =~= dir);
}

/// A line unpacks if one of the two spellings for it stands anywhere in it. It
/// packs if none of these does but one of the two for packing. Every other line
/// is for the shell.
pub proof fn law_kind(line: Seq<u8>)
    ensures
        ({
            let unpacks = (
            exists|a: Seq<u8>, b: Seq<u8>|
                line == #[trigger] (a + ascii("tar -xf -"@) + b)) || (
            exists|a: Seq<u8>, b: Seq<u8>|
                line == #[trigger] (a + ascii("tar x"@) + b));
            let packs = (
            exists|a: Seq<u8>, b: Seq<u8>|
                line == #[trigger] (a + ascii("tar -cf -"@) + b)) || (
            exists|a: Seq<u8>, b: Seq<u8>|
                line == #[trigger] (a + ascii("tar c"@) + b));
            &&& kind(line) == Kind::Extract <==> unpacks
            &&& kind(line) == Kind::Create <==> !unpacks && packs
            &&& kind(line) == Kind::Shell <==> !unpacks && !packs
        }),
{
    law_occurs(line, ascii("tar -xf -"@));
    law_occurs(line, ascii("tar x"@));
    law_occurs(line, ascii("tar -cf -"@));
    law_occurs(line, ascii("tar c"@));
}

/// A line in which the archiver's name and a blank do not stand goes to the
/// shell as it is: that is the one program that is started for it, the agent
/// says nothing itself, and the connection stays.
pub proof fn law_shell_line(sock: usize, line: Seq<u8>, unpacked: bool)
    requires
        forall|a: Seq<u8>, b: Seq<u8>| line != #[trigger] (a + ascii("tar "@) + b),
    ensures
        kind(line) == Kind::Shell,
        plan(sock, line, unpacked)[1] == (Action::Spawn { job: Job::Shell }),
        forall|i: int|
            0 <= i < plan(sock, line, unpacked).len() && i != 1 ==> {
                let action = #[trigger] plan(sock, line, unpacked)[i];
                !(action is Spawn) && !(action is Say)
            },
        plan(sock, line, unpacked).last() == (Action::Finish { close: false }),
        job_launch(line, Job::Shell).program.path_text() == "/bin/ion"@,
        job_launch(line, Job::Shell).args == seq![ascii("ion"@), ascii("-c"@), line],
        job_launch(line, Job::Shell).terminal,
{
    let name = ascii("tar "@);
    reveal_strlit("tar ");
    reveal_strlit("tar -xf -");
    reveal_strlit("tar x");
    reveal_strlit("tar -cf -");
    reveal_strlit("tar c");
    law_occurs(line, name);
    assert(ascii("tar -xf -"@).take(4) =~= name);
    assert(ascii("tar x"@).take(4) =~= name);
    assert(ascii("tar -cf -"@).take(4) =~= name);
    assert(ascii("tar c"@).take(4) =~= name);
    lemma_begins(line, name, ascii("tar -xf -"@));
    lemma_begins(line, name, ascii("tar x"@));
    lemma_begins(line, name, ascii("tar -cf -"@));
    lemma_begins(line, name, ascii("tar c"@));
}

proof fn lemma_begins(line: Seq<u8>, part: Seq<u8>, whole: Seq<u8>)
    requires
        part.len() <= whole.len(),
        whole.take(part.len() as int) == part,
        !occurs(line, part),
    ensures
        !occurs(line, whole),
{
    if occurs(line, whole) {
        let i = choose|i: int| occurs_at(line, whole, i);
        assert(line.subrange(i, i + part.len()) =~= line.subrange(i, i + whole.len()).take(
            part.len() as int,
        ));
        assert(occurs_at(line, part, i));
    }
}

/// The programs that are started: for a line that unpacks, the shell that makes
/// the directory and then the archiver; for one that packs, the archiver; for
/// every other line, the shell. An archiver's line without a directory starts
/// none.
pub proof fn law_programs_started(sock: usize, line: Seq<u8>, unpacked: bool, i: int)
    requires
        0 <= i < plan(sock, line, unpacked).len(),
    ensures
        ({
            let action = plan(sock, line, unpacked)[i];
            let named = directory(line) is Some;
            match kind(line) {
                Kind::Extract => {
                    &&& action == (Action::Spawn { job: Job::MakeDir }) <==> named && i == 1
                    &&& action == (Action::Spawn { job: Job::Extract }) <==> named && i == 3
                    &&& action is Spawn ==> i == 1 || i == 3
                },
                Kind::Create => {
                    &&& action == (Action::Spawn { job: Job::Create }) <==> named && i == 1
                    &&& action is Spawn ==> i == 1
                },
                Kind::Shell => {
                    &&& action == (Action::Spawn { job: Job::Shell }) <==> i == 1
                    &&& action is Spawn ==> i == 1
                },
            }
        }),
{
}

/// What the agent says itself: that an archiver's line names no directory, that
/// an archive was unpacked, or that it was not, each exactly where that is so.
pub proof fn law_messages(sock: usize, line: Seq<u8>, unpacked: bool)
    ensures
        ({
            let all = plan(sock, line, unpacked);
            let unpacks = kind(line) == Kind::Extract && directory(line) is Some;
            &&& all.contains(Action::Say { message: Message::NoDirectory }) <==> kind(line)
                != Kind::Shell && directory(line) is None
            &&& all.contains(Action::Say { message: Message::Unpacked }) <==> unpacks && unpacked
            &&& all.contains(Action::Say { message: Message::ExtractFailed }) <==> unpacks
                && !unpacked
            &&& forall|i: int, j: int|
                0 <= i < all.len() && 0 <= j < all.len() && #[trigger] all[i] is Say
                    && #[trigger] all[j] is Say ==> i == j
        }),
{
    let all = plan(sock, line, unpacked);
    if kind(line) == Kind::Extract && directory(line) is Some {
        assert(all[7] is Say);
    } else if kind(line) != Kind::Shell && directory(line) is None {
        assert(all[1] is Say);
    }
}

/// The directory of a line is what stands between its first two quotes (39):
/// all of it up to 256 bytes, and the first 256 otherwise. The archiver works in
/// that directory, byte for byte, and it is the one that is made before an
/// archive is unpacked.
pub proof fn law_transfer_directory(a: Seq<u8>, run: Seq<u8>, b: Seq<u8>)
    requires
        !a.contains(39),
        !run.contains(39),
    ensures
        ({
            let line = a + seq![39u8] + run + seq![39u8] + b;
            let dir = if run.len() <= 256 {
                run
            } else {
                run.take(256)
            };
            &&& directory(line) == Some(dir)
            &&& job_launch(line, Job::Create).cwd == dir
            &&& job_launch(line, Job::Extract).cwd == dir
            &&& job_launch(line, Job::Create).args == seq![
                ascii("tar"@),
                ascii("c"@),
                ascii("."@),
            ]
            &&& job_launch(line, Job::Extract).args == seq![ascii("tar"@), ascii("x"@)]
            &&& job_launch(line, Job::MakeDir).args == seq![
                ascii("ion"@),
                ascii("-c"@),
                ascii("mkdir -p '"@) + dir + seq![39u8],
            ]
        }),
{
    law_quoted_run(a, run, b);
    law_at_most(run, 256);
    assert(run.len() > 256 ==> at_most(run, 256) =~= run.take(256));
}

/// A line with fewer than two quotes names no directory.
pub proof fn law_no_directory(a: Seq<u8>, b: Seq<u8>)
    requires
        !a.contains(39),
        !b.contains(39),
    ensures
        directory(a) is None,
        directory(a + seq![39u8] + b) is None,
{
    law_no_quoted_run(a, b);
}

/// A child has succeeded if the second lowest byte of its status, its exit code,
/// is 0. The other bytes make no difference, but for the mark of a child that
/// was not seen to exit.
pub proof fn law_success(status: usize, low: int, code: int, high: int, errno: i32)
    requires
        status == high * 65536 + code * 256 + low,
        0 <= low < 256,
        0 <= code < 256,
        0 <= high,
    ensures
        succeeded(Ok(status)) <==> code == 0 && status != usize::MAX,
        !succeeded(Err(errno)),
{
    assert(status as int / 256 == high * 256 + code);
    assert((high * 256 + code) % 256 == code);
}

/// The arena is emptied first of all. The only system calls are those that take
/// a standard stream back, and they come right behind a program.
pub proof fn law_calls(sock: usize, line: Seq<u8>, unpacked: bool, i: int)
    requires
        0 <= i < plan(sock, line, unpacked).len(),
    ensures
        plan(sock, line, unpacked)[0] == Action::ResetArena,
        plan(sock, line, unpacked)[i] is Call ==> {
            let action = plan(sock, line, unpacked)[i];
            let before = plan(sock, line, unpacked)[i - 1];
            let dup2 = |target: usize| Action::Call { call: Call::Dup2 { fd: sock, target } };
            ||| action == dup2(0) && before is Spawn
            ||| action == dup2(1) && before == dup2(0)
            ||| action == dup2(2) && before == dup2(1)
        },
{
}

/// Whatever the line, the shell that runs it is given all of it, on the
/// terminal and at the root. Whatever the directory, the archiver is given the
/// socket and works in it, and the shell that makes it is given its name in
/// quotes (39).
pub proof fn law_jobs(line: Seq<u8>)
    ensures
        ({
            let shell = job_launch(line, Job::Shell);
            &&& shell.program == Program::Ion
            &&& shell.args == seq![ascii("ion"@), ascii("-c"@), line]
            &&& shell.cwd == ascii("/"@)
            &&& shell.terminal
        }),
        directory(line) matches Some(dir) ==> {
            let make = job_launch(line, Job::MakeDir);
            let extract = job_launch(line, Job::Extract);
            let create = job_launch(line, Job::Create);
            &&& make.program == Program::Ion
            &&& make.args == seq![
                ascii("ion"@),
                ascii("-c"@),
                ascii("mkdir -p '"@) + dir + seq![39u8],
            ]
            &&& make.cwd == ascii("/"@)
            &&& make.terminal
            &&& extract.program == Program::Tar
            &&& extract.args == seq![ascii("tar"@), ascii("x"@)]
            &&& extract.cwd == dir
            &&& !extract.terminal
            &&& create.program == Program::Tar
            &&& create.args == seq![ascii("tar"@), ascii("c"@), ascii("."@)]
            &&& create.cwd == dir
            &&& !create.terminal
        },
{
}

} // verus!
