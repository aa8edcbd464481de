//! Starting a program and waiting for it.
//!
//! The kernel has no call that makes a process: a child is put together through
//! handles, in an order that the kernel enforces, and then polled.

use crate::kernel::{call_closes, call_opens, Access, Call, Flags, Place, Tag};
use crate::launch::Launch;
use vstd::multiset::Multiset;
use vstd::prelude::*;

verus! {

/// How often a child is polled before it is given up.
pub const TURNS: usize = 2400;

/// The pause between two polls, in nanoseconds.
pub const PAUSE_NANOS: i32 = 250000000;

/// The bytes that one read from a child's terminal takes at most.
pub const PUMP_SIZE: usize = 1024;

/// The status of a child that was not seen to exit.
pub const NEVER_EXITED: usize = usize::MAX;

/// A step on the way to a running child.
#[derive(Clone, Copy, Debug, PartialEq, Eq, Structural)]
pub enum Setup {
    /// Make the child's stream the agent's standard input.
    Redirect0,
    /// Make it the standard output.
    Redirect1,
    /// Make it the standard error.
    Redirect2,
    /// Copy the agent's file table, which now holds the child's streams.
    CopyTable,
    /// Make a process.
    NewChild,
    /// Get a second handle of it. The loader uses one up.
    OpenLoader,
    /// Open memory to map.
    OpenMemory,
    /// Open the program.
    OpenImage,
    /// Load the program.
    Load,
    /// Close the handle of the address space, which installs it.
    DropSpace,
    /// Get the handle that takes a file table.
    OpenSelector,
    /// Name the copied file table to it.
    InstallTable,
    /// Close it, which installs the file table.
    DropSelector,
    /// Close the agent's own handle of the copy.
    DropTable,
    /// Get the handle that lets the child begin.
    OpenStart,
    /// Let it begin.
    Begin,
    /// Close that handle.
    DropStart,
}

/// The order of the steps.
pub open spec fn order() -> Seq<Setup> {
    seq![
        Setup::Redirect0,
        Setup::Redirect1,
        Setup::Redirect2,
        Setup::CopyTable,
        Setup::NewChild,
        Setup::OpenLoader,
        Setup::OpenMemory,
        Setup::OpenImage,
        Setup::Load,
        Setup::DropSpace,
        Setup::OpenSelector,
        Setup::InstallTable,
        Setup::DropSelector,
        Setup::DropTable,
        Setup::OpenStart,
        Setup::Begin,
        Setup::DropStart,
    ]
}

/// The place of a step in the order.
pub open spec fn rank(s: Setup) -> int {
    match s {
        Setup::Redirect0 => 0,
        Setup::Redirect1 => 1,
        Setup::Redirect2 => 2,
        Setup::CopyTable => 3,
        Setup::NewChild => 4,
        Setup::OpenLoader => 5,
        Setup::OpenMemory => 6,
        Setup::OpenImage => 7,
        Setup::Load => 8,
        Setup::DropSpace => 9,
        Setup::OpenSelector => 10,
        Setup::InstallTable => 11,
        Setup::DropSelector => 12,
        Setup::DropTable => 13,
        Setup::OpenStart => 14,
        Setup::Begin => 15,
        Setup::DropStart => 16,
    }
}

/// The descriptors that the agent holds for a child, in the order in which it
/// gets them.
#[derive(Clone, Copy, Debug, PartialEq, Eq)]
pub struct Held {
    /// The copied file table.
    pub table: Option<usize>,
    /// The child.
    pub child: Option<usize>,
    /// The second handle of the child.
    pub loader: Option<usize>,
    /// The memory.
    pub memory: Option<usize>,
    /// The program.
    pub image: Option<usize>,
    /// The address space.
    pub space: Option<usize>,
    /// What takes a file table.
    pub selector: Option<usize>,
    /// What lets the child begin.
    pub start: Option<usize>,
}

/// What may be held, as descriptors.
pub open spec fn one(fd: Option<usize>) -> Multiset<usize> {
    match fd {
        Some(fd) => Multiset::singleton(fd),
        None => Multiset::empty(),
    }
}

impl Held {
    /// Nothing.
    pub open spec fn nothing() -> Held {
        Held {
            table: None,
            child: None,
            loader: None,
            memory: None,
            image: None,
            space: None,
            selector: None,
            start: None,
        }
    }

    /// All descriptors that are held.
    pub open spec fn fds(self) -> Multiset<usize> {
        one(self.table).add(one(self.child)).add(one(self.loader)).add(one(self.memory)).add(
            one(self.image),
        ).add(one(self.space)).add(one(self.selector)).add(one(self.start))
    }

    /// The descriptor that was got last.
    pub open spec fn top(self) -> Option<usize> {
        if self.start is Some {
            self.start
        } else if self.selector is Some {
            self.selector
        } else if self.space is Some {
            self.space
        } else if self.image is Some {
            self.image
        } else if self.memory is Some {
            self.memory
        } else if self.loader is Some {
            self.loader
        } else if self.child is Some {
            self.child
        } else {
            self.table
        }
    }

    /// What is held without the descriptor that was got last.
    pub open spec fn without_top(self) -> Held {
        if self.start is Some {
            Held { start: None, ..self }
        } else if self.selector is Some {
            Held { selector: None, ..self }
        } else if self.space is Some {
            Held { space: None, ..self }
        } else if self.image is Some {
            Held { image: None, ..self }
        } else if self.memory is Some {
            Held { memory: None, ..self }
        } else if self.loader is Some {
            Held { loader: None, ..self }
        } else if self.child is Some {
            Held { child: None, ..self }
        } else {
            Held { table: None, ..self }
        }
    }

    /// What is held without what a step uses up or closes.
    pub open spec fn used(self, s: Setup) -> Held {
        match s {
            Setup::Load => Held { image: None, loader: None, ..self },
            Setup::DropSpace => Held { space: None, ..self },
            Setup::DropSelector => Held { selector: None, ..self },
            Setup::DropTable => Held { table: None, ..self },
            Setup::DropStart => Held { start: None, ..self },
            _ => self,
        }
    }

    /// What is held with the descriptor that a step gives.
    pub open spec fn with(self, s: Setup, fd: usize) -> Held {
        match s {
            Setup::CopyTable => Held { table: Some(fd), ..self },
            Setup::NewChild => Held { child: Some(fd), ..self },
            Setup::OpenLoader => Held { loader: Some(fd), ..self },
            Setup::OpenMemory => Held { memory: Some(fd), ..self },
            Setup::OpenImage => Held { image: Some(fd), ..self },
            Setup::Load => Held { space: Some(fd), ..self },
            Setup::OpenSelector => Held { selector: Some(fd), ..self },
            Setup::OpenStart => Held { start: Some(fd), ..self },
            _ => self,
        }
    }

    /// What is held when it is a step's turn.
    pub open spec fn before(self, s: Setup) -> bool {
        let at = rank(s);
        &&& self.table is Some <==> rank(Setup::CopyTable) < at <= rank(Setup::DropTable)
        &&& self.child is Some <==> rank(Setup::NewChild) < at
        &&& self.loader is Some <==> rank(Setup::OpenLoader) < at <= rank(Setup::Load)
        &&& self.memory is Some <==> rank(Setup::OpenMemory) < at
        &&& self.image is Some <==> rank(Setup::OpenImage) < at <= rank(Setup::Load)
        &&& self.space is Some <==> rank(Setup::Load) < at <= rank(Setup::DropSpace)
        &&& self.selector is Some <==> rank(Setup::OpenSelector) < at <= rank(
            Setup::DropSelector,
        )
        &&& self.start is Some <==> rank(Setup::OpenStart) < at <= rank(Setup::DropStart)
    }
}

/// Where the agent stands with a child.
#[derive(Clone, Copy, Debug, PartialEq, Eq)]
pub enum Stage {
    /// On the way to a running child.
    Setup {
        /// The next step.
        step: Setup,
    },
    /// The program needs an interpreter, which is not supported.
    Report,
    /// The child's terminal is to be read.
    Pump {
        /// The polls so far.
        turn: usize,
        /// The child's status, once it has exited.
        status: Option<usize>,
    },
    /// What was read is to be sent on.
    Forward {
        /// The polls so far.
        turn: usize,
        /// The child's status, once it has exited.
        status: Option<usize>,
        /// The bytes that were read.
        n: usize,
    },
    /// The child is to be polled.
    Wait {
        /// The polls so far.
        turn: usize,
    },
    /// A pause is to be made.
    Sleep {
        /// The polls so far.
        turn: usize,
    },
    /// What is held is to be closed, then all is done.
    Closing {
        /// What the child came to: its status, or the error that kept it from
        /// being started.
        result: Result<usize, i32>,
    },
}

/// What is to be done next for a child.
#[derive(Clone, Copy, Debug, PartialEq, Eq)]
pub enum Action {
    /// A system call.
    Call {
        /// Which one.
        call: Call,
    },
    /// Open the program.
    OpenImage {
        /// How.
        flags: Flags,
    },
    /// Make a process.
    NewChild,
    /// Load the program. This uses up the program and the handle of the child.
    Load {
        /// The program.
        image: usize,
        /// The handle of the child.
        loader: usize,
        /// The memory.
        memory: usize,
    },
    /// Write the number of a file table.
    WriteTable {
        /// Where to.
        fd: usize,
        /// That number.
        table: usize,
    },
    /// Write a single zero.
    WriteZero {
        /// Where to.
        fd: usize,
    },
    /// Read from the child's terminal.
    Read {
        /// That terminal.
        fd: usize,
    },
    /// Send on what was read last.
    Forward {
        /// The number of bytes.
        n: usize,
    },
    /// Ask whether the child has exited, without waiting for it.
    Wait {
        /// The child.
        pid: usize,
    },
    /// Report that the program needs an interpreter.
    Report,
    /// Nothing: all is done.
    Finish {
        /// What the child came to.
        result: Result<usize, i32>,
    },
}

/// What became of an action.
#[derive(Clone, Copy, Debug, PartialEq, Eq)]
pub enum Reply {
    /// What a system call returned.
    Value(Result<usize, i32>),
    /// A process: its handle and its number.
    Child(Result<(usize, usize), i32>),
    /// A loaded program: the handle of its address space, or nothing where it
    /// needs an interpreter.
    Loaded(Result<Option<usize>, i32>),
    /// What a poll returned, and the status that it left.
    Waited(Result<(usize, usize), i32>),
    /// It is done.
    Done,
}

/// Whether a reply is of the kind that an action asks for.
pub open spec fn fits(action: Action, reply: Reply) -> bool {
    match action {
        Action::Call { .. } => reply is Value,
        Action::OpenImage { .. } => reply is Value,
        Action::WriteTable { .. } => reply is Value,
        Action::WriteZero { .. } => reply is Value,
        Action::Read { .. } => reply is Value,
        Action::NewChild => reply is Child,
        Action::Load { .. } => reply is Loaded,
        Action::Wait { .. } => reply is Waited,
        Action::Forward { .. } => reply is Done,
        Action::Report => reply is Done,
        Action::Finish { .. } => false,
    }
}

/// Whether what a step returns does not matter.
pub open spec fn heedless(s: Setup) -> bool {
    match s {
        Setup::Redirect0 | Setup::Redirect1 | Setup::Redirect2 => true,
        Setup::DropSpace | Setup::DropSelector | Setup::DropTable | Setup::DropStart => true,
        _ => false,
    }
}

/// The error that keeps a child from being started, if a step gave one.
pub open spec fn failure(s: Setup, reply: Reply) -> Option<i32> {
    match reply {
        Reply::Value(Err(e)) => if heedless(s) {
            None
        } else {
            Some(e)
        },
        Reply::Child(Err(e)) => Some(e),
        Reply::Loaded(Err(e)) => Some(e),
        _ => None,
    }
}

/// The descriptor that a reply gives.
pub open spec fn given(reply: Reply) -> Option<usize> {
    match reply {
        Reply::Value(Ok(fd)) => Some(fd),
        Reply::Child(Ok((fd, _))) => Some(fd),
        Reply::Loaded(Ok(fd)) => fd,
        _ => None,
    }
}

/// What a connection has for its programs.
#[derive(Clone, Copy, Debug, PartialEq, Eq, Structural)]
pub struct Ctx {
    /// The agent's file table.
    pub cur_table: usize,
    /// The agent's end of the terminal.
    pub pty_master: usize,
    /// The programs' end of the terminal.
    pub pty_slave: usize,
    /// The connection.
    pub sock: usize,
}

/// A child.
#[derive(Clone, Copy, Debug, PartialEq, Eq)]
pub struct Spawn {
    /// The agent's file table.
    pub cur_table: usize,
    /// What the child's standard streams are to be.
    pub stdio: usize,
    /// The terminal that carries the child's output, if it is one.
    pub pump: Option<usize>,
    /// The child's number, once it has one.
    pub pid: usize,
    /// What is held.
    pub held: Held,
    /// Where the agent stands.
    pub stage: Stage,
}

impl Spawn {
    /// What holds between any two steps.
    pub open spec fn wf(self) -> bool {
        let running = self.held == (Held {
            child: self.held.child,
            memory: self.held.memory,
            ..Held::nothing()
        }) && self.held.child is Some && self.held.memory is Some;
        match self.stage {
            Stage::Setup { step } => self.held.before(step),
            Stage::Report => true,
            Stage::Pump { turn, .. } => running && turn < TURNS && self.pump is Some,
            Stage::Forward { turn, .. } => running && turn < TURNS && self.pump is Some,
            Stage::Wait { turn } => running && turn < TURNS,
            Stage::Sleep { turn } => running && turn < TURNS,
            Stage::Closing { .. } => true,
        }
    }

    /// The stage at which a poll begins: what the child has written is sent on
    /// first. A child that was polled often enough is given up.
    pub open spec fn poll(self, turn: int) -> Stage {
        if turn >= TURNS {
            Stage::Closing { result: Ok(NEVER_EXITED) }
        } else if self.pump is Some {
            Stage::Pump { turn: turn as usize, status: None }
        } else {
            Stage::Wait { turn: turn as usize }
        }
    }

    /// The stage behind a step.
    pub open spec fn behind(self, s: Setup) -> Stage {
        if rank(s) + 1 < order().len() {
            Stage::Setup { step: order()[rank(s) + 1] }
        } else {
            self.poll(0)
        }
    }

    /// The system call or other act that a step is.
    pub open spec fn step_action(self, s: Setup) -> Action {
        let held = self.held;
        match s {
            Setup::Redirect0 => Action::Call { call: Call::Dup2 { fd: self.stdio, target: 0 } },
            Setup::Redirect1 => Action::Call { call: Call::Dup2 { fd: self.stdio, target: 1 } },
            Setup::Redirect2 => Action::Call { call: Call::Dup2 { fd: self.stdio, target: 2 } },
            Setup::CopyTable => Action::Call {
                call: Call::Dup { fd: self.cur_table, tag: Tag::Copy },
            },
            Setup::NewChild => Action::NewChild,
            Setup::OpenLoader => Action::Call {
                call: Call::Dup { fd: held.child->0, tag: Tag::OpenViaDup },
            },
            Setup::OpenMemory => Action::Call {
                call: Call::Open { place: Place::Memory, flags: Flags::only(Access::Handle) },
            },
            Setup::OpenImage => Action::OpenImage {
                flags: Flags { cloexec: true, ..Flags::only(Access::Read) },
            },
            Setup::Load => Action::Load {
                image: held.image->0,
                loader: held.loader->0,
                memory: held.memory->0,
            },
            Setup::DropSpace => Action::Call { call: Call::Close { fd: held.space->0 } },
            Setup::OpenSelector => Action::Call {
                call: Call::Dup { fd: held.child->0, tag: Tag::CurrentFiletable },
            },
            Setup::InstallTable => Action::WriteTable {
                fd: held.selector->0,
                table: held.table->0,
            },
            Setup::DropSelector => Action::Call { call: Call::Close { fd: held.selector->0 } },
            Setup::DropTable => Action::Call { call: Call::Close { fd: held.table->0 } },
            Setup::OpenStart => Action::Call {
                call: Call::Dup { fd: held.child->0, tag: Tag::Start },
            },
            Setup::Begin => Action::WriteZero { fd: held.start->0 },
            Setup::DropStart => Action::Call { call: Call::Close { fd: held.start->0 } },
        }
    }

    /// What is to be done next.
    pub open spec fn asks(self) -> Action {
        match self.stage {
            Stage::Setup { step } => self.step_action(step),
            Stage::Report => Action::Report,
            Stage::Pump { .. } => Action::Read { fd: self.pump->0 },
            Stage::Forward { n, .. } => Action::Forward { n },
            Stage::Wait { .. } => Action::Wait { pid: self.pid },
            Stage::Sleep { .. } => Action::Call {
                call: Call::Sleep { secs: 0, nanos: PAUSE_NANOS },
            },
            Stage::Closing { result } => match self.held.top() {
                Some(fd) => Action::Call { call: Call::Close { fd } },
                None => Action::Finish { result },
            },
        }
    }

    /// What a reply to a step leaves.
    pub open spec fn after_step(self, s: Setup, reply: Reply) -> Spawn {
        let held = self.held.used(s);
        match failure(s, reply) {
            Some(e) => Spawn { held, stage: Stage::Closing { result: Err(e) }, ..self },
            None => match given(reply) {
                None => if s == Setup::Load {
                    Spawn { held, stage: Stage::Report, ..self }
                } else {
                    Spawn { held, stage: self.behind(s), ..self }
                },
                Some(fd) => Spawn {
                    held: held.with(s, fd),
                    pid: match reply {
                        Reply::Child(Ok((_, pid))) => pid,
                        _ => self.pid,
                    },
                    stage: self.behind(s),
                    ..self
                },
            },
        }
    }

    /// What a reply to what is asked for leaves.
    pub open spec fn after(self, reply: Reply) -> Spawn {
        match self.stage {
            Stage::Setup { step } => self.after_step(step, reply),
            Stage::Report => Spawn {
                stage: Stage::Closing { result: Ok(NEVER_EXITED) },
                ..self
            },
            Stage::Pump { turn, status } => Spawn {
                stage: match (reply, status) {
                    (Reply::Value(Ok(n)), _) if n > 0 => Stage::Forward { turn, status, n },
                    (_, Some(status)) => Stage::Closing { result: Ok(status) },
                    (_, None) => Stage::Wait { turn },
                },
                ..self
            },
            Stage::Forward { turn, status, .. } => Spawn {
                stage: Stage::Pump { turn, status },
                ..self
            },
            Stage::Wait { turn } => Spawn {
                stage: match reply {
                    Reply::Waited(Ok((pid, status))) => if pid == 0 {
                        Stage::Sleep { turn }
                    } else if self.pump is Some {
                        Stage::Pump { turn, status: Some(status) }
                    } else {
                        Stage::Closing { result: Ok(status) }
                    },
                    _ => Stage::Closing { result: Ok(NEVER_EXITED) },
                },
                ..self
            },
            Stage::Sleep { turn } => Spawn { stage: self.poll(turn + 1), ..self },
            Stage::Closing { .. } => Spawn { held: self.held.without_top(), ..self },
        }
    }

    /// What a series of replies leaves.
    pub open spec fn after_all(self, replies: Seq<Reply>) -> Spawn
        decreases replies.len(),
    {
        if replies.len() == 0 {
            self
        } else {
            self.after_all(replies.drop_last()).after(replies.last())
        }
    }

    /// Whether each of a series of replies is of the kind that was asked for.
    pub open spec fn all_fit(self, replies: Seq<Reply>) -> bool
        decreases replies.len(),
    {
        replies.len() > 0 ==> {
            let front = replies.drop_last();
            self.all_fit(front) && fits(self.after_all(front).asks(), replies.last())
        }
    }
}

/// The order lists every step at its place.
pub proof fn law_order_is_complete(s: Setup)
    ensures
        0 <= rank(s) < order().len(),
        order()[rank(s)] == s,
{
}

impl Spawn {
    /// Begin with nothing done: the child is to get `stdio` for its standard
    /// streams, and `pump` is read for its output.
    pub fn new(cur_table: usize, stdio: usize, pump: Option<usize>) -> (r: Self)
        ensures
            r == (Spawn {
                cur_table,
                stdio,
                pump,
                pid: 0,
                held: Held::nothing(),
                stage: Stage::Setup { step: order()[0] },
            }),
            r.wf(),
    {
        Spawn {
            cur_table,
            stdio,
            pump,
            pid: 0,
            held: Held {
                table: None,
                child: None,
                loader: None,
                memory: None,
                image: None,
                space: None,
                selector: None,
                start: None,
            },
            stage: Stage::Setup { step: Setup::Redirect0 },
        }
    }

    /// Begin with a program on a connection. On the terminal, the agent carries
    /// the program's output; on the socket, the program writes to the peer
    /// itself.
    pub fn for_launch(ctx: &Ctx, launch: &Launch) -> (r: Self)
        ensures
            r.wf(),
            is_new(r),
            r.cur_table == ctx.cur_table,
            launch@.terminal ==> r.stdio == ctx.pty_slave && r.pump == Some(ctx.pty_master),
            !launch@.terminal ==> r.stdio == ctx.sock && r.pump is None,
    {
        if launch.on_terminal() {
            Spawn::new(ctx.cur_table, ctx.pty_slave, Some(ctx.pty_master))
        } else {
            Spawn::new(ctx.cur_table, ctx.sock, None)
        }
    }

    /// What is to be done next.
    pub fn action(&self) -> (r: Action)
        requires
            self.wf(),
        ensures
            r == self.asks(),
    {
        match self.stage {
            Stage::Setup { step } => self.action_of_step(step),
            Stage::Report => Action::Report,
            Stage::Pump { .. } => Action::Read { fd: self.pump.unwrap() },
            Stage::Forward { n, .. } => Action::Forward { n },
            Stage::Wait { .. } => Action::Wait { pid: self.pid },
            Stage::Sleep { .. } => Action::Call {
                call: Call::Sleep { secs: 0, nanos: PAUSE_NANOS },
            },
            Stage::Closing { result } => match self.held.last_fd() {
                Some(fd) => Action::Call { call: Call::Close { fd } },
                None => Action::Finish { result },
            },
        }
    }

    fn action_of_step(&self, s: Setup) -> (r: Action)
        requires
            self.held.before(s),
        ensures
            r == self.step_action(s),
    {
        let held = self.held;
        let call = match s {
            Setup::Redirect0 => Call::Dup2 { fd: self.stdio, target: 0 },
            Setup::Redirect1 => Call::Dup2 { fd: self.stdio, target: 1 },
            Setup::Redirect2 => Call::Dup2 { fd: self.stdio, target: 2 },
            Setup::CopyTable => Call::Dup { fd: self.cur_table, tag: Tag::Copy },
            Setup::NewChild => {
                return Action::NewChild;
            },
            Setup::OpenLoader => Call::Dup { fd: held.child.unwrap(), tag: Tag::OpenViaDup },
            Setup::OpenMemory => Call::Open {
                place: Place::Memory,
                flags: Flags {
                    access: Access::Handle,
                    create: false,
                    nonblock: false,
                    cloexec: false,
                },
            },
            Setup::OpenImage => {
                return Action::OpenImage {
                    flags: Flags {
                        access: Access::Read,
                        create: false,
                        nonblock: false,
                        cloexec: true,
                    },
                };
            },
            Setup::Load => {
                return Action::Load {
                    image: held.image.unwrap(),
                    loader: held.loader.unwrap(),
                    memory: held.memory.unwrap(),
                };
            },
            Setup::DropSpace => Call::Close { fd: held.space.unwrap() },
            Setup::OpenSelector => Call::Dup {
                fd: held.child.unwrap(),
                tag: Tag::CurrentFiletable,
            },
            Setup::InstallTable => {
                return Action::WriteTable {
                    fd: held.selector.unwrap(),
                    table: held.table.unwrap(),
                };
            },
            Setup::DropSelector => Call::Close { fd: held.selector.unwrap() },
            Setup::DropTable => Call::Close { fd: held.table.unwrap() },
            Setup::OpenStart => Call::Dup { fd: held.child.unwrap(), tag: Tag::Start },
            Setup::Begin => {
                return Action::WriteZero { fd: held.start.unwrap() };
            },
            Setup::DropStart => Call::Close { fd: held.start.unwrap() },
        };
        Action::Call { call }
    }

    /// Take in what became of what was asked for.
    pub fn step(&mut self, reply: Reply)
        requires
            old(self).wf(),
            fits(old(self).asks(), reply),
        ensures
            final(self).wf(),
            *final(self) == old(self).after(reply),
    {
        match self.stage {
            Stage::Setup { step } => self.take_step(step, reply),
            Stage::Report => {
                self.stage = Stage::Closing { result: Ok(NEVER_EXITED) };
            },
            Stage::Pump { turn, status } => {
                let n: usize = match reply {
                    Reply::Value(Ok(n)) => n,
                    _ => 0,
                };
                self.stage = if n > 0 {
                    Stage::Forward { turn, status, n }
                } else {
                    match status {
                        Some(status) => Stage::Closing { result: Ok(status) },
                        None => Stage::Wait { turn },
                    }
                };
            },
            Stage::Forward { turn, status, .. } => {
                self.stage = Stage::Pump { turn, status };
            },
            Stage::Wait { turn } => {
                self.stage = match reply {
                    Reply::Waited(Ok((pid, status))) => if pid == 0 {
                        Stage::Sleep { turn }
                    } else if self.pump.is_some() {
                        Stage::Pump { turn, status: Some(status) }
                    } else {
                        Stage::Closing { result: Ok(status) }
                    },
                    _ => Stage::Closing { result: Ok(NEVER_EXITED) },
                };
            },
            Stage::Sleep { turn } => {
                self.stage = self.begin_poll(turn + 1);
            },
            Stage::Closing { .. } => {
                self.held.drop_last();
            },
        }
    }

    fn begin_poll(&self, turn: usize) -> (r: Stage)
        ensures
            r == self.poll(turn as int),
    {
        if turn >= TURNS {
            Stage::Closing { result: Ok(NEVER_EXITED) }
        } else if self.pump.is_some() {
            Stage::Pump { turn, status: None }
        } else {
            Stage::Wait { turn }
        }
    }

    fn stage_behind(&self, s: Setup) -> (r: Stage)
        ensures
            r == self.behind(s),
    {
        let step = match s {
            Setup::Redirect0 => Setup::Redirect1,
            Setup::Redirect1 => Setup::Redirect2,
            Setup::Redirect2 => Setup::CopyTable,
            Setup::CopyTable => Setup::NewChild,
            Setup::NewChild => Setup::OpenLoader,
            Setup::OpenLoader => Setup::OpenMemory,
            Setup::OpenMemory => Setup::OpenImage,
            Setup::OpenImage => Setup::Load,
            Setup::Load => Setup::DropSpace,
            Setup::DropSpace => Setup::OpenSelector,
            Setup::OpenSelector => Setup::InstallTable,
            Setup::InstallTable => Setup::DropSelector,
            Setup::DropSelector => Setup::DropTable,
            Setup::DropTable => Setup::OpenStart,
            Setup::OpenStart => Setup::Begin,
            Setup::Begin => Setup::DropStart,
            Setup::DropStart => {
                return self.begin_poll(0);
            },
        };
        Stage::Setup { step }
    }

    fn take_step(&mut self, s: Setup, reply: Reply)
        requires
            old(self).held.before(s),
            fits(old(self).step_action(s), reply),
        ensures
            final(self).wf(),
            *final(self) == old(self).after_step(s, reply),
    {
        self.held.use_up(s);
        let heedless = match s {
            Setup::Redirect0 | Setup::Redirect1 | Setup::Redirect2 => true,
            Setup::DropSpace | Setup::DropSelector | Setup::DropTable | Setup::DropStart => true,
            _ => false,
        };
        let outcome: Result<Option<usize>, i32> = match reply {
            Reply::Value(Ok(fd)) => Ok(Some(fd)),
            Reply::Value(Err(e)) => if heedless {
                Ok(None)
            } else {
                Err(e)
            },
            Reply::Child(Ok((fd, pid))) => {
                self.pid = pid;
                Ok(Some(fd))
            },
            Reply::Child(Err(e)) => Err(e),
            Reply::Loaded(r) => r,
            _ => Ok(None),
        };
        match outcome {
            Err(e) => {
                self.stage = Stage::Closing { result: Err(e) };
            },
            Ok(None) => {
                self.stage = match s {
                    Setup::Load => Stage::Report,
                    _ => self.stage_behind(s),
                };
            },
            Ok(Some(fd)) => {
                self.held.put(s, fd);
                self.stage = self.stage_behind(s);
            },
        }
    }
}

impl Held {
    fn last_fd(&self) -> (r: Option<usize>)
        ensures
            r == self.top(),
    {
        if self.start.is_some() {
            self.start
        } else if self.selector.is_some() {
            self.selector
        } else if self.space.is_some() {
            self.space
        } else if self.image.is_some() {
            self.image
        } else if self.memory.is_some() {
            self.memory
        } else if self.loader.is_some() {
            self.loader
        } else if self.child.is_some() {
            self.child
        } else {
            self.table
        }
    }

    fn drop_last(&mut self)
        ensures
            *final(self) == old(self).without_top(),
    {
        if self.start.is_some() {
            self.start = None;
        } else if self.selector.is_some() {
            self.selector = None;
        } else if self.space.is_some() {
            self.space = None;
        } else if self.image.is_some() {
            self.image = None;
        } else if self.memory.is_some() {
            self.memory = None;
        } else if self.loader.is_some() {
            self.loader = None;
        } else if self.child.is_some() {
            self.child = None;
        } else {
            self.table = None;
        }
    }

    fn use_up(&mut self, s: Setup)
        ensures
            *final(self) == old(self).used(s),
    {
        match s {
            Setup::Load => {
                self.image = None;
                self.loader = None;
            },
            Setup::DropSpace => {
                self.space = None;
            },
            Setup::DropSelector => {
                self.selector = None;
            },
            Setup::DropTable => {
                self.table = None;
            },
            Setup::DropStart => {
                self.start = None;
            },
            _ => {},
        }
    }

    fn put(&mut self, s: Setup, fd: usize)
        ensures
            *final(self) == old(self).with(s, fd),
    {
        match s {
            Setup::CopyTable => {
                self.table = Some(fd);
            },
            Setup::NewChild => {
                self.child = Some(fd);
            },
            Setup::OpenLoader => {
                self.loader = Some(fd);
            },
            Setup::OpenMemory => {
                self.memory = Some(fd);
            },
            Setup::OpenImage => {
                self.image = Some(fd);
            },
            Setup::Load => {
                self.space = Some(fd);
            },
            Setup::OpenSelector => {
                self.selector = Some(fd);
            },
            Setup::OpenStart => {
                self.start = Some(fd);
            },
            _ => {},
        }
    }
}

/// Whether a child is new: nothing is done and nothing is held.
pub open spec fn is_new(s: Spawn) -> bool {
    &&& s.held == Held::nothing()
    &&& s.stage == Stage::Setup { step: order()[0] }
}

/// The descriptors that the agent has more once an action is done.
pub open spec fn opens(action: Action, reply: Reply) -> Multiset<usize> {
    match action {
        Action::Call { call } => match reply {
            Reply::Value(answer) => call_opens(call, answer),
            _ => Multiset::empty(),
        },
        Action::OpenImage { .. } | Action::NewChild | Action::Load { .. } => one(given(reply)),
        _ => Multiset::empty(),
    }
}

/// The descriptors that the agent has no more once an action is done. Loading
/// a program uses up two, whether it works or not.
pub open spec fn closes(action: Action) -> Multiset<usize> {
    match action {
        Action::Call { call } => call_closes(call),
        Action::Load { image, loader, .. } => Multiset::singleton(image).add(
            Multiset::singleton(loader),
        ),
        _ => Multiset::empty(),
    }
}

impl Spawn {
    /// All descriptors that a series of actions opens.
    pub open spec fn opened(self, replies: Seq<Reply>) -> Multiset<usize>
        decreases replies.len(),
    {
        if replies.len() == 0 {
            Multiset::empty()
        } else {
            let front = replies.drop_last();
            self.opened(front).add(opens(self.after_all(front).asks(), replies.last()))
        }
    }

    /// All descriptors that a series of actions closes.
    pub open spec fn closed(self, replies: Seq<Reply>) -> Multiset<usize>
        decreases replies.len(),
    {
        if replies.len() == 0 {
            Multiset::empty()
        } else {
            let front = replies.drop_last();
            self.closed(front).add(closes(self.after_all(front).asks()))
        }
    }

    /// The number of pauses in a series of actions.
    pub open spec fn pauses(self, replies: Seq<Reply>) -> int
        decreases replies.len(),
    {
        if replies.len() == 0 {
            0
        } else {
            let front = replies.drop_last();
            self.pauses(front) + if self.after_all(front).stage is Sleep {
                1int
            } else {
                0
            }
        }
    }
}

/// What holds of a child before a step holds behind it.
pub proof fn law_step_keeps_wf(s: Spawn, reply: Reply)
    requires
        s.wf(),
        fits(s.asks(), reply),
    ensures
        s.after(reply).wf(),
{
}

proof fn lemma_run_wf(s: Spawn, replies: Seq<Reply>)
    requires
        s.wf(),
        s.all_fit(replies),
    ensures
        s.after_all(replies).wf(),
    decreases replies.len(),
{
    if replies.len() > 0 {
        lemma_run_wf(s, replies.drop_last());
        law_step_keeps_wf(s.after_all(replies.drop_last()), replies.last());
    }
}

/// No descriptor is lost or closed twice: what is held behind a step is what
/// was held before it, with what the step opened and without what it closed.
#[verifier::spinoff_prover]
#[verifier::rlimit(40)]
pub proof fn law_step_keeps_fds(s: Spawn, reply: Reply)
    requires
        s.wf(),
        fits(s.asks(), reply),
    ensures
        s.after(reply).held.fds().add(closes(s.asks())) == s.held.fds().add(
            opens(s.asks(), reply),
        ),
{
    broadcast use vstd::multiset::group_multiset_axioms;

    let before = s.held.fds().add(opens(s.asks(), reply));
    let behind = s.after(reply).held.fds().add(closes(s.asks()));
    assert forall|fd: usize| #[trigger] behind.count(fd) == before.count(fd) by {
        lemma_held_count(s.held, fd);
        lemma_held_count(s.after(reply).held, fd);
    }
    assert(behind =~= before);
}

proof fn lemma_held_count(held: Held, fd: usize)
    ensures
        held.fds().count(fd) == one(held.table).count(fd) + one(held.child).count(fd) + one(
            held.loader,
        ).count(fd) + one(held.memory).count(fd) + one(held.image).count(fd) + one(
            held.space,
        ).count(fd) + one(held.selector).count(fd) + one(held.start).count(fd),
{
    broadcast use vstd::multiset::group_multiset_axioms;

}

/// However a child fares, once all is done every descriptor that was opened for
/// it is closed, and closed once.
pub proof fn law_nothing_leaks(s: Spawn, replies: Seq<Reply>)
    requires
        is_new(s),
        s.all_fit(replies),
        s.after_all(replies).asks() is Finish,
    ensures
        s.opened(replies) == s.closed(replies),
{
    broadcast use vstd::multiset::group_multiset_axioms;

    lemma_fds_balance(s, replies);
    let end = s.after_all(replies);
    assert(end.held == Held::nothing());
    assert(Held::nothing().fds() =~= Multiset::empty());
    assert(s.opened(replies) =~= s.closed(replies));
}

proof fn lemma_fds_balance(s: Spawn, replies: Seq<Reply>)
    requires
        is_new(s),
        s.all_fit(replies),
    ensures
        s.after_all(replies).held.fds().add(s.closed(replies)) == s.opened(replies),
    decreases replies.len(),
{
    broadcast use vstd::multiset::group_multiset_axioms;

    if replies.len() == 0 {
        assert(s.held.fds().add(s.closed(replies)) =~= s.opened(replies));
    } else {
        let front = replies.drop_last();
        let mid = s.after_all(front);
        lemma_fds_balance(s, front);
        lemma_run_wf(s, front);
        law_step_keeps_fds(mid, replies.last());
        let end = s.after_all(replies);
        assert(end.held.fds().add(s.closed(front).add(closes(mid.asks()))) =~= end.held.fds().add(
            closes(mid.asks()),
        ).add(s.closed(front)));
        assert(mid.held.fds().add(opens(mid.asks(), replies.last())).add(s.closed(front))
            =~= mid.held.fds().add(s.closed(front)).add(opens(mid.asks(), replies.last())));
    }
}

/// As long as every step works, the steps are taken one behind the other in
/// their order, each as soon as the one before it is done, and the child is
/// polled right behind the last.
pub proof fn law_steps_in_order(s: Spawn, replies: Seq<Reply>)
    requires
        is_new(s),
        replies.len() <= order().len(),
        s.all_fit(replies),
        forall|i: int|
            0 <= i < replies.len() ==> failure(order()[i], #[trigger] replies[i]) is None
                && replies[i] != Reply::Loaded(Ok(None)),
    ensures
        s.after_all(replies).stage == if replies.len() < order().len() {
            Stage::Setup { step: order()[replies.len() as int] }
        } else {
            s.poll(0)
        },
        s.after_all(replies).pump == s.pump,
        s.after_all(replies).stdio == s.stdio,
        s.after_all(replies).cur_table == s.cur_table,
    decreases replies.len(),
{
    if replies.len() > 0 {
        let front = replies.drop_last();
        let n = front.len() as int;
        assert forall|i: int| 0 <= i < front.len() implies failure(
            order()[i],
            #[trigger] front[i],
        ) is None && front[i] != Reply::Loaded(Ok(None)) by {
            assert(front[i] == replies[i]);
        }
        law_steps_in_order(s, front);
        lemma_run_wf(s, front);
        assert(replies.last() == replies[n]);
        assert(rank(order()[n]) == n) by {
            law_order_is_complete(order()[n]);
        }
    }
}

/// A child that does not exit is given up behind as many pauses as there are
/// polls: ten minutes in all.
pub proof fn law_given_up_in_time(s: Spawn, replies: Seq<Reply>)
    requires
        is_new(s),
        s.all_fit(replies),
    ensures
        s.pauses(replies) <= TURNS,
        TURNS * PAUSE_NANOS == 600 * 1000000000,
{
    lemma_pauses(s, replies);
}

proof fn lemma_pauses(s: Spawn, replies: Seq<Reply>)
    requires
        is_new(s),
        s.all_fit(replies),
    ensures
        0 <= s.pauses(replies) <= TURNS,
        match s.after_all(replies).stage {
            Stage::Setup { .. } => s.pauses(replies) == 0,
            Stage::Report => s.pauses(replies) == 0,
            Stage::Pump { turn, .. } => s.pauses(replies) == turn,
            Stage::Forward { turn, .. } => s.pauses(replies) == turn,
            Stage::Wait { turn } => s.pauses(replies) == turn,
            Stage::Sleep { turn } => s.pauses(replies) == turn,
            Stage::Closing { .. } => true,
        },
    decreases replies.len(),
{
    if replies.len() > 0 {
        lemma_pauses(s, replies.drop_last());
        lemma_run_wf(s, replies.drop_last());
        lemma_run_wf(s, replies);
    }
}

/// What a poll settles: the status of a child that has exited, or the mark of a
/// child that cannot be polled. A poll that answers 0 settles nothing.
pub open spec fn settled(reply: Reply) -> Option<usize> {
    match reply {
        Reply::Waited(Ok((pid, status))) => if pid == 0 {
            None
        } else {
            Some(status)
        },
        Reply::Waited(Err(_)) => Some(NEVER_EXITED),
        _ => None,
    }
}

/// What a series of replies settles, by the first of them that settles
/// anything: a step that failed, a program that needs an interpreter, or, once
/// the steps are taken, a poll.
pub open spec fn verdict(replies: Seq<Reply>) -> Option<Result<usize, i32>>
    decreases replies.len(),
{
    if replies.len() == 0 {
        None
    } else {
        let front = replies.drop_last();
        let last = replies.last();
        if verdict(front) is Some {
            verdict(front)
        } else if front.len() < order().len() {
            match failure(order()[front.len() as int], last) {
                Some(e) => Some(Err(e)),
                None => if last == Reply::Loaded(Ok(None)) {
                    Some(Ok(NEVER_EXITED))
                } else {
                    None
                },
            }
        } else {
            match settled(last) {
                Some(status) => Some(Ok(status)),
                None => None,
            }
        }
    }
}

/// Whether a series of replies starts the child: every step was taken.
pub open spec fn started(replies: Seq<Reply>) -> bool {
    replies.len() >= order().len() && verdict(replies.take(order().len() as int)) is None
}

/// The number of polls in a series of replies.
pub open spec fn polls(replies: Seq<Reply>) -> int
    decreases replies.len(),
{
    if replies.len() == 0 {
        0
    } else {
        polls(replies.drop_last()) + if replies.last() is Waited {
            1int
        } else {
            0
        }
    }
}

proof fn lemma_verdict(s: Spawn, replies: Seq<Reply>)
    requires
        is_new(s),
        s.all_fit(replies),
    ensures
        0 <= polls(replies) <= TURNS,
        match s.after_all(replies).stage {
            Stage::Setup { step } => {
                &&& verdict(replies) is None
                &&& polls(replies) == 0
                &&& replies.len() < order().len()
                &&& step == order()[replies.len() as int]
            },
            Stage::Report => verdict(replies) == Some(Ok::<usize, i32>(NEVER_EXITED)),
            Stage::Pump { turn, status } | Stage::Forward { turn, status, .. } => {
                &&& replies.len() >= order().len()
                &&& match status {
                    Some(status) => verdict(replies) == Some(Ok::<usize, i32>(status)),
                    None => verdict(replies) is None && polls(replies) == turn,
                }
            },
            Stage::Wait { turn } => {
                &&& replies.len() >= order().len()
                &&& verdict(replies) is None
                &&& polls(replies) == turn
            },
            Stage::Sleep { turn } => {
                &&& replies.len() >= order().len()
                &&& verdict(replies) is None
                &&& polls(replies) == turn + 1
            },
            Stage::Closing { result } => {
                ||| verdict(replies) == Some(result)
                ||| {
                    &&& verdict(replies) is None
                    &&& replies.len() >= order().len()
                    &&& polls(replies) == TURNS
                    &&& result == Ok::<usize, i32>(NEVER_EXITED)
                }
            },
        },
    decreases replies.len(),
{
    if replies.len() > 0 {
        let front = replies.drop_last();
        lemma_verdict(s, front);
        lemma_run_wf(s, front);
        if let Stage::Setup { step } = s.after_all(front).stage {
            law_order_is_complete(step);
            assert(rank(step) == front.len());
        }
    }
}

proof fn lemma_error_is_early(replies: Seq<Reply>)
    requires
        verdict(replies) matches Some(Err(_)),
        replies.len() >= order().len(),
    ensures
        !started(replies),
    decreases replies.len(),
{
    let n = order().len() as int;
    if replies.len() == n {
        assert(replies.take(n) =~= replies);
    } else {
        assert(replies.drop_last().take(n) =~= replies.take(n));
        lemma_error_is_early(replies.drop_last());
    }
}

/// What a child comes to is the error of the first step that failed, or the
/// status in the first poll that did not answer 0. A child that was not seen to
/// exit gets the mark for it: the program needs an interpreter, that poll
/// failed, or as many polls as there are turns answered 0. Once a child is
/// started it never comes to an error.
pub proof fn law_result_of_child(s: Spawn, replies: Seq<Reply>, result: Result<usize, i32>)
    requires
        is_new(s),
        s.all_fit(replies),
        s.after_all(replies).asks() == (Action::Finish { result }),
    ensures
        polls(replies) <= TURNS,
        match verdict(replies) {
            Some(settled) => result == settled,
            None => {
                &&& result == Ok::<usize, i32>(NEVER_EXITED)
                &&& started(replies)
                &&& polls(replies) == TURNS
            },
        },
        started(replies) ==> result is Ok,
{
    lemma_verdict(s, replies);
    if verdict(replies) is None {
        lemma_nothing_earlier(replies, order().len() as int);
    }
    if started(replies) && result is Err {
        lemma_error_is_early(replies);
    }
}

proof fn lemma_nothing_earlier(replies: Seq<Reply>, n: int)
    requires
        verdict(replies) is None,
        0 <= n <= replies.len(),
    ensures
        verdict(replies.take(n)) is None,
    decreases replies.len(),
{
    if n == replies.len() {
        assert(replies.take(n) =~= replies);
    } else {
        assert(replies.drop_last().take(n) =~= replies.take(n));
        lemma_nothing_earlier(replies.drop_last(), n);
    }
}

/// What is read from a child's terminal is sent on before anything else is
/// done.
pub proof fn law_output_is_sent_on(s: Spawn, n: usize)
    requires
        s.wf(),
        s.stage is Pump,
        n > 0,
    ensures
        s.asks() == (Action::Read { fd: s.pump->0 }),
        s.after(Reply::Value(Ok(n))).asks() == (Action::Forward { n }),
        s.after(Reply::Value(Ok(n))).after(Reply::Done) == s,
{
}

/// The status of a child on a terminal is settled only by a read that finds
/// nothing more.
pub proof fn law_output_comes_first(s: Spawn, reply: Reply, status: usize)
    requires
        s.wf(),
        fits(s.asks(), reply),
        s.pump is Some,
        !(s.stage is Closing),
        s.after(reply).stage == (Stage::Closing { result: Ok(status) }),
        status != NEVER_EXITED,
    ensures
        s.asks() == (Action::Read { fd: s.pump->0 }),
        reply == Reply::Value(Ok(0)) || reply->Value_0 is Err,
{
}

/// What the steps ask for, by what the steps before them gave: the three
/// standard streams become the child's, the file table is copied behind that,
/// the program is loaded through the child's second handle, the copied table is
/// named to the child, and the child begins last. Each handle is closed where
/// the kernel acts on that. Then the child is polled under its own number.
pub proof fn law_steps_ask(
    s: Spawn,
    replies: Seq<Reply>,
    table: usize,
    child: usize,
    pid: usize,
    loader: usize,
    memory: usize,
    image: usize,
    space: usize,
    selector: usize,
    start: usize,
)
    requires
        is_new(s),
        s.all_fit(replies),
        replies.len() <= 17,
        replies.len() > 3 ==> replies[3] == Reply::Value(Ok(table)),
        replies.len() > 4 ==> replies[4] == Reply::Child(Ok((child, pid))),
        replies.len() > 5 ==> replies[5] == Reply::Value(Ok(loader)),
        replies.len() > 6 ==> replies[6] == Reply::Value(Ok(memory)),
        replies.len() > 7 ==> replies[7] == Reply::Value(Ok(image)),
        replies.len() > 8 ==> replies[8] == Reply::Loaded(Ok(Some(space))),
        replies.len() > 10 ==> replies[10] == Reply::Value(Ok(selector)),
        replies.len() > 11 ==> replies[11]->Value_0 is Ok,
        replies.len() > 14 ==> replies[14] == Reply::Value(Ok(start)),
        replies.len() > 15 ==> replies[15]->Value_0 is Ok,
    ensures
        ({
            let asked = s.after_all(replies).asks();
            let n = replies.len();
            &&& n == 0 ==> asked == (Action::Call { call: Call::Dup2 { fd: s.stdio, target: 0 } })
            &&& n == 1 ==> asked == (Action::Call { call: Call::Dup2 { fd: s.stdio, target: 1 } })
            &&& n == 2 ==> asked == (Action::Call { call: Call::Dup2 { fd: s.stdio, target: 2 } })
            &&& n == 3 ==> asked == (Action::Call {
                call: Call::Dup { fd: s.cur_table, tag: Tag::Copy },
            })
            &&& n == 4 ==> asked == Action::NewChild
            &&& n == 5 ==> asked == (Action::Call {
                call: Call::Dup { fd: child, tag: Tag::OpenViaDup },
            })
            &&& n == 6 ==> asked == (Action::Call {
                call: Call::Open {
                    place: Place::Memory,
                    flags: Flags {
                        access: Access::Handle,
                        create: false,
                        nonblock: false,
                        cloexec: false,
                    },
                },
            })
            &&& n == 7 ==> asked == (Action::OpenImage {
                flags: Flags {
                    access: Access::Read,
                    create: false,
                    nonblock: false,
                    cloexec: true,
                },
            })
            &&& n == 8 ==> asked == (Action::Load { image, loader, memory })
            &&& n == 9 ==> asked == (Action::Call { call: Call::Close { fd: space } })
            &&& n == 10 ==> asked == (Action::Call {
                call: Call::Dup { fd: child, tag: Tag::CurrentFiletable },
            })
            &&& n == 11 ==> asked == (Action::WriteTable { fd: selector, table })
            &&& n == 12 ==> asked == (Action::Call { call: Call::Close { fd: selector } })
            &&& n == 13 ==> asked == (Action::Call { call: Call::Close { fd: table } })
            &&& n == 14 ==> asked == (Action::Call {
                call: Call::Dup { fd: child, tag: Tag::Start },
            })
            &&& n == 15 ==> asked == (Action::WriteZero { fd: start })
            &&& n == 16 ==> asked == (Action::Call { call: Call::Close { fd: start } })
            &&& n == 17 ==> asked == match s.pump {
                Some(fd) => Action::Read { fd },
                None => Action::Wait { pid },
            }
        }),
{
    lemma_steps_hold(
        s,
        replies,
        table,
        child,
        pid,
        loader,
        memory,
        image,
        space,
        selector,
        start,
    );
}

proof fn lemma_steps_hold(
    s: Spawn,
    replies: Seq<Reply>,
    table: usize,
    child: usize,
    pid: usize,
    loader: usize,
    memory: usize,
    image: usize,
    space: usize,
    selector: usize,
    start: usize,
)
    requires
        is_new(s),
        s.all_fit(replies),
        replies.len() <= 17,
        replies.len() > 3 ==> replies[3] == Reply::Value(Ok(table)),
        replies.len() > 4 ==> replies[4] == Reply::Child(Ok((child, pid))),
        replies.len() > 5 ==> replies[5] == Reply::Value(Ok(loader)),
        replies.len() > 6 ==> replies[6] == Reply::Value(Ok(memory)),
        replies.len() > 7 ==> replies[7] == Reply::Value(Ok(image)),
        replies.len() > 8 ==> replies[8] == Reply::Loaded(Ok(Some(space))),
        replies.len() > 10 ==> replies[10] == Reply::Value(Ok(selector)),
        replies.len() > 11 ==> replies[11]->Value_0 is Ok,
        replies.len() > 14 ==> replies[14] == Reply::Value(Ok(start)),
        replies.len() > 15 ==> replies[15]->Value_0 is Ok,
    ensures
        ({
            let end = s.after_all(replies);
            let n = replies.len();
            &&& end.wf()
            &&& end.stdio == s.stdio
            &&& end.cur_table == s.cur_table
            &&& end.pump == s.pump
            &&& end.stage == if n < 17 {
                Stage::Setup { step: order()[n as int] }
            } else {
                s.poll(0)
            }
            &&& 3 < n <= 13 ==> end.held.table == Some(table)
            &&& 4 < n ==> end.held.child == Some(child) && end.pid == pid
            &&& 5 < n <= 8 ==> end.held.loader == Some(loader)
            &&& 6 < n ==> end.held.memory == Some(memory)
            &&& 7 < n <= 8 ==> end.held.image == Some(image)
            &&& 8 < n <= 9 ==> end.held.space == Some(space)
            &&& 10 < n <= 12 ==> end.held.selector == Some(selector)
            &&& 14 < n <= 16 ==> end.held.start == Some(start)
        }),
    decreases replies.len(),
{
    if replies.len() > 0 {
        let front = replies.drop_last();
        let n = front.len() as int;
        assert(forall|i: int| 0 <= i < n ==> front[i] == replies[i]);
        lemma_steps_hold(
            s,
            front,
            table,
            child,
            pid,
            loader,
            memory,
            image,
            space,
            selector,
            start,
        );
        law_step_keeps_wf(s.after_all(front), replies.last());
        assert(replies.last() == replies[n]);
        law_order_is_complete(order()[n]);
        assert(rank(order()[n]) == n);
    }
}

/// A step that gives an error ends the way to the child with that error. Only
/// where a descriptor is redirected or closed does it make no difference what
/// the kernel answers.
pub proof fn law_failed_step(s: Spawn, e: i32, fd: usize)
    requires
        s.wf(),
        s.stage is Setup,
    ensures
        ({
            let closing = Stage::Closing { result: Err(e) };
            match s.asks() {
                Action::Call { call: Call::Dup2 { .. } }
                | Action::Call { call: Call::Close { .. } } => s.after(Reply::Value(Err(e)))
                    == s.after(Reply::Value(Ok(fd))) && !(s.after(
                    Reply::Value(Err(e)),
                ).stage is Closing),
                Action::NewChild => s.after(Reply::Child(Err(e))).stage == closing,
                Action::Load { .. } => s.after(Reply::Loaded(Err(e))).stage == closing,
                _ => s.after(Reply::Value(Err(e))).stage == closing,
            }
        }),
{
}

/// A program that needs an interpreter is reported, and its child comes to the
/// mark of one that was not seen to exit.
pub proof fn law_interpreter_is_reported(s: Spawn)
    requires
        s.wf(),
        s.stage is Setup,
        s.asks() is Load,
    ensures
        s.after(Reply::Loaded(Ok(None))).asks() == Action::Report,
        s.after(Reply::Loaded(Ok(None))).after(Reply::Done).stage == (Stage::Closing {
            result: Ok(usize::MAX),
        }),
{
}

/// What is held at the end is closed one by one, the latest first, whatever the
/// kernel answers, and nothing of it changes what the child came to.
pub proof fn law_latest_is_closed_first(s: Spawn, reply: Reply, result: Result<usize, i32>)
    requires
        s.stage == (Stage::Closing { result }),
    ensures
        s.after(reply).stage == s.stage,
        ({
            let h = s.held;
            let asked = s.asks();
            let rest = s.after(reply).held;
            match (h.start, h.selector, h.space, h.image, h.memory, h.loader, h.child, h.table) {
                (Some(fd), _, _, _, _, _, _, _) => asked == (Action::Call {
                    call: Call::Close { fd },
                }) && rest == (Held { start: None, ..h }),
                (None, Some(fd), _, _, _, _, _, _) => asked == (Action::Call {
                    call: Call::Close { fd },
                }) && rest == (Held { selector: None, ..h }),
                (None, None, Some(fd), _, _, _, _, _) => asked == (Action::Call {
                    call: Call::Close { fd },
                }) && rest == (Held { space: None, ..h }),
                (None, None, None, Some(fd), _, _, _, _) => asked == (Action::Call {
                    call: Call::Close { fd },
                }) && rest == (Held { image: None, ..h }),
                (None, None, None, None, Some(fd), _, _, _) => asked == (Action::Call {
                    call: Call::Close { fd },
                }) && rest == (Held { memory: None, ..h }),
                (None, None, None, None, None, Some(fd), _, _) => asked == (Action::Call {
                    call: Call::Close { fd },
                }) && rest == (Held { loader: None, ..h }),
                (None, None, None, None, None, None, Some(fd), _) => asked == (Action::Call {
                    call: Call::Close { fd },
                }) && rest == (Held { child: None, ..h }),
                (None, None, None, None, None, None, None, Some(fd)) => asked == (Action::Call {
                    call: Call::Close { fd },
                }) && rest == (Held { table: None, ..h }),
                _ => asked == (Action::Finish { result }),
            }
        }),
{
}

/// A poll that answers 0 is followed by a pause of a quarter of a second, and
/// the pause by the next turn: by a read of the terminal where there is one, and
/// by a poll otherwise. A child that has exited has its terminal read once more,
/// and then comes to the status that the poll gave.
pub proof fn law_turn(s: Spawn, turn: usize, pid: usize, status: usize, e: i32, reply: Reply)
    requires
        s.wf(),
        s.stage == (Stage::Wait { turn }),
        pid != 0,
    ensures
        s.asks() == (Action::Wait { pid: s.pid }),
        ({
            let idle = s.after(Reply::Waited(Ok((0, status))));
            let woken = idle.after(reply);
            &&& idle.asks() == (Action::Call {
                call: Call::Sleep { secs: 0, nanos: 250000000 },
            })
            &&& turn + 1 < 2400 ==> woken.asks() == match s.pump {
                Some(fd) => Action::Read { fd },
                None => Action::Wait { pid: s.pid },
            }
            &&& turn + 1 >= 2400 ==> woken.stage == (Stage::Closing { result: Ok(usize::MAX) })
        }),
        ({
            let exited = s.after(Reply::Waited(Ok((pid, status))));
            match s.pump {
                Some(fd) => {
                    &&& exited.asks() == (Action::Read { fd })
                    &&& exited.after(Reply::Value(Ok(0))).stage == (Stage::Closing {
                        result: Ok(status),
                    })
                    &&& exited.after(Reply::Value(Err(e))).stage == (Stage::Closing {
                        result: Ok(status),
                    })
                },
                None => exited.stage == (Stage::Closing { result: Ok(status) }),
            }
        }),
        s.after(Reply::Waited(Err(e))).stage == (Stage::Closing { result: Ok(usize::MAX) }),
{
}

/// Output is never held back: whenever a child with a terminal is polled, the
/// terminal was read right before, and nothing more was found there.
pub proof fn law_read_before_poll(s: Spawn, replies: Seq<Reply>, fd: usize)
    requires
        is_new(s),
        s.all_fit(replies),
        s.pump == Some(fd),
        s.after_all(replies).asks() is Wait,
    ensures
        replies.len() > 0,
        s.after_all(replies.drop_last()).asks() == (Action::Read { fd }),
        replies.last() == Reply::Value(Ok(0)) || (replies.last() matches Reply::Value(Err(_))),
{
    lemma_kept(s, replies);
    let front = replies.drop_last();
    if replies.len() > 0 {
        lemma_kept(s, front);
        lemma_run_wf(s, front);
    }
}

/// A terminal is read until nothing more is found there, and each time all that
/// was read is sent on before it is read again.
pub proof fn law_read_until_empty(s: Spawn, replies: Seq<Reply>, fd: usize, n: usize)
    requires
        is_new(s),
        s.all_fit(replies),
        s.after_all(replies).asks() == (Action::Read { fd }),
        n > 0,
    ensures
        s.pump == Some(fd),
        s.after_all(replies).after(Reply::Value(Ok(n))).asks() == (Action::Forward { n }),
        s.after_all(replies).after(Reply::Value(Ok(n))).after(Reply::Done) == s.after_all(replies),
{
    lemma_kept(s, replies);
    lemma_run_wf(s, replies);
}

/// A child that is polled is the one that was made: its number came with its
/// handle.
pub proof fn law_own_child_is_polled(s: Spawn, replies: Seq<Reply>, pid: usize)
    requires
        is_new(s),
        s.all_fit(replies),
        s.after_all(replies).asks() == (Action::Wait { pid }),
    ensures
        replies.len() > 4,
        replies[4] matches Reply::Child(Ok((_, made))) && made == pid,
{
    lemma_kept(s, replies);
    lemma_verdict(s, replies);
}

proof fn lemma_kept(s: Spawn, replies: Seq<Reply>)
    requires
        is_new(s),
        s.all_fit(replies),
    ensures
        s.after_all(replies).pump == s.pump,
        match s.after_all(replies).stage {
            Stage::Closing { .. } | Stage::Report => true,
            _ => replies.len() > 4 ==> (replies[4] matches Reply::Child(Ok((_, made))) && made
                == s.after_all(replies).pid),
        },
    decreases replies.len(),
{
    if replies.len() > 0 {
        let front = replies.drop_last();
        lemma_kept(s, front);
        lemma_verdict(s, front);
        lemma_run_wf(s, front);
        if replies.len() == 5 {
            assert(replies.last() == replies[4]);
        } else if replies.len() > 5 {
            assert(front[4] == replies[4]);
        }
        if let Stage::Setup { step } = s.after_all(front).stage {
            law_order_is_complete(step);
        }
    }
}

/// A read that finds nothing, or fails, is followed by a poll as long as the
/// child was not seen to exit.
pub proof fn law_poll_behind_empty_read(s: Spawn, turn: usize, e: i32)
    requires
        s.wf(),
        s.stage == (Stage::Pump { turn, status: None }),
    ensures
        s.after(Reply::Value(Ok(0))).asks() == (Action::Wait { pid: s.pid }),
        s.after(Reply::Value(Err(e))) == s.after(Reply::Value(Ok(0))),
{
}

} // verus!
