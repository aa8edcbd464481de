//! The server: taking the port, setting up the terminal, and accepting one
//! connection behind the other.

use crate::kernel::{call_closes, call_opens, Access, Call, Flags, Place, Tag};
use crate::spawn::one;
use vstd::multiset::Multiset;
use vstd::prelude::*;
use vstd::slice::slice_subrange;
use vstd::utf8::{encode_utf8, valid_utf8};

verus! {

/// How often the agent tries to take the port.
pub const BIND_TRIES: usize = 120;

/// The bytes of a terminal's path that are read.
pub const NAME_SIZE: usize = 128;

/// The error of `core::str::from_utf8`. Nothing is known of it.
#[verifier::external_type_specification]
#[verifier::external_body]
pub struct ExUtf8Error(core::str::Utf8Error);

/// `core::str::from_utf8` succeeds on exactly the byte strings that are valid
/// UTF-8, and the text that it gives has those bytes.
pub assume_specification[ core::str::from_utf8 ](v: &[u8]) -> (r: Result<
    &str,
    core::str::Utf8Error,
>)
    ensures
        r is Ok <==> valid_utf8(v@),
        r matches Ok(s) ==> encode_utf8(s@) == v@,
;

/// What the agent reports to whoever watches the machine.
#[derive(Clone, Copy, Debug, PartialEq, Eq, Structural)]
pub enum Notice {
    /// The port cannot be had.
    BindFailed,
    /// The port is taken.
    Listening,
    /// There is no terminal, so no command would run.
    NoPty {
        /// The error.
        errno: i32,
    },
    /// The terminal's path cannot be had.
    NameFailed {
        /// The error.
        errno: i32,
    },
    /// The terminal's path is not a text.
    NameNotUtf8,
    /// The other end of the terminal cannot be opened.
    SlaveFailed {
        /// The error.
        errno: i32,
    },
    /// The agent's own process cannot be opened.
    ProcessFailed {
        /// The error.
        errno: i32,
    },
    /// The agent's own file table cannot be opened.
    TableFailed {
        /// The error.
        errno: i32,
    },
    /// A connection was accepted.
    Accepted,
    /// A connection was closed.
    ConnectionClosed,
}

/// Where the server stands.
#[derive(Clone, Copy, Debug, PartialEq, Eq)]
pub enum Stage {
    /// The console is to be opened.
    OpenDebug,
    /// The network stack is to be opened by its older name.
    OpenTcp,
    /// It is to be opened by its other name.
    OpenTcpScheme,
    /// The port is to be taken.
    Bind {
        /// The network stack.
        fd: usize,
    },
    /// The port is taken, and the network stack is to be closed.
    CloseBound {
        /// The network stack.
        fd: usize,
    },
    /// The port is not taken, and the network stack is to be closed.
    CloseUnbound {
        /// The network stack.
        fd: usize,
    },
    /// A second is to pass before the next try.
    Pause,
    /// The taken port is to be reported.
    Listening,
    /// A terminal is to be opened.
    OpenPty,
    /// A terminal is to be made.
    CreatePty,
    /// The terminal's path is to be found out.
    Name,
    /// The other end of the terminal is to be opened.
    OpenSlave,
    /// The agent's own process is to be opened.
    OpenProcess,
    /// The agent's own file table is to be opened.
    OpenTable {
        /// The process.
        process: usize,
    },
    /// The process is to be closed.
    CloseProcess {
        /// The process.
        process: usize,
    },
    /// A connection is to be accepted.
    Accept,
    /// A second is to pass before the next connection.
    AcceptPause,
    /// The connection is to be reported.
    Accepted {
        /// The connection.
        sock: usize,
    },
    /// A handle of the file table is to be made for the connection.
    CopyTable {
        /// The connection.
        sock: usize,
    },
    /// The connection cannot be served and is to be closed.
    Refuse {
        /// The connection.
        sock: usize,
    },
    /// The connection is to be served.
    Serve {
        /// The connection.
        sock: usize,
        /// Its handle of the file table.
        table: usize,
    },
    /// The end of the connection is to be reported.
    Gone {
        /// The connection.
        sock: usize,
        /// Its handle of the file table.
        table: usize,
    },
    /// The connection is to be closed.
    CloseSock {
        /// The connection.
        sock: usize,
        /// Its handle of the file table.
        table: usize,
    },
    /// The handle of the file table is to be closed.
    CloseCopy {
        /// That handle.
        table: usize,
    },
    /// The agent cannot serve, which is to be reported.
    Failed {
        /// Why.
        notice: Notice,
        /// The process, where it is open.
        left: Option<usize>,
    },
    /// The agent cannot serve, and the process is to be closed.
    CloseFailed {
        /// The process.
        process: usize,
    },
    /// The agent cannot serve and ends.
    Exit,
}

/// What is to be done next.
#[derive(Clone, Copy, Debug, PartialEq, Eq)]
pub enum Action {
    /// A system call.
    Call {
        /// Which one.
        call: Call,
    },
    /// Find out a descriptor's path.
    Name {
        /// Which one.
        fd: usize,
    },
    /// Open the path that was found out.
    OpenSlave {
        /// How.
        flags: Flags,
    },
    /// Report something.
    Report {
        /// What.
        notice: Notice,
    },
    /// Serve a connection until it is to be closed.
    Serve {
        /// The connection.
        sock: usize,
        /// Its handle of the agent's file table.
        table: usize,
        /// The agent's end of the terminal.
        master: usize,
        /// The programs' end of the terminal.
        slave: usize,
    },
    /// End.
    Exit,
}

/// What became of an action.
pub enum Reply {
    /// What a system call returned.
    Value(Result<usize, i32>),
    /// A path that was found out: whether it is a text.
    Named(Result<bool, i32>),
    /// It is done.
    Done,
}

/// Whether a reply is of the kind that an action asks for.
pub open spec fn fits(action: Action, reply: Reply) -> bool {
    match action {
        Action::Call { .. } => reply is Value,
        Action::OpenSlave { .. } => reply is Value,
        Action::Name { .. } => reply is Named,
        Action::Report { .. } => reply is Done,
        Action::Serve { .. } => reply is Done,
        Action::Exit => false,
    }
}

/// What the server knows, but for the terminal's path.
#[derive(Clone, Copy, Debug, PartialEq, Eq)]
pub struct State {
    /// The console.
    pub debug: Option<usize>,
    /// The tries to take the port that came to nothing.
    pub tries: usize,
    /// The port.
    pub listener: Option<usize>,
    /// The agent's end of the terminal.
    pub master: Option<usize>,
    /// The programs' end of the terminal.
    pub slave: Option<usize>,
    /// The agent's file table.
    pub table: Option<usize>,
    /// Where the server stands.
    pub stage: Stage,
}

/// Whether a stage belongs to the loop that accepts connections.
pub open spec fn is_serving(stage: Stage) -> bool {
    match stage {
        Stage::Accept | Stage::AcceptPause => true,
        Stage::Accepted { .. } | Stage::CopyTable { .. } | Stage::Refuse { .. } => true,
        Stage::Serve { .. } | Stage::Gone { .. } => true,
        Stage::CloseSock { .. } | Stage::CloseCopy { .. } => true,
        _ => false,
    }
}

/// The terminal is opened so that reading it never waits.
pub open spec fn pty_flags(create: bool) -> Flags {
    Flags { create, nonblock: true, ..Flags::only(Access::ReadWrite) }
}

impl State {
    /// Nothing is done yet.
    pub open spec fn fresh() -> State {
        State {
            debug: None,
            tries: 0,
            listener: None,
            master: None,
            slave: None,
            table: None,
            stage: Stage::OpenDebug,
        }
    }

    /// What holds between any two steps.
    pub open spec fn wf(self) -> bool {
        let unbound = self.listener is None && self.master is None && self.slave is None
            && self.table is None && self.tries < BIND_TRIES;
        let bound = self.listener is Some;
        match self.stage {
            Stage::OpenDebug => unbound && self.debug is None && self.tries == 0,
            Stage::OpenTcp | Stage::OpenTcpScheme | Stage::Pause => unbound,
            Stage::Bind { .. } | Stage::CloseUnbound { .. } => unbound,
            Stage::CloseBound { .. } | Stage::Listening | Stage::OpenPty | Stage::CreatePty => bound
                && self.master is None && self.slave is None && self.table is None,
            Stage::Name | Stage::OpenSlave => bound && self.master is Some && self.slave is None
                && self.table is None,
            Stage::OpenProcess | Stage::OpenTable { .. } => bound && self.master is Some
                && self.slave is Some && self.table is None,
            Stage::CloseProcess { .. } => bound && self.master is Some && self.slave is Some
                && self.table is Some,
            Stage::Failed { .. } | Stage::CloseFailed { .. } | Stage::Exit => true,
            _ => bound && self.master is Some && self.slave is Some && self.table is Some,
        }
    }

    /// What is to be done next.
    pub open spec fn asks(self) -> Action {
        let rw = Flags::only(Access::ReadWrite);
        let second = Action::Call { call: Call::Sleep { secs: 1, nanos: 0 } };
        match self.stage {
            Stage::OpenDebug => Action::Call {
                call: Call::Open { place: Place::Debug, flags: rw },
            },
            Stage::OpenTcp => Action::Call { call: Call::Open { place: Place::Tcp, flags: rw } },
            Stage::OpenTcpScheme => Action::Call {
                call: Call::Open { place: Place::TcpScheme, flags: rw },
            },
            Stage::Bind { fd } => Action::Call { call: Call::Dup { fd, tag: Tag::Bind } },
            Stage::CloseBound { fd } => Action::Call { call: Call::Close { fd } },
            Stage::CloseUnbound { fd } => Action::Call { call: Call::Close { fd } },
            Stage::Pause => second,
            Stage::Listening => Action::Report { notice: Notice::Listening },
            Stage::OpenPty => Action::Call {
                call: Call::Open { place: Place::Pty, flags: pty_flags(false) },
            },
            Stage::CreatePty => Action::Call {
                call: Call::Open { place: Place::Pty, flags: pty_flags(true) },
            },
            Stage::Name => Action::Name { fd: self.master->0 },
            Stage::OpenSlave => Action::OpenSlave { flags: rw },
            Stage::OpenProcess => Action::Call {
                call: Call::Open {
                    place: Place::ThisProcess,
                    flags: Flags { cloexec: true, ..Flags::only(Access::Handle) },
                },
            },
            Stage::OpenTable { process } => Action::Call {
                call: Call::Dup { fd: process, tag: Tag::Filetable },
            },
            Stage::CloseProcess { process } => Action::Call { call: Call::Close { fd: process } },
            Stage::Accept => Action::Call {
                call: Call::Dup { fd: self.listener->0, tag: Tag::Listen },
            },
            Stage::AcceptPause => second,
            Stage::Accepted { .. } => Action::Report { notice: Notice::Accepted },
            Stage::CopyTable { .. } => Action::Call {
                call: Call::Dup { fd: self.table->0, tag: Tag::Same },
            },
            Stage::Refuse { sock } => Action::Call { call: Call::Close { fd: sock } },
            Stage::Serve { sock, table } => Action::Serve {
                sock,
                table,
                master: self.master->0,
                slave: self.slave->0,
            },
            Stage::Gone { .. } => Action::Report { notice: Notice::ConnectionClosed },
            Stage::CloseSock { sock, .. } => Action::Call { call: Call::Close { fd: sock } },
            Stage::CloseCopy { table } => Action::Call { call: Call::Close { fd: table } },
            Stage::Failed { notice, .. } => Action::Report { notice },
            Stage::CloseFailed { process } => Action::Call { call: Call::Close { fd: process } },
            Stage::Exit => Action::Exit,
        }
    }

    /// What a try to take the port that came to nothing leaves.
    pub open spec fn missed(self) -> State {
        State {
            tries: (self.tries + 1) as usize,
            stage: if self.tries + 1 >= BIND_TRIES {
                Stage::Failed { notice: Notice::BindFailed, left: None }
            } else {
                Stage::Pause
            },
            ..self
        }
    }

    /// The same at another stage.
    pub open spec fn to(self, stage: Stage) -> State {
        State { stage, ..self }
    }

    /// The same where the agent cannot serve.
    pub open spec fn failed(self, notice: Notice) -> State {
        self.to(Stage::Failed { notice, left: None })
    }

    /// What the answer to a system call leaves.
    pub open spec fn after_value(self, answer: Result<usize, i32>) -> State {
        match (self.stage, answer) {
            (Stage::OpenDebug, Ok(fd)) => State { debug: Some(fd), ..self.to(Stage::OpenTcp) },
            (Stage::OpenDebug, Err(_)) => self.to(Stage::OpenTcp),
            (Stage::OpenTcp, Ok(fd)) => self.to(Stage::Bind { fd }),
            (Stage::OpenTcp, Err(_)) => self.to(Stage::OpenTcpScheme),
            (Stage::OpenTcpScheme, Ok(fd)) => self.to(Stage::Bind { fd }),
            (Stage::OpenTcpScheme, Err(_)) => self.missed(),
            (Stage::Bind { fd }, Ok(l)) => State {
                listener: Some(l),
                ..self.to(Stage::CloseBound { fd })
            },
            (Stage::Bind { fd }, Err(_)) => self.to(Stage::CloseUnbound { fd }),
            (Stage::CloseBound { .. }, _) => self.to(Stage::Listening),
            (Stage::CloseUnbound { .. }, _) => self.missed(),
            (Stage::Pause, _) => self.to(Stage::OpenTcp),
            (Stage::OpenPty, Ok(fd)) => State { master: Some(fd), ..self.to(Stage::Name) },
            (Stage::OpenPty, Err(_)) => self.to(Stage::CreatePty),
            (Stage::CreatePty, Ok(fd)) => State { master: Some(fd), ..self.to(Stage::Name) },
            (Stage::CreatePty, Err(errno)) => self.failed(Notice::NoPty { errno }),
            (Stage::OpenSlave, Ok(fd)) => State { slave: Some(fd), ..self.to(Stage::OpenProcess) },
            (Stage::OpenSlave, Err(errno)) => self.failed(Notice::SlaveFailed { errno }),
            (Stage::OpenProcess, Ok(process)) => self.to(Stage::OpenTable { process }),
            (Stage::OpenProcess, Err(errno)) => self.failed(Notice::ProcessFailed { errno }),
            (Stage::OpenTable { process }, Ok(fd)) => State {
                table: Some(fd),
                ..self.to(Stage::CloseProcess { process })
            },
            (Stage::OpenTable { process }, Err(errno)) => self.to(
                Stage::Failed { notice: Notice::TableFailed { errno }, left: Some(process) },
            ),
            (Stage::CloseProcess { .. }, _) => self.to(Stage::Accept),
            (Stage::Accept, Ok(sock)) => self.to(Stage::Accepted { sock }),
            (Stage::Accept, Err(_)) => self.to(Stage::AcceptPause),
            (Stage::AcceptPause, _) => self.to(Stage::Accept),
            (Stage::CopyTable { sock }, Ok(table)) => self.to(Stage::Serve { sock, table }),
            (Stage::CopyTable { sock }, Err(_)) => self.to(Stage::Refuse { sock }),
            (Stage::Refuse { .. }, _) => self.to(Stage::Accept),
            (Stage::CloseSock { table, .. }, _) => self.to(Stage::CloseCopy { table }),
            (Stage::CloseCopy { .. }, _) => self.to(Stage::Accept),
            (Stage::CloseFailed { .. }, _) => self.to(Stage::Exit),
            _ => self,
        }
    }

    /// What a reply to what is asked for leaves.
    pub open spec fn after(self, reply: Reply) -> State {
        match reply {
            Reply::Value(answer) => self.after_value(answer),
            Reply::Named(Ok(true)) => self.to(Stage::OpenSlave),
            Reply::Named(Ok(false)) => self.failed(Notice::NameNotUtf8),
            Reply::Named(Err(errno)) => self.failed(Notice::NameFailed { errno }),
            Reply::Done => match self.stage {
                Stage::Listening => self.to(Stage::OpenPty),
                Stage::Accepted { sock } => self.to(Stage::CopyTable { sock }),
                Stage::Serve { sock, table } => self.to(Stage::Gone { sock, table }),
                Stage::Gone { sock, table } => self.to(Stage::CloseSock { sock, table }),
                Stage::Failed { left: Some(process), .. } => self.to(
                    Stage::CloseFailed { process },
                ),
                Stage::Failed { left: None, .. } => self.to(Stage::Exit),
                _ => self,
            },
        }
    }

    /// What a series of replies leaves.
    pub open spec fn after_all(self, replies: Seq<Reply>) -> State
        decreases replies.len(),
    {
        if replies.len() == 0 {
            self
        } else {
            self.after_all(replies.drop_last()).after(replies.last())
        }
    }

    /// Whether each of a series of replies is of the kind that was asked for.
    pub open spec fn all_fit(self, replies: Seq<Reply>) -> bool
        decreases replies.len(),
    {
        replies.len() > 0 ==> {
            let front = replies.drop_last();
            self.all_fit(front) && fits(self.after_all(front).asks(), replies.last())
        }
    }
}

/// The server.
pub struct Server {
    state: State,
    name: [u8; NAME_SIZE],
    name_len: usize,
}

impl Server {
    /// What the server knows, but for the terminal's path.
    pub closed spec fn state(self) -> State {
        self.state
    }

    /// The terminal's path.
    pub closed spec fn name(self) -> Seq<u8> {
        self.name@.take(self.name_len as int)
    }

    /// What holds between any two steps.
    pub closed spec fn wf(self) -> bool {
        &&& self.state.wf()
        &&& self.name_len <= NAME_SIZE
        &&& self.state.stage == Stage::OpenSlave ==> valid_utf8(self.name())
    }

    /// Begin with nothing done.
    pub fn new() -> (r: Self)
        ensures
            r.wf(),
            r.state() == State::fresh(),
    {
        Server {
            state: State {
                debug: None,
                tries: 0,
                listener: None,
                master: None,
                slave: None,
                table: None,
                stage: Stage::OpenDebug,
            },
            name: [0u8; NAME_SIZE],
            name_len: 0,
        }
    }

    /// The console, if it could be opened.
    pub fn debug(&self) -> (r: Option<usize>)
        ensures
            r == self.state().debug,
    {
        self.state.debug
    }

    /// What is to be done next.
    pub fn action(&self) -> (r: Action)
        requires
            self.wf(),
        ensures
            r == self.state().asks(),
    {
        let rw = Flags {
            access: Access::ReadWrite,
            create: false,
            nonblock: false,
            cloexec: false,
        };
        let state = self.state;
        let call = match state.stage {
            Stage::OpenDebug => Call::Open { place: Place::Debug, flags: rw },
            Stage::OpenTcp => Call::Open { place: Place::Tcp, flags: rw },
            Stage::OpenTcpScheme => Call::Open { place: Place::TcpScheme, flags: rw },
            Stage::Bind { fd } => Call::Dup { fd, tag: Tag::Bind },
            Stage::CloseBound { fd } => Call::Close { fd },
            Stage::CloseUnbound { fd } => Call::Close { fd },
            Stage::Pause => Call::Sleep { secs: 1, nanos: 0 },
            Stage::Listening => {
                return Action::Report { notice: Notice::Listening };
            },
            Stage::OpenPty => Call::Open {
                place: Place::Pty,
                flags: Flags {
                    access: Access::ReadWrite,
                    create: false,
                    nonblock: true,
                    cloexec: false,
                },
            },
            Stage::CreatePty => Call::Open {
                place: Place::Pty,
                flags: Flags {
                    access: Access::ReadWrite,
                    create: true,
                    nonblock: true,
                    cloexec: false,
                },
            },
            Stage::Name => {
                return Action::Name { fd: state.master.unwrap() };
            },
            Stage::OpenSlave => {
                return Action::OpenSlave { flags: rw };
            },
            Stage::OpenProcess => Call::Open {
                place: Place::ThisProcess,
                flags: Flags {
                    access: Access::Handle,
                    create: false,
                    nonblock: false,
                    cloexec: true,
                },
            },
            Stage::OpenTable { process } => Call::Dup { fd: process, tag: Tag::Filetable },
            Stage::CloseProcess { process } => Call::Close { fd: process },
            Stage::Accept => Call::Dup { fd: state.listener.unwrap(), tag: Tag::Listen },
            Stage::AcceptPause => Call::Sleep { secs: 1, nanos: 0 },
            Stage::Accepted { .. } => {
                return Action::Report { notice: Notice::Accepted };
            },
            Stage::CopyTable { .. } => Call::Dup { fd: state.table.unwrap(), tag: Tag::Same },
            Stage::Refuse { sock } => Call::Close { fd: sock },
            Stage::Serve { sock, table } => {
                return Action::Serve {
                    sock,
                    table,
                    master: state.master.unwrap(),
                    slave: state.slave.unwrap(),
                };
            },
            Stage::Gone { .. } => {
                return Action::Report { notice: Notice::ConnectionClosed };
            },
            Stage::CloseSock { sock, .. } => Call::Close { fd: sock },
            Stage::CloseCopy { table } => Call::Close { fd: table },
            Stage::Failed { notice, .. } => {
                return Action::Report { notice };
            },
            Stage::CloseFailed { process } => Call::Close { fd: process },
            Stage::Exit => {
                return Action::Exit;
            },
        };
        Action::Call { call }
    }

    /// A try to take the port came to nothing.
    fn miss(&mut self)
        requires
            old(self).state.tries < BIND_TRIES,
        ensures
            final(self).state == old(self).state.missed(),
            final(self).name == old(self).name,
            final(self).name_len == old(self).name_len,
    {
        self.state.tries = self.state.tries + 1;
        self.state.stage = if self.state.tries >= BIND_TRIES {
            Stage::Failed { notice: Notice::BindFailed, left: None }
        } else {
            Stage::Pause
        };
    }

    /// The system call returned `answer`.
    pub fn answered(&mut self, answer: Result<usize, i32>)
        requires
            old(self).wf(),
            fits(old(self).state().asks(), Reply::Value(answer)),
        ensures
            final(self).wf(),
            final(self).state() == old(self).state().after(Reply::Value(answer)),
            final(self).name() == old(self).name(),
    {
        match (self.state.stage, answer) {
            (Stage::OpenDebug, Ok(fd)) => {
                self.state.debug = Some(fd);
                self.state.stage = Stage::OpenTcp;
            },
            (Stage::OpenDebug, Err(_)) => {
                self.state.stage = Stage::OpenTcp;
            },
            (Stage::OpenTcp, Ok(fd)) => {
                self.state.stage = Stage::Bind { fd };
            },
            (Stage::OpenTcp, Err(_)) => {
                self.state.stage = Stage::OpenTcpScheme;
            },
            (Stage::OpenTcpScheme, Ok(fd)) => {
                self.state.stage = Stage::Bind { fd };
            },
            (Stage::OpenTcpScheme, Err(_)) => {
                self.miss();
            },
            (Stage::Bind { fd }, Ok(listener)) => {
                self.state.listener = Some(listener);
                self.state.stage = Stage::CloseBound { fd };
            },
            (Stage::Bind { fd }, Err(_)) => {
                self.state.stage = Stage::CloseUnbound { fd };
            },
            (Stage::CloseBound { .. }, _) => {
                self.state.stage = Stage::Listening;
            },
            (Stage::CloseUnbound { .. }, _) => {
                self.miss();
            },
            (Stage::Pause, _) => {
                self.state.stage = Stage::OpenTcp;
            },
            (Stage::OpenPty, Ok(fd)) => {
                self.state.master = Some(fd);
                self.state.stage = Stage::Name;
            },
            (Stage::OpenPty, Err(_)) => {
                self.state.stage = Stage::CreatePty;
            },
            (Stage::CreatePty, Ok(fd)) => {
                self.state.master = Some(fd);
                self.state.stage = Stage::Name;
            },
            (Stage::CreatePty, Err(errno)) => {
                self.fail(Notice::NoPty { errno });
            },
            (Stage::OpenSlave, Ok(fd)) => {
                self.state.slave = Some(fd);
                self.state.stage = Stage::OpenProcess;
            },
            (Stage::OpenSlave, Err(errno)) => {
                self.fail(Notice::SlaveFailed { errno });
            },
            (Stage::OpenProcess, Ok(process)) => {
                self.state.stage = Stage::OpenTable { process };
            },
            (Stage::OpenProcess, Err(errno)) => {
                self.fail(Notice::ProcessFailed { errno });
            },
            (Stage::OpenTable { process }, Ok(fd)) => {
                self.state.table = Some(fd);
                self.state.stage = Stage::CloseProcess { process };
            },
            (Stage::OpenTable { process }, Err(errno)) => {
                self.state.stage = Stage::Failed {
                    notice: Notice::TableFailed { errno },
                    left: Some(process),
                };
            },
            (Stage::CloseProcess { .. }, _) => {
                self.state.stage = Stage::Accept;
            },
            (Stage::Accept, Ok(sock)) => {
                self.state.stage = Stage::Accepted { sock };
            },
            (Stage::Accept, Err(_)) => {
                self.state.stage = Stage::AcceptPause;
            },
            (Stage::AcceptPause, _) => {
                self.state.stage = Stage::Accept;
            },
            (Stage::CopyTable { sock }, Ok(table)) => {
                self.state.stage = Stage::Serve { sock, table };
            },
            (Stage::CopyTable { sock }, Err(_)) => {
                self.state.stage = Stage::Refuse { sock };
            },
            (Stage::Refuse { .. }, _) => {
                self.state.stage = Stage::Accept;
            },
            (Stage::CloseSock { table, .. }, _) => {
                self.state.stage = Stage::CloseCopy { table };
            },
            (Stage::CloseCopy { .. }, _) => {
                self.state.stage = Stage::Accept;
            },
            (Stage::CloseFailed { .. }, _) => {
                self.state.stage = Stage::Exit;
            },
            _ => {},
        }
    }

    fn fail(&mut self, notice: Notice)
        ensures
            final(self).state == old(self).state.failed(notice),
            final(self).name == old(self).name,
            final(self).name_len == old(self).name_len,
    {
        self.state.stage = Stage::Failed { notice, left: None };
    }

    /// The terminal's path was found out, or could not be.
    pub fn named(&mut self, path: Result<&[u8], i32>)
        requires
            old(self).wf(),
            old(self).state().asks() is Name,
            path matches Ok(path) ==> path@.len() <= NAME_SIZE,
        ensures
            final(self).wf(),
            match path {
                Ok(path) => {
                    &&& final(self).name() == path@
                    &&& final(self).state() == old(self).state().after(
                        Reply::Named(Ok(valid_utf8(path@))),
                    )
                },
                Err(e) => final(self).state() == old(self).state().after(Reply::Named(Err(e))),
            },
    {
        match path {
            Ok(path) => {
                let mut i: usize = 0;
                while i < path.len()
                    invariant
                        i <= path@.len() <= NAME_SIZE,
                        self.state == old(self).state,
                        self.name@.take(i as int) =~= path@.take(i as int),
                    decreases path@.len() - i,
                {
                    let ghost so_far = self.name@.take(i as int);
                    self.name[i] = path[i];
                    i = i + 1;
                    assert(self.name@.take(i as int) =~= so_far.push(path@[i - 1]));
                    assert(path@.take(i as int) =~= path@.take(i - 1).push(path@[i - 1]));
                }
                self.name_len = i;
                assert(path@.take(i as int) =~= path@);
                match core::str::from_utf8(path) {
                    Ok(_) => {
                        self.state.stage = Stage::OpenSlave;
                    },
                    Err(_) => {
                        self.fail(Notice::NameNotUtf8);
                    },
                }
            },
            Err(errno) => {
                self.fail(Notice::NameFailed { errno });
            },
        }
    }

    /// The path of the terminal's other end.
    pub fn slave_path(&self) -> (r: &str)
        requires
            self.wf(),
            self.state().asks() is OpenSlave,
        ensures
            encode_utf8(r@) == self.name(),
    {
        match core::str::from_utf8(slice_subrange(self.name.as_slice(), 0, self.name_len)) {
            Ok(path) => path,
            Err(_) => {
                assert(false);
                ""
            },
        }
    }

    /// What was to be reported or served is done.
    pub fn done(&mut self)
        requires
            old(self).wf(),
            fits(old(self).state().asks(), Reply::Done),
        ensures
            final(self).wf(),
            final(self).state() == old(self).state().after(Reply::Done),
            final(self).name() == old(self).name(),
    {
        match self.state.stage {
            Stage::Listening => {
                self.state.stage = Stage::OpenPty;
            },
            Stage::Accepted { sock } => {
                self.state.stage = Stage::CopyTable { sock };
            },
            Stage::Serve { sock, table } => {
                self.state.stage = Stage::Gone { sock, table };
            },
            Stage::Gone { sock, table } => {
                self.state.stage = Stage::CloseSock { sock, table };
            },
            Stage::Failed { left, .. } => {
                self.state.stage = match left {
                    Some(process) => Stage::CloseFailed { process },
                    None => Stage::Exit,
                };
            },
            _ => {},
        }
    }
}

impl State {
    /// The descriptors that are held for the time being.
    pub open spec fn passing(self) -> Multiset<usize> {
        match self.stage {
            Stage::Bind { fd } => Multiset::singleton(fd),
            Stage::CloseBound { fd } => Multiset::singleton(fd),
            Stage::CloseUnbound { fd } => Multiset::singleton(fd),
            Stage::OpenTable { process } => Multiset::singleton(process),
            Stage::CloseProcess { process } => Multiset::singleton(process),
            Stage::Accepted { sock } => Multiset::singleton(sock),
            Stage::CopyTable { sock } => Multiset::singleton(sock),
            Stage::Refuse { sock } => Multiset::singleton(sock),
            Stage::Serve { sock, table } => Multiset::singleton(sock).add(
                Multiset::singleton(table),
            ),
            Stage::Gone { sock, table } => Multiset::singleton(sock).add(
                Multiset::singleton(table),
            ),
            Stage::CloseSock { sock, table } => Multiset::singleton(sock).add(
                Multiset::singleton(table),
            ),
            Stage::CloseCopy { table } => Multiset::singleton(table),
            Stage::Failed { left, .. } => one(left),
            Stage::CloseFailed { process } => Multiset::singleton(process),
            _ => Multiset::empty(),
        }
    }

    /// The descriptors that are held for good.
    pub open spec fn lasting(self) -> Multiset<usize> {
        one(self.debug).add(one(self.listener)).add(one(self.master)).add(one(self.slave)).add(
            one(self.table),
        )
    }

    /// All descriptors that a series of actions opens.
    pub open spec fn opened(self, replies: Seq<Reply>) -> Multiset<usize>
        decreases replies.len(),
    {
        if replies.len() == 0 {
            Multiset::empty()
        } else {
            let front = replies.drop_last();
            self.opened(front).add(opens(self.after_all(front).asks(), replies.last()))
        }
    }

    /// All descriptors that a series of actions closes.
    pub open spec fn closed(self, replies: Seq<Reply>) -> Multiset<usize>
        decreases replies.len(),
    {
        if replies.len() == 0 {
            Multiset::empty()
        } else {
            let front = replies.drop_last();
            self.closed(front).add(closes(self.after_all(front).asks()))
        }
    }

    /// Whether a reply brings a try to take the port to nothing: the network
    /// stack could be opened by neither name, or the port was refused and the
    /// network stack is closed again.
    pub open spec fn is_miss(self, reply: Reply) -> bool {
        match self.stage {
            Stage::OpenTcpScheme => reply matches Reply::Value(Err(_)),
            Stage::CloseUnbound { .. } => true,
            _ => false,
        }
    }

    /// The number of tries to take the port that came to nothing.
    pub open spec fn misses(self, replies: Seq<Reply>) -> int
        decreases replies.len(),
    {
        if replies.len() == 0 {
            0
        } else {
            let front = replies.drop_last();
            self.misses(front) + if self.after_all(front).is_miss(replies.last()) {
                1int
            } else {
                0
            }
        }
    }

    /// The number of pauses between two tries to take the port.
    pub open spec fn pauses(self, replies: Seq<Reply>) -> int
        decreases replies.len(),
    {
        if replies.len() == 0 {
            0
        } else {
            let front = replies.drop_last();
            self.pauses(front) + if self.after_all(front).stage is Pause {
                1int
            } else {
                0
            }
        }
    }
}

/// The descriptors that the agent has more once an action is done.
pub open spec fn opens(action: Action, reply: Reply) -> Multiset<usize> {
    match (action, reply) {
        (Action::Call { call }, Reply::Value(answer)) => call_opens(call, answer),
        (Action::OpenSlave { .. }, Reply::Value(Ok(fd))) => Multiset::singleton(fd),
        _ => Multiset::empty(),
    }
}

/// The descriptors that the agent has no more once an action is done. Serving a
/// connection closes none.
pub open spec fn closes(action: Action) -> Multiset<usize> {
    match action {
        Action::Call { call } => call_closes(call),
        _ => Multiset::empty(),
    }
}

/// What holds of the server before a step holds behind it.
pub proof fn law_step_keeps_wf(s: State, reply: Reply)
    requires
        s.wf(),
        fits(s.asks(), reply),
    ensures
        s.after(reply).wf(),
{
}

/// No descriptor is lost or closed twice: what is held behind a step is what
/// was held before it, with what the step opened and without what it closed.
#[verifier::spinoff_prover]
#[verifier::rlimit(40)]
pub proof fn law_step_keeps_fds(s: State, reply: Reply)
    requires
        s.wf(),
        fits(s.asks(), reply),
    ensures
        s.after(reply).lasting().add(s.after(reply).passing()).add(closes(s.asks()))
            == s.lasting().add(s.passing()).add(opens(s.asks(), reply)),
{
    broadcast use vstd::multiset::group_multiset_axioms;

    let end = s.after(reply);
    let before = s.lasting().add(s.passing()).add(opens(s.asks(), reply));
    let behind = end.lasting().add(end.passing()).add(closes(s.asks()));
    assert forall|fd: usize| #[trigger] behind.count(fd) == before.count(fd) by {
        lemma_lasting_count(s, fd);
        lemma_lasting_count(end, fd);
    }
    assert(behind =~= before);
}

proof fn lemma_lasting_count(s: State, fd: usize)
    ensures
        s.lasting().count(fd) == one(s.debug).count(fd) + one(s.listener).count(fd) + one(
            s.master,
        ).count(fd) + one(s.slave).count(fd) + one(s.table).count(fd),
{
    broadcast use vstd::multiset::group_multiset_axioms;

}

/// However connections fare, all that was opened for them is closed again
/// whenever the next one is to be accepted.
pub proof fn law_connections_leave_nothing(s: State, replies: Seq<Reply>)
    requires
        s.wf(),
        s.stage is Accept,
        s.all_fit(replies),
        s.after_all(replies).stage is Accept,
    ensures
        s.opened(replies) == s.closed(replies),
{
    broadcast use vstd::multiset::group_multiset_axioms;

    lemma_serving(s, replies);
    lemma_fds_balance(s, replies);
    let end = s.after_all(replies);
    assert forall|fd: usize|
        #[trigger] s.opened(replies).count(fd) == s.closed(replies).count(fd) by {
        assert(end.lasting().add(end.passing()).add(s.closed(replies)).count(fd)
            == s.lasting().add(s.passing()).add(s.opened(replies)).count(fd));
    }
    assert(s.opened(replies) =~= s.closed(replies));
}

proof fn lemma_serving(s: State, replies: Seq<Reply>)
    requires
        s.wf(),
        is_serving(s.stage),
        s.all_fit(replies),
    ensures
        is_serving(s.after_all(replies).stage),
        s.after_all(replies).wf(),
        s.after_all(replies).lasting() == s.lasting(),
    decreases replies.len(),
{
    if replies.len() > 0 {
        let front = replies.drop_last();
        lemma_serving(s, front);
        lemma_serving_step(s.after_all(front), replies.last());
    }
}

proof fn lemma_serving_step(s: State, reply: Reply)
    requires
        s.wf(),
        is_serving(s.stage),
        fits(s.asks(), reply),
    ensures
        is_serving(s.after(reply).stage),
        s.after(reply).wf(),
        s.after(reply).lasting() == s.lasting(),
{
}

proof fn lemma_fds_balance(s: State, replies: Seq<Reply>)
    requires
        s.wf(),
        is_serving(s.stage),
        s.all_fit(replies),
    ensures
        ({
            let end = s.after_all(replies);
            end.lasting().add(end.passing()).add(s.closed(replies)) == s.lasting().add(
                s.passing(),
            ).add(s.opened(replies))
        }),
    decreases replies.len(),
{
    if replies.len() == 0 {
        assert(s.closed(replies) == s.opened(replies));
    } else {
        let front = replies.drop_last();
        let mid = s.after_all(front);
        let end = s.after_all(replies);
        lemma_serving(s, front);
        lemma_fds_balance(s, front);
        law_step_keeps_fds(mid, replies.last());
        lemma_balance_adds(
            s.lasting().add(s.passing()),
            s.opened(front),
            s.closed(front),
            mid.lasting().add(mid.passing()),
            opens(mid.asks(), replies.last()),
            closes(mid.asks()),
            end.lasting().add(end.passing()),
        );
    }
}

/// What two runs of actions open and close, one behind the other.
proof fn lemma_balance_adds(
    start: Multiset<usize>,
    opened1: Multiset<usize>,
    closed1: Multiset<usize>,
    mid: Multiset<usize>,
    opened2: Multiset<usize>,
    closed2: Multiset<usize>,
    end: Multiset<usize>,
)
    requires
        mid.add(closed1) == start.add(opened1),
        end.add(closed2) == mid.add(opened2),
    ensures
        end.add(closed1.add(closed2)) == start.add(opened1.add(opened2)),
{
    broadcast use vstd::multiset::group_multiset_axioms;

    let left = end.add(closed1.add(closed2));
    let right = start.add(opened1.add(opened2));
    assert forall|fd: usize| #[trigger] left.count(fd) == right.count(fd) by {
        assert(mid.count(fd) + closed1.count(fd) == mid.add(closed1).count(fd));
        assert(start.count(fd) + opened1.count(fd) == start.add(opened1).count(fd));
        assert(end.count(fd) + closed2.count(fd) == end.add(closed2).count(fd));
        assert(mid.count(fd) + opened2.count(fd) == mid.add(opened2).count(fd));
        assert(left.count(fd) == end.count(fd) + closed1.count(fd) + closed2.count(fd));
        assert(right.count(fd) == start.count(fd) + opened1.count(fd) + opened2.count(fd));
    }
    assert(left =~= right);
}

/// Once connections are accepted, nothing that happens ends the agent.
pub proof fn law_never_stops_serving(s: State, replies: Seq<Reply>)
    requires
        s.wf(),
        is_serving(s.stage),
        s.all_fit(replies),
    ensures
        is_serving(s.after_all(replies).stage),
        !(s.after_all(replies).asks() is Exit),
{
    lemma_serving(s, replies);
}

/// The agent gives the port up behind as many tries as it has, and lets a
/// second pass between any two of them.
pub proof fn law_port_is_given_up(replies: Seq<Reply>)
    requires
        State::fresh().all_fit(replies),
    ensures
        State::fresh().misses(replies) <= BIND_TRIES,
        State::fresh().after_all(replies).stage == (Stage::Failed {
            notice: Notice::BindFailed,
            left: None,
        }) ==> State::fresh().misses(replies) == BIND_TRIES && State::fresh().pauses(replies)
            == BIND_TRIES - 1,
        State::fresh().misses(replies) == BIND_TRIES ==> State::fresh().after_all(
            replies,
        ).listener is None,
{
    lemma_misses(replies);
}

proof fn lemma_misses(replies: Seq<Reply>)
    requires
        State::fresh().all_fit(replies),
    ensures
        ({
            let s = State::fresh();
            let end = s.after_all(replies);
            &&& end.wf()
            &&& end.tries == s.misses(replies)
            &&& end.tries <= BIND_TRIES
            &&& s.pauses(replies) == if end.stage is Pause || end.tries == BIND_TRIES {
                s.misses(replies) - 1
            } else {
                s.misses(replies)
            }
            &&& end.tries == BIND_TRIES ==> end.listener is None && (end.stage == (Stage::Failed {
                notice: Notice::BindFailed,
                left: None,
            }) || end.stage is Exit)
            &&& (end.stage matches Stage::Failed { notice, .. } && notice == Notice::BindFailed)
                ==> end.tries == BIND_TRIES
        }),
    decreases replies.len(),
{
    let s = State::fresh();
    if replies.len() > 0 {
        let front = replies.drop_last();
        lemma_misses(front);
        law_step_keeps_wf(s.after_all(front), replies.last());
    }
}

/// The agent ends only behind a report of why it cannot serve.
pub proof fn law_end_is_reported(s: State, reply: Reply)
    requires
        s.wf(),
        fits(s.asks(), reply),
        s.after(reply).stage is Exit || s.after(reply).stage is CloseFailed,
    ensures
        s.stage is Failed || s.stage is CloseFailed,
        s.stage is Failed ==> s.asks() is Report,
{
}

/// A try to take the port opens the network stack by its older name, then by
/// the other one, asks for the port on what could be opened, and closes that
/// again either way. Two tries lie a second apart.
pub proof fn law_try_for_port(s: State, fd: usize, listener: usize, e: i32, any: Reply)
    requires
        s.wf(),
        s.stage is OpenTcp,
        any is Value,
    ensures
        ({
            let rw = Flags {
                access: Access::ReadWrite,
                create: false,
                nonblock: false,
                cloexec: false,
            };
            let second = s.after(Reply::Value(Err(e)));
            let opened = s.after(Reply::Value(Ok(fd)));
            let bound = opened.after(Reply::Value(Ok(listener)));
            let refused = opened.after(Reply::Value(Err(e)));
            let missed = refused.after(any);
            &&& s.asks() == (Action::Call { call: Call::Open { place: Place::Tcp, flags: rw } })
            &&& second.asks() == (Action::Call {
                call: Call::Open { place: Place::TcpScheme, flags: rw },
            })
            &&& second.after(Reply::Value(Ok(fd))) == opened
            &&& second.after(Reply::Value(Err(e))) == missed
            &&& opened.asks() == (Action::Call { call: Call::Dup { fd, tag: Tag::Bind } })
            &&& bound.asks() == (Action::Call { call: Call::Close { fd } })
            &&& bound.after(any) == (State {
                listener: Some(listener),
                stage: Stage::Listening,
                ..s
            })
            &&& bound.after(any).asks() == (Action::Report { notice: Notice::Listening })
            &&& refused.asks() == (Action::Call { call: Call::Close { fd } })
            &&& missed.tries == s.tries + 1
            &&& missed.listener is None
            &&& s.tries + 1 < 120 ==> {
                &&& missed.asks() == (Action::Call { call: Call::Sleep { secs: 1, nanos: 0 } })
                &&& missed.after(any) == (State { tries: missed.tries, ..s })
            }
            &&& s.tries + 1 >= 120 ==> {
                &&& missed.asks() == (Action::Report { notice: Notice::BindFailed })
                &&& missed.after(Reply::Done).asks() == Action::Exit
            }
        }),
{
}

/// The agent begins with its console, and goes on without one as well.
pub proof fn law_console_is_optional(fd: usize, e: i32)
    ensures
        State::fresh().asks() == (Action::Call {
            call: Call::Open {
                place: Place::Debug,
                flags: Flags {
                    access: Access::ReadWrite,
                    create: false,
                    nonblock: false,
                    cloexec: false,
                },
            },
        }),
        State::fresh().debug is None,
        State::fresh().tries == 0,
        State::fresh().after(Reply::Value(Err(e))) == (State {
            stage: Stage::OpenTcp,
            ..State::fresh()
        }),
        State::fresh().after(Reply::Value(Ok(fd))) == (State {
            debug: Some(fd),
            stage: Stage::OpenTcp,
            ..State::fresh()
        }),
{
}

/// Once the port is taken, a terminal is opened, or made where there is none;
/// its path leads to its other end; and the agent's own file table comes last.
/// Then connections are accepted on the port.
pub proof fn law_set_up(
    s: State,
    master: usize,
    slave: usize,
    process: usize,
    table: usize,
    e: i32,
    any: Reply,
)
    requires
        s.wf(),
        s.stage is Listening,
        any is Value,
    ensures
        ({
            let rw = Flags {
                access: Access::ReadWrite,
                create: false,
                nonblock: false,
                cloexec: false,
            };
            let pty = s.after(Reply::Done);
            let other = pty.after(Reply::Value(Err(e)));
            let found = pty.after(Reply::Value(Ok(master)));
            let named = found.after(Reply::Named(Ok(true)));
            let opened = named.after(Reply::Value(Ok(slave)));
            let own = opened.after(Reply::Value(Ok(process)));
            let held = own.after(Reply::Value(Ok(table)));
            let ready = held.after(any);
            &&& pty.asks() == (Action::Call {
                call: Call::Open { place: Place::Pty, flags: Flags { nonblock: true, ..rw } },
            })
            &&& other.asks() == (Action::Call {
                call: Call::Open {
                    place: Place::Pty,
                    flags: Flags { nonblock: true, create: true, ..rw },
                },
            })
            &&& other.after(Reply::Value(Ok(master))) == found
            &&& found.asks() == (Action::Name { fd: master })
            &&& named.asks() == (Action::OpenSlave { flags: rw })
            &&& opened.asks() == (Action::Call {
                call: Call::Open {
                    place: Place::ThisProcess,
                    flags: Flags {
                        access: Access::Handle,
                        create: false,
                        nonblock: false,
                        cloexec: true,
                    },
                },
            })
            &&& own.asks() == (Action::Call {
                call: Call::Dup { fd: process, tag: Tag::Filetable },
            })
            &&& held.asks() == (Action::Call { call: Call::Close { fd: process } })
            &&& ready == (State {
                master: Some(master),
                slave: Some(slave),
                table: Some(table),
                stage: Stage::Accept,
                ..s
            })
        }),
{
}

/// Where the terminal or the file table cannot be had, the agent reports that,
/// with the error that it got, closes its own process if it has opened it, and
/// ends.
pub proof fn law_set_up_fails(s: State, e: i32, any: Reply)
    requires
        s.wf(),
        any is Value,
    ensures
        ({
            let failed = s.after(Reply::Value(Err(e)));
            let end = failed.after(Reply::Done);
            &&& s.stage is CreatePty ==> failed.asks() == (Action::Report {
                notice: Notice::NoPty { errno: e },
            }) && end.asks() == Action::Exit
            &&& s.stage is OpenSlave ==> failed.asks() == (Action::Report {
                notice: Notice::SlaveFailed { errno: e },
            }) && end.asks() == Action::Exit
            &&& s.stage is OpenProcess ==> failed.asks() == (Action::Report {
                notice: Notice::ProcessFailed { errno: e },
            }) && end.asks() == Action::Exit
            &&& s.stage matches Stage::OpenTable { process } ==> {
                &&& failed.asks() == (Action::Report { notice: Notice::TableFailed { errno: e } })
                &&& end.asks() == (Action::Call { call: Call::Close { fd: process } })
                &&& end.after(any).asks() == Action::Exit
            }
        }),
        s.stage is Name ==> {
            let failed = s.after(Reply::Named(Err(e)));
            let garbled = s.after(Reply::Named(Ok(false)));
            &&& failed.asks() == (Action::Report { notice: Notice::NameFailed { errno: e } })
            &&& failed.after(Reply::Done).asks() == Action::Exit
            &&& garbled.asks() == (Action::Report { notice: Notice::NameNotUtf8 })
            &&& garbled.after(Reply::Done).asks() == Action::Exit
        },
{
}

/// A connection that comes in on the port is reported, gets a handle of the
/// agent's file table, is served on the agent's terminal, and is closed. The
/// agent is then where it was before. One that gets no handle is closed
/// unserved, and where none comes in the agent waits a second.
pub proof fn law_connection(s: State, sock: usize, copy: usize, e: i32, any: Reply)
    requires
        s.wf(),
        s.stage is Accept,
        any is Value,
    ensures
        ({
            let pause = s.after(Reply::Value(Err(e)));
            let accepted = s.after(Reply::Value(Ok(sock)));
            let asked = accepted.after(Reply::Done);
            let refused = asked.after(Reply::Value(Err(e)));
            let served = asked.after(Reply::Value(Ok(copy)));
            let gone = served.after(Reply::Done);
            let closing = gone.after(Reply::Done);
            &&& s.asks() == (Action::Call {
                call: Call::Dup { fd: s.listener->0, tag: Tag::Listen },
            })
            &&& pause.asks() == (Action::Call { call: Call::Sleep { secs: 1, nanos: 0 } })
            &&& pause.after(any) == s
            &&& accepted.asks() == (Action::Report { notice: Notice::Accepted })
            &&& asked.asks() == (Action::Call {
                call: Call::Dup { fd: s.table->0, tag: Tag::Same },
            })
            &&& refused.asks() == (Action::Call { call: Call::Close { fd: sock } })
            &&& refused.after(any) == s
            &&& served.asks() == (Action::Serve {
                sock,
                table: copy,
                master: s.master->0,
                slave: s.slave->0,
            })
            &&& gone.asks() == (Action::Report { notice: Notice::ConnectionClosed })
            &&& closing.asks() == (Action::Call { call: Call::Close { fd: sock } })
            &&& closing.after(any).asks() == (Action::Call { call: Call::Close { fd: copy } })
            &&& closing.after(any).after(any) == s
        }),
{
}

} // verus!
