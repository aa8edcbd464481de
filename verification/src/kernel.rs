//! What the agent asks of the kernel, as values.
//!
//! A file descriptor is the number that the kernel gave, and an answer is the
//! number or the error that a system call returned.

use crate::text::{ascii, text};
use vstd::multiset::Multiset;
use vstd::prelude::*;

verus! {

/// A file with a fixed path.
#[derive(Clone, Copy, Debug, PartialEq, Eq, Structural)]
pub enum Place {
    /// The console for diagnostics.
    Debug,
    /// The network stack, by its older name.
    Tcp,
    /// The network stack.
    TcpScheme,
    /// A new pseudo terminal.
    Pty,
    /// The agent's own process.
    ThisProcess,
    /// Memory to map.
    Memory,
}

impl Place {
    /// The path, as a text.
    pub open spec fn path_text(self) -> Seq<char> {
        match self {
            Place::Debug => "/scheme/debug"@,
            Place::Tcp => "tcp:"@,
            Place::TcpScheme => "/scheme/tcp"@,
            Place::Pty => "/scheme/pty"@,
            Place::ThisProcess => "/scheme/thisproc/current/open_via_dup"@,
            Place::Memory => "/scheme/memory"@,
        }
    }

    /// The path.
    pub fn path(self) -> (r: &'static str)
        ensures
            r@ == self.path_text(),
    {
        match self {
            Place::Debug => "/scheme/debug",
            Place::Tcp => "tcp:",
            Place::TcpScheme => "/scheme/tcp",
            Place::Pty => "/scheme/pty",
            Place::ThisProcess => "/scheme/thisproc/current/open_via_dup",
            Place::Memory => "/scheme/memory",
        }
    }
}

/// What a descriptor is duplicated for, told to the scheme behind it.
#[derive(Clone, Copy, Debug, PartialEq, Eq, Structural)]
pub enum Tag {
    /// The same file once more.
    Same,
    /// The telnet port on every address. The leading slash asks to bind.
    Bind,
    /// The next connection.
    Listen,
    /// The file table of a process.
    Filetable,
    /// A copy of a file table.
    Copy,
    /// A handle of the same process.
    OpenViaDup,
    /// The file table that a process is to use.
    CurrentFiletable,
    /// What lets a process begin.
    Start,
}

impl Tag {
    /// The bytes, as a text.
    pub open spec fn bytes_text(self) -> Seq<char> {
        match self {
            Tag::Same => ""@,
            Tag::Bind => "/0.0.0.0:23"@,
            Tag::Listen => "listen"@,
            Tag::Filetable => "filetable"@,
            Tag::Copy => "copy"@,
            Tag::OpenViaDup => "open_via_dup"@,
            Tag::CurrentFiletable => "current-filetable"@,
            Tag::Start => "start"@,
        }
    }

    /// The bytes.
    pub fn bytes(self) -> (r: &'static [u8])
        ensures
            r@ == ascii(self.bytes_text()),
    {
        proof {
            reveal_strlit("");
            reveal_strlit("/0.0.0.0:23");
            reveal_strlit("listen");
            reveal_strlit("filetable");
            reveal_strlit("copy");
            reveal_strlit("open_via_dup");
            reveal_strlit("current-filetable");
            reveal_strlit("start");
        }
        match self {
            Tag::Same => text(""),
            Tag::Bind => text("/0.0.0.0:23"),
            Tag::Listen => text("listen"),
            Tag::Filetable => text("filetable"),
            Tag::Copy => text("copy"),
            Tag::OpenViaDup => text("open_via_dup"),
            Tag::CurrentFiletable => text("current-filetable"),
            Tag::Start => text("start"),
        }
    }
}

/// How a file may be used.
#[derive(Clone, Copy, Debug, PartialEq, Eq, Structural)]
pub enum Access {
    /// As a handle only.
    Handle,
    /// For reading.
    Read,
    /// For reading and writing.
    ReadWrite,
}

/// How a file is opened.
#[derive(Clone, Copy, Debug, PartialEq, Eq, Structural)]
pub struct Flags {
    /// How it may be used.
    pub access: Access,
    /// Whether it is made if it is not there.
    pub create: bool,
    /// Whether reading gives an error where it would have to wait.
    pub nonblock: bool,
    /// Whether a program that is started does not get it.
    pub cloexec: bool,
}

impl Flags {
    /// The flags for some access and nothing else.
    pub open spec fn only(access: Access) -> Flags {
        Flags { access, create: false, nonblock: false, cloexec: false }
    }
}

/// A system call that several parts of the agent make.
#[derive(Clone, Copy, Debug, PartialEq, Eq, Structural)]
pub enum Call {
    /// Open a file.
    Open {
        /// Which one.
        place: Place,
        /// How.
        flags: Flags,
    },
    /// Duplicate a descriptor.
    Dup {
        /// Which one.
        fd: usize,
        /// What for.
        tag: Tag,
    },
    /// Duplicate a descriptor under a number of its own.
    Dup2 {
        /// Which one.
        fd: usize,
        /// That number.
        target: usize,
    },
    /// Close a descriptor.
    Close {
        /// Which one.
        fd: usize,
    },
    /// Sleep.
    Sleep {
        /// The seconds.
        secs: i64,
        /// The nanoseconds beside them.
        nanos: i32,
    },
}

/// The descriptors that the agent has more once a call has been answered.
/// The standard descriptors that `Dup2` replaces are always there.
pub open spec fn call_opens(call: Call, answer: Result<usize, i32>) -> Multiset<usize> {
    match (call, answer) {
        (Call::Open { .. }, Ok(fd)) => Multiset::singleton(fd),
        (Call::Dup { .. }, Ok(fd)) => Multiset::singleton(fd),
        _ => Multiset::empty(),
    }
}

/// The descriptors that the agent has no more once a call has been answered.
pub open spec fn call_closes(call: Call) -> Multiset<usize> {
    match call {
        Call::Close { fd } => Multiset::singleton(fd),
        _ => Multiset::empty(),
    }
}

} // verus!
