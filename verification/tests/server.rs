use anyvmd::kernel::{Access, Call, Flags, Place, Tag};
use anyvmd::server::{Action, Notice, Server};

const RW: Flags = Flags { access: Access::ReadWrite, create: false, nonblock: false, cloexec: false };
const PTY: Flags = Flags { access: Access::ReadWrite, create: false, nonblock: true, cloexec: false };
const NEW_PTY: Flags =
    Flags { access: Access::ReadWrite, create: true, nonblock: true, cloexec: false };
const PROC: Flags = Flags { access: Access::Handle, create: false, nonblock: false, cloexec: true };

fn open(place: Place, flags: Flags) -> Call {
    Call::Open { place, flags }
}

fn expect(s: &mut Server, call: Call, answer: Result<usize, i32>) {
    assert_eq!(s.action(), Action::Call { call });
    s.answered(answer);
}

fn report(s: &mut Server, notice: Notice) {
    assert_eq!(s.action(), Action::Report { notice });
    s.done();
}

const SECOND: Call = Call::Sleep { secs: 1, nanos: 0 };

fn listening() -> Server {
    let mut s = Server::new();
    expect(&mut s, open(Place::Debug, RW), Ok(3));
    assert_eq!(s.debug(), Some(3));
    expect(&mut s, open(Place::Tcp, RW), Ok(4));
    expect(&mut s, Call::Dup { fd: 4, tag: Tag::Bind }, Ok(5));
    expect(&mut s, Call::Close { fd: 4 }, Ok(0));
    report(&mut s, Notice::Listening);
    s
}

fn with_pty() -> Server {
    let mut s = listening();
    expect(&mut s, open(Place::Pty, PTY), Ok(6));
    assert_eq!(s.action(), Action::Name { fd: 6 });
    s
}

fn with_slave() -> Server {
    let mut s = with_pty();
    s.named(Ok(b"/scheme/pty/18"));
    assert_eq!(s.action(), Action::OpenSlave { flags: RW });
    assert_eq!(s.slave_path(), "/scheme/pty/18");
    s.answered(Ok(7));
    s
}

fn accepting() -> Server {
    let mut s = with_slave();
    expect(&mut s, open(Place::ThisProcess, PROC), Ok(8));
    expect(&mut s, Call::Dup { fd: 8, tag: Tag::Filetable }, Ok(9));
    expect(&mut s, Call::Close { fd: 8 }, Ok(0));
    s
}

const ACCEPT: Call = Call::Dup { fd: 5, tag: Tag::Listen };

#[test]
fn paths_and_tags() {
    assert_eq!(Place::Debug.path(), "/scheme/debug");
    assert_eq!(Place::Tcp.path(), "tcp:");
    assert_eq!(Place::TcpScheme.path(), "/scheme/tcp");
    assert_eq!(Place::Pty.path(), "/scheme/pty");
    assert_eq!(Place::ThisProcess.path(), "/scheme/thisproc/current/open_via_dup");
    assert_eq!(Place::Memory.path(), "/scheme/memory");
    assert_eq!(Tag::Same.bytes(), b"");
    assert_eq!(Tag::Bind.bytes(), b"/0.0.0.0:23");
    assert_eq!(Tag::Listen.bytes(), b"listen");
    assert_eq!(Tag::Filetable.bytes(), b"filetable");
    assert_eq!(Tag::Copy.bytes(), b"copy");
    assert_eq!(Tag::OpenViaDup.bytes(), b"open_via_dup");
    assert_eq!(Tag::CurrentFiletable.bytes(), b"current-filetable");
    assert_eq!(Tag::Start.bytes(), b"start");
}

#[test]
fn connections_are_served_one_behind_the_other() {
    let mut s = accepting();
    for sock in [20, 30] {
        expect(&mut s, ACCEPT, Ok(sock));
        report(&mut s, Notice::Accepted);
        expect(&mut s, Call::Dup { fd: 9, tag: Tag::Same }, Ok(sock + 1));
        assert_eq!(s.action(), Action::Serve { sock, table: sock + 1, master: 6, slave: 7 });
        s.done();
        report(&mut s, Notice::ConnectionClosed);
        expect(&mut s, Call::Close { fd: sock }, Ok(0));
        expect(&mut s, Call::Close { fd: sock + 1 }, Ok(0));
    }
}

#[test]
fn a_failed_accept_is_tried_again_in_a_second() {
    let mut s = accepting();
    expect(&mut s, ACCEPT, Err(11));
    expect(&mut s, SECOND, Ok(0));
    expect(&mut s, ACCEPT, Ok(20));
}

#[test]
fn a_connection_without_a_table_is_closed() {
    let mut s = accepting();
    expect(&mut s, ACCEPT, Ok(20));
    report(&mut s, Notice::Accepted);
    expect(&mut s, Call::Dup { fd: 9, tag: Tag::Same }, Err(24));
    expect(&mut s, Call::Close { fd: 20 }, Ok(0));
    expect(&mut s, ACCEPT, Ok(21));
}

#[test]
fn no_console_is_no_failure() {
    let mut s = Server::new();
    expect(&mut s, open(Place::Debug, RW), Err(2));
    assert_eq!(s.debug(), None);
    expect(&mut s, open(Place::Tcp, RW), Err(2));
    expect(&mut s, open(Place::TcpScheme, RW), Ok(4));
    expect(&mut s, Call::Dup { fd: 4, tag: Tag::Bind }, Ok(5));
}

#[test]
fn the_port_is_given_up_after_all_tries() {
    let mut s = Server::new();
    expect(&mut s, open(Place::Debug, RW), Ok(3));
    for i in 0..120 {
        if i % 2 == 0 {
            expect(&mut s, open(Place::Tcp, RW), Ok(4));
            expect(&mut s, Call::Dup { fd: 4, tag: Tag::Bind }, Err(98));
            expect(&mut s, Call::Close { fd: 4 }, Ok(0));
        } else {
            expect(&mut s, open(Place::Tcp, RW), Err(2));
            expect(&mut s, open(Place::TcpScheme, RW), Err(2));
        }
        if i < 119 {
            expect(&mut s, SECOND, Ok(0));
        }
    }
    report(&mut s, Notice::BindFailed);
    assert_eq!(s.action(), Action::Exit);
}

#[test]
fn the_port_may_come_late() {
    let mut s = Server::new();
    expect(&mut s, open(Place::Debug, RW), Ok(3));
    expect(&mut s, open(Place::Tcp, RW), Err(2));
    expect(&mut s, open(Place::TcpScheme, RW), Err(2));
    expect(&mut s, SECOND, Err(4));
    expect(&mut s, open(Place::Tcp, RW), Ok(4));
    expect(&mut s, Call::Dup { fd: 4, tag: Tag::Bind }, Ok(5));
    expect(&mut s, Call::Close { fd: 4 }, Err(9));
    report(&mut s, Notice::Listening);
}

#[test]
fn a_terminal_may_have_to_be_made() {
    let mut s = listening();
    expect(&mut s, open(Place::Pty, PTY), Err(2));
    expect(&mut s, open(Place::Pty, NEW_PTY), Ok(6));
    assert_eq!(s.action(), Action::Name { fd: 6 });
}

#[test]
fn no_terminal_ends_the_agent() {
    let mut s = listening();
    expect(&mut s, open(Place::Pty, PTY), Err(2));
    expect(&mut s, open(Place::Pty, NEW_PTY), Err(19));
    report(&mut s, Notice::NoPty { errno: 19 });
    assert_eq!(s.action(), Action::Exit);
}

#[test]
fn a_terminal_without_a_path_ends_the_agent() {
    let mut s = with_pty();
    s.named(Err(9));
    report(&mut s, Notice::NameFailed { errno: 9 });
    assert_eq!(s.action(), Action::Exit);
}

#[test]
fn a_path_that_is_no_text_ends_the_agent() {
    for path in [&b"/scheme/pty/\xff"[..], b"\xc3", b"\xed\xa0\x80", b"\xc0\x80"] {
        let mut s = with_pty();
        s.named(Ok(path));
        report(&mut s, Notice::NameNotUtf8);
        assert_eq!(s.action(), Action::Exit);
    }
}

#[test]
fn a_path_may_hold_any_text() {
    let mut s = with_pty();
    s.named(Ok("/scheme/pt\u{e9}/\u{1f600}".as_bytes()));
    assert_eq!(s.slave_path(), "/scheme/pt\u{e9}/\u{1f600}");
}

#[test]
fn a_terminal_that_cannot_be_opened_ends_the_agent() {
    let mut s = with_pty();
    s.named(Ok(b"/scheme/pty/18"));
    s.answered(Err(13));
    report(&mut s, Notice::SlaveFailed { errno: 13 });
    assert_eq!(s.action(), Action::Exit);
}

#[test]
fn a_process_that_cannot_be_opened_ends_the_agent() {
    let mut s = with_slave();
    expect(&mut s, open(Place::ThisProcess, PROC), Err(2));
    report(&mut s, Notice::ProcessFailed { errno: 2 });
    assert_eq!(s.action(), Action::Exit);
}

#[test]
fn a_table_that_cannot_be_opened_ends_the_agent() {
    let mut s = with_slave();
    expect(&mut s, open(Place::ThisProcess, PROC), Ok(8));
    expect(&mut s, Call::Dup { fd: 8, tag: Tag::Filetable }, Err(22));
    report(&mut s, Notice::TableFailed { errno: 22 });
    expect(&mut s, Call::Close { fd: 8 }, Ok(0));
    assert_eq!(s.action(), Action::Exit);
}
