use anyvmd::kernel::{Access, Call, Flags, Place, Tag};
use anyvmd::launch::Launch;
use anyvmd::spawn::{Action, Ctx, Reply, Spawn, NEVER_EXITED, PAUSE_NANOS, TURNS};

const HANDLE: Flags =
    Flags { access: Access::Handle, create: false, nonblock: false, cloexec: false };
const IMAGE: Flags = Flags { access: Access::Read, create: false, nonblock: false, cloexec: true };

fn call(call: Call) -> Action {
    Action::Call { call }
}

fn close(fd: usize) -> Action {
    call(Call::Close { fd })
}

fn ok(fd: usize) -> Reply {
    Reply::Value(Ok(fd))
}

fn expect(s: &mut Spawn, action: Action, reply: Reply) {
    assert_eq!(s.action(), action);
    s.step(reply);
}

fn redirected(pump: Option<usize>) -> Spawn {
    let mut s = Spawn::new(1, 2, pump);
    expect(&mut s, call(Call::Dup2 { fd: 2, target: 0 }), ok(0));
    expect(&mut s, call(Call::Dup2 { fd: 2, target: 1 }), Reply::Value(Err(9)));
    expect(&mut s, call(Call::Dup2 { fd: 2, target: 2 }), ok(2));
    s
}

fn ready_to_load(pump: Option<usize>) -> Spawn {
    let mut s = redirected(pump);
    expect(&mut s, call(Call::Dup { fd: 1, tag: Tag::Copy }), ok(10));
    expect(&mut s, Action::NewChild, Reply::Child(Ok((11, 77))));
    expect(&mut s, call(Call::Dup { fd: 11, tag: Tag::OpenViaDup }), ok(12));
    expect(&mut s, call(Call::Open { place: Place::Memory, flags: HANDLE }), ok(13));
    expect(&mut s, Action::OpenImage { flags: IMAGE }, ok(14));
    s
}

fn load() -> Action {
    Action::Load { image: 14, loader: 12, memory: 13 }
}

fn running(pump: Option<usize>) -> Spawn {
    let mut s = ready_to_load(pump);
    expect(&mut s, load(), Reply::Loaded(Ok(Some(15))));
    expect(&mut s, close(15), ok(0));
    expect(&mut s, call(Call::Dup { fd: 11, tag: Tag::CurrentFiletable }), ok(16));
    expect(&mut s, Action::WriteTable { fd: 16, table: 10 }, ok(8));
    expect(&mut s, close(16), ok(0));
    expect(&mut s, close(10), ok(0));
    expect(&mut s, call(Call::Dup { fd: 11, tag: Tag::Start }), ok(17));
    expect(&mut s, Action::WriteZero { fd: 17 }, ok(1));
    expect(&mut s, close(17), ok(0));
    s
}

fn finish(s: &mut Spawn, result: Result<usize, i32>) {
    assert_eq!(s.action(), Action::Finish { result });
}

#[test]
fn a_child_on_the_socket() {
    let mut s = running(None);
    expect(&mut s, Action::Wait { pid: 77 }, Reply::Waited(Ok((0, 0))));
    expect(&mut s, call(Call::Sleep { secs: 0, nanos: PAUSE_NANOS }), ok(0));
    expect(&mut s, Action::Wait { pid: 77 }, Reply::Waited(Ok((77, 256))));
    expect(&mut s, close(13), ok(0));
    expect(&mut s, close(11), ok(0));
    finish(&mut s, Ok(256));
}

#[test]
fn output_is_sent_on_at_every_turn_and_at_the_end() {
    let mut s = running(Some(5));
    expect(&mut s, Action::Read { fd: 5 }, ok(100));
    expect(&mut s, Action::Forward { n: 100 }, Reply::Done);
    expect(&mut s, Action::Read { fd: 5 }, Reply::Value(Err(11)));
    expect(&mut s, Action::Wait { pid: 77 }, Reply::Waited(Ok((0, 0))));
    expect(&mut s, call(Call::Sleep { secs: 0, nanos: PAUSE_NANOS }), ok(0));
    expect(&mut s, Action::Read { fd: 5 }, ok(0));
    expect(&mut s, Action::Wait { pid: 77 }, Reply::Waited(Ok((77, 0))));
    expect(&mut s, Action::Read { fd: 5 }, ok(7));
    expect(&mut s, Action::Forward { n: 7 }, Reply::Done);
    expect(&mut s, Action::Read { fd: 5 }, Reply::Value(Err(11)));
    expect(&mut s, close(13), ok(0));
    expect(&mut s, close(11), ok(0));
    finish(&mut s, Ok(0));
}

#[test]
fn a_child_that_does_not_exit_is_given_up() {
    let mut s = running(None);
    for _ in 0..TURNS {
        expect(&mut s, Action::Wait { pid: 77 }, Reply::Waited(Ok((0, 0))));
        expect(&mut s, call(Call::Sleep { secs: 0, nanos: 250_000_000 }), ok(0));
    }
    expect(&mut s, close(13), ok(0));
    expect(&mut s, close(11), ok(0));
    finish(&mut s, Ok(NEVER_EXITED));
}

#[test]
fn a_poll_that_fails_gives_the_child_up() {
    let mut s = running(Some(5));
    expect(&mut s, Action::Read { fd: 5 }, ok(0));
    expect(&mut s, Action::Wait { pid: 77 }, Reply::Waited(Err(10)));
    expect(&mut s, close(13), ok(0));
    expect(&mut s, close(11), ok(0));
    finish(&mut s, Ok(usize::MAX));
}

#[test]
fn a_program_with_an_interpreter_is_reported() {
    let mut s = ready_to_load(None);
    expect(&mut s, load(), Reply::Loaded(Ok(None)));
    expect(&mut s, Action::Report, Reply::Done);
    expect(&mut s, close(13), ok(0));
    expect(&mut s, close(11), ok(0));
    expect(&mut s, close(10), ok(0));
    finish(&mut s, Ok(NEVER_EXITED));
}

#[test]
fn a_program_that_cannot_be_loaded() {
    let mut s = ready_to_load(None);
    expect(&mut s, load(), Reply::Loaded(Err(8)));
    expect(&mut s, close(13), ok(0));
    expect(&mut s, close(11), ok(0));
    expect(&mut s, close(10), ok(0));
    finish(&mut s, Err(8));
}

#[test]
fn a_failed_step_closes_the_latest_first() {
    let mut s = redirected(None);
    s.step(ok(10));
    s.step(Reply::Child(Ok((11, 77))));
    s.step(ok(12));
    s.step(ok(13));
    expect(&mut s, Action::OpenImage { flags: IMAGE }, Reply::Value(Err(2)));
    expect(&mut s, close(13), ok(0));
    expect(&mut s, close(12), Reply::Value(Err(9)));
    expect(&mut s, close(11), ok(0));
    expect(&mut s, close(10), ok(0));
    finish(&mut s, Err(2));
}

#[test]
fn a_table_that_cannot_be_copied() {
    let mut s = redirected(None);
    s.step(Reply::Value(Err(24)));
    finish(&mut s, Err(24));
}

#[test]
fn a_table_that_cannot_be_installed() {
    let mut s = ready_to_load(None);
    s.step(Reply::Loaded(Ok(Some(15))));
    s.step(ok(0));
    s.step(ok(16));
    expect(&mut s, Action::WriteTable { fd: 16, table: 10 }, Reply::Value(Err(22)));
    for fd in [16, 13, 11, 10] {
        expect(&mut s, close(fd), ok(0));
    }
    finish(&mut s, Err(22));
}

#[test]
fn a_child_that_cannot_begin() {
    let mut s = ready_to_load(None);
    s.step(Reply::Loaded(Ok(Some(15))));
    for reply in [ok(0), ok(16), ok(8), ok(0), ok(0), ok(17)] {
        s.step(reply);
    }
    expect(&mut s, Action::WriteZero { fd: 17 }, Reply::Value(Err(3)));
    for fd in [17, 13, 11] {
        expect(&mut s, close(fd), ok(0));
    }
    finish(&mut s, Err(3));
}

#[test]
fn every_failure_ends_with_everything_closed() {
    let good = [
        ok(0),
        ok(0),
        ok(0),
        ok(10),
        Reply::Child(Ok((11, 77))),
        ok(12),
        ok(13),
        ok(14),
        Reply::Loaded(Ok(Some(15))),
        ok(0),
        ok(16),
        ok(8),
        ok(0),
        ok(0),
        ok(17),
        ok(1),
        ok(0),
        Reply::Waited(Ok((77, 0))),
    ];
    for bad in 0..good.len() {
        let mut s = Spawn::new(1, 2, None);
        let mut open: Vec<usize> = Vec::new();
        let mut i = 0;
        loop {
            let action = s.action();
            if let Action::Finish { .. } = action {
                break;
            }
            let reply = if i < bad && i < good.len() {
                good[i]
            } else {
                match action {
                    Action::NewChild => Reply::Child(Err(1)),
                    Action::Load { .. } => Reply::Loaded(Err(1)),
                    Action::Wait { .. } => Reply::Waited(Err(1)),
                    _ => Reply::Value(Err(1)),
                }
            };
            match (action, reply) {
                (Action::Call { call: Call::Close { fd } }, _) => {
                    let at = open.iter().position(|x| *x == fd);
                    open.remove(at.unwrap());
                }
                (Action::Call { call: Call::Open { .. } }, Reply::Value(Ok(fd)))
                | (Action::Call { call: Call::Dup { .. } }, Reply::Value(Ok(fd)))
                | (Action::OpenImage { .. }, Reply::Value(Ok(fd)))
                | (Action::NewChild, Reply::Child(Ok((fd, _)))) => open.push(fd),
                (Action::Load { .. }, Reply::Loaded(r)) => {
                    open.retain(|fd| *fd != 14 && *fd != 12);
                    if let Ok(Some(fd)) = r {
                        open.push(fd);
                    }
                }
                _ => {}
            }
            s.step(reply);
            i += 1;
        }
        assert_eq!(open, Vec::<usize>::new());
    }
}

#[test]
fn programs_get_the_terminal_or_the_socket() {
    let ctx = Ctx { cur_table: 1, pty_master: 5, pty_slave: 6, sock: 7 };
    let s = Spawn::for_launch(&ctx, &Launch::shell(b"ls"));
    assert_eq!((s.cur_table, s.stdio, s.pump), (1, 6, Some(5)));
    let s = Spawn::for_launch(&ctx, &Launch::extract(b"/work"));
    assert_eq!((s.cur_table, s.stdio, s.pump), (1, 7, None));
    let s = Spawn::for_launch(&ctx, &Launch::create(b"/work"));
    assert_eq!((s.cur_table, s.stdio, s.pump), (1, 7, None));
}
