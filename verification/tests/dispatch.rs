use anyvmd::dispatch::{Action, Dispatch, Job, Message};
use anyvmd::kernel::Call;
use anyvmd::launch::Program;
use anyvmd::spawn::Ctx;

const CTX: Ctx = Ctx { cur_table: 11, pty_master: 12, pty_slave: 13, sock: 14 };

fn actions(line: &[u8], result: Result<usize, i32>) -> Vec<Action> {
    let mut d = Dispatch::new(&CTX, line);
    let mut out = Vec::new();
    loop {
        let action = d.action();
        out.push(action);
        match action {
            Action::Spawn { .. } => d.spawned(result),
            Action::Finish { .. } => return out,
            _ => d.done(),
        }
    }
}

fn jobs(line: &[u8]) -> Vec<(Job, Program, Vec<Vec<u8>>, Vec<u8>, bool)> {
    let mut d = Dispatch::new(&CTX, line);
    let mut out = Vec::new();
    loop {
        match d.action() {
            Action::Spawn { job } => {
                let l = d.launch(job);
                let args = l.stack_args().reversed();
                let args = (0..args.len()).map(|i| args.get(i).to_vec()).collect();
                out.push((job, l.program(), args, l.cwd().to_vec(), l.on_terminal()));
                d.spawned(Ok(0));
            }
            Action::Finish { .. } => return out,
            _ => d.done(),
        }
    }
}

const RESTORE: [Action; 3] = [
    Action::Call { call: Call::Dup2 { fd: 14, target: 0 } },
    Action::Call { call: Call::Dup2 { fd: 14, target: 1 } },
    Action::Call { call: Call::Dup2 { fd: 14, target: 2 } },
];

fn shell_plan() -> Vec<Action> {
    let mut v = vec![Action::ResetArena, Action::Spawn { job: Job::Shell }];
    v.extend(RESTORE);
    v.push(Action::Finish { close: false });
    v
}

fn extract_plan(message: Message) -> Vec<Action> {
    let mut v = vec![
        Action::ResetArena,
        Action::Spawn { job: Job::MakeDir },
        Action::ResetArena,
        Action::Spawn { job: Job::Extract },
    ];
    v.extend(RESTORE);
    v.push(Action::Say { message });
    v.push(Action::Finish { close: true });
    v
}

fn bytes(s: &[&str]) -> Vec<Vec<u8>> {
    s.iter().map(|s| s.as_bytes().to_vec()).collect()
}

#[test]
fn readiness_probe_goes_to_the_shell() {
    let line = b"echo anyvm''-ready";
    assert_eq!(actions(line, Ok(0)), shell_plan());
    assert_eq!(
        jobs(line),
        vec![(
            Job::Shell,
            Program::Ion,
            bytes(&["ion", "-c", "echo anyvm''-ready"]),
            b"/".to_vec(),
            true
        )]
    );
}

#[test]
fn a_shell_line_never_closes_the_connection() {
    assert_eq!(actions(b"echo A && uname; echo B", Err(2)), shell_plan());
    assert_eq!(actions(b"start tart", Ok(256)), shell_plan());
}

#[test]
fn a_push_unpacks_and_says_so() {
    let line = b"mkdir -p '/work' && cd '/work' && tar -xf - && echo anyvm-tar''-done";
    assert_eq!(actions(line, Ok(0)), extract_plan(Message::Unpacked));
    assert_eq!(Message::Unpacked.bytes(), b"anyvm-tar-done\r\n");
    assert_eq!(
        jobs(line),
        vec![
            (
                Job::MakeDir,
                Program::Ion,
                bytes(&["ion", "-c", "mkdir -p '/work'"]),
                b"/".to_vec(),
                true
            ),
            (Job::Extract, Program::Tar, bytes(&["tar", "x"]), b"/work".to_vec(), false),
        ]
    );
}

#[test]
fn the_short_spelling_unpacks_too() {
    assert_eq!(actions(b"cd '/w' && tar xf -", Ok(0)), extract_plan(Message::Unpacked));
}

#[test]
fn a_failed_push_closes_the_connection_too() {
    let line = b"cd '/work' && tar x";
    let failed = extract_plan(Message::ExtractFailed);
    assert_eq!(actions(line, Ok(256)), failed);
    assert_eq!(actions(line, Ok(0x7f00)), failed);
    assert_eq!(actions(line, Ok(usize::MAX)), failed);
    assert_eq!(actions(line, Err(2)), failed);
    assert_eq!(Message::ExtractFailed.bytes(), b"anyvmd: tar extract failed\r\n");
}

#[test]
fn only_the_exit_code_counts() {
    let line = b"cd '/work' && tar x";
    assert_eq!(actions(line, Ok(9)), extract_plan(Message::Unpacked));
    assert_eq!(actions(line, Ok(0x10000)), extract_plan(Message::Unpacked));
}

#[test]
fn the_status_of_mkdir_does_not_count() {
    let mut d = Dispatch::new(&CTX, b"cd '/work' && tar x");
    d.done();
    d.spawned(Err(2));
    d.done();
    d.spawned(Ok(0));
    for _ in 0..3 {
        d.done();
    }
    assert_eq!(d.action(), Action::Say { message: Message::Unpacked });
}

#[test]
fn a_pull_packs_the_directory() {
    let mut plan = vec![Action::ResetArena, Action::Spawn { job: Job::Create }];
    plan.extend(RESTORE);
    plan.push(Action::Finish { close: true });
    for line in [&b"cd '/work' && tar -cf - ."[..], b"cd '/work' && tar c ."] {
        assert_eq!(actions(line, Ok(0)), plan);
        assert_eq!(actions(line, Err(5)), plan);
        assert_eq!(
            jobs(line),
            vec![(
                Job::Create,
                Program::Tar,
                bytes(&["tar", "c", "."]),
                b"/work".to_vec(),
                false
            )]
        );
    }
}

#[test]
fn unpacking_is_looked_for_first() {
    assert_eq!(actions(b"'/w' tar c | tar x", Ok(0)), extract_plan(Message::Unpacked));
}

#[test]
fn an_archiver_line_needs_a_directory() {
    let plan = vec![
        Action::ResetArena,
        Action::Say { message: Message::NoDirectory },
        Action::Finish { close: false },
    ];
    assert_eq!(actions(b"tar x", Ok(0)), plan);
    assert_eq!(actions(b"tar -cf - 'half", Ok(0)), plan);
    assert_eq!(Message::NoDirectory.bytes(), b"anyvmd: no directory in tar line\r\n");
}

#[test]
fn a_long_directory_is_cut() {
    let mut line = b"cd '".to_vec();
    line.extend(vec![b'd'; 300]);
    line.extend(b"' && tar x");
    let got = jobs(&line);
    assert_eq!(got[1].3, vec![b'd'; 256]);
    let mut mkdir = b"mkdir -p '".to_vec();
    mkdir.extend(vec![b'd'; 256]);
    mkdir.push(b'\'');
    assert_eq!(got[0].2[2], mkdir);
}

#[test]
fn an_empty_directory_is_one() {
    let got = jobs(b"cd '' && tar x");
    assert_eq!(got[0].2[2], b"mkdir -p ''");
    assert_eq!(got[1].3, b"");
}
