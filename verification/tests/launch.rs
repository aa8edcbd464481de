use anyvmd::launch::{environment, Launch, Program, Strings};

fn list(s: &Strings) -> Vec<Vec<u8>> {
    (0..s.len()).map(|i| s.get(i).to_vec()).collect()
}

fn bytes(s: &[&str]) -> Vec<Vec<u8>> {
    s.iter().map(|s| s.as_bytes().to_vec()).collect()
}

#[test]
fn padding_makes_the_count_odd() {
    let envs: [&[u8]; 2] = [b"A=1", b"B=2"];
    assert_eq!(list(&environment(1, &envs)), bytes(&["A=1", "B=2"]));
    assert_eq!(list(&environment(2, &envs)), bytes(&["A=1", "B=2", "ANYVM_PAD=1"]));
    for argc in 0..6 {
        for n in 0..12 {
            let many: Vec<&[u8]> = vec![b"X=1"; n];
            assert_eq!((argc + environment(argc, &many).len()) % 2, 1);
        }
    }
}

#[test]
fn seven_strings_are_kept() {
    let many: Vec<&[u8]> = vec![b"0", b"1", b"2", b"3", b"4", b"5", b"6", b"7", b"8"];
    assert_eq!(list(&environment(2, &many)), bytes(&["0", "1", "2", "3", "4", "5", "6"]));
    assert_eq!(
        list(&environment(1, &many)),
        bytes(&["0", "1", "2", "3", "4", "5", "6", "ANYVM_PAD=1"])
    );
}

#[test]
fn a_huge_count_does_not_overflow() {
    assert_eq!(environment(usize::MAX, &[b"A"]).len(), 2);
}

#[test]
fn shell_launch() {
    let l = Launch::shell(b"echo hi");
    assert_eq!(l.program(), Program::Ion);
    assert_eq!(l.program().path(), "/bin/ion");
    assert_eq!(list(&l.stack_args()), bytes(&["echo hi", "-c", "ion"]));
    assert_eq!(
        list(&l.stack_envs()),
        bytes(&["TERM=dumb", "USER=root", "HOME=/root", "PATH=/bin"])
    );
    assert_eq!(l.cwd(), b"/");
    assert!(l.on_terminal());
    assert_eq!(l.stack_size(), (7 + 2 + 3 + 3) + (9 + 9 + 10 + 9 + 4));
}

#[test]
fn extract_launch() {
    let l = Launch::extract(b"/work");
    assert_eq!(l.program(), Program::Tar);
    assert_eq!(l.program().path(), "/bin/tar");
    assert_eq!(list(&l.stack_args()), bytes(&["x", "tar"]));
    assert_eq!(
        list(&l.stack_envs()),
        bytes(&["ANYVM_PAD=1", "TERM=dumb", "USER=root", "HOME=/root", "PATH=/bin"])
    );
    assert_eq!(l.cwd(), b"/work");
    assert!(!l.on_terminal());
    assert_eq!(l.stack_size(), (1 + 3 + 2) + (11 + 9 + 9 + 10 + 9 + 5));
}

#[test]
fn create_launch() {
    let l = Launch::create(b"/work");
    assert_eq!(l.program(), Program::Tar);
    assert_eq!(list(&l.stack_args()), bytes(&[".", "c", "tar"]));
    assert_eq!(l.stack_envs().len(), 4);
    assert_eq!(l.cwd(), b"/work");
    assert!(!l.on_terminal());
}

#[test]
fn reversing_twice_changes_nothing() {
    let mut s = Strings::new();
    s.push(b"a");
    s.push(b"bc");
    s.push(b"");
    assert_eq!(list(&s.reversed()), bytes(&["", "bc", "a"]));
    assert_eq!(list(&s.reversed().reversed()), bytes(&["a", "bc", ""]));
}
