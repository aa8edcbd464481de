use anyvmd::commands::{Commands, COMMAND_SIZE};

fn lines(c: &mut Commands, bytes: &[u8]) -> Vec<Vec<u8>> {
    let mut out = Vec::new();
    let mut from = 0;
    loop {
        from = c.next_line(bytes, from);
        if !c.is_ready() {
            assert_eq!(from, bytes.len());
            return out;
        }
        out.push(c.line().to_vec());
    }
}

#[test]
fn lines_end_at_a_line_feed() {
    let mut c = Commands::new();
    assert_eq!(lines(&mut c, b"uname\nls /bin\npart"), vec![b"uname".to_vec(), b"ls /bin".to_vec()]);
    assert_eq!(lines(&mut c, b"ial\n"), vec![b"partial".to_vec()]);
}

#[test]
fn one_carriage_return_is_stripped() {
    let mut c = Commands::new();
    assert_eq!(lines(&mut c, b"a\r\nb\r\r\n"), vec![b"a".to_vec(), b"b\r".to_vec()]);
}

#[test]
fn empty_lines_are_not_run() {
    let mut c = Commands::new();
    assert_eq!(lines(&mut c, b"\n\r\n\nx\n"), vec![b"x".to_vec()]);
}

#[test]
fn a_long_line_is_cut() {
    let mut c = Commands::new();
    let mut bytes = vec![b'a'; COMMAND_SIZE + 10];
    bytes.extend(b"\r\nb\n");
    assert_eq!(lines(&mut c, &bytes), vec![vec![b'a'; COMMAND_SIZE], b"b".to_vec()]);
}

#[test]
fn cuts_make_no_difference() {
    let text = b"one\r\ntwo\n\nthree\r\n";
    let mut whole = Commands::new();
    let want = lines(&mut whole, text);
    for cut in 0..=text.len() {
        let mut c = Commands::new();
        let mut got = lines(&mut c, &text[..cut]);
        got.extend(lines(&mut c, &text[cut..]));
        assert_eq!(got, want);
    }
}
