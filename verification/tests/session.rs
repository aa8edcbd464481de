use anyvmd::session::{Session, Stage};

#[derive(Debug, PartialEq)]
enum Seen {
    Sent(Vec<u8>),
    Ran(Vec<u8>),
    Closed,
}

fn settle(s: &mut Session, close_at: &[u8], out: &mut Vec<Seen>) {
    loop {
        match s.get_stage() {
            Stage::Sending => {
                out.push(Seen::Sent(s.get_outgoing().to_vec()));
                s.sent();
            }
            Stage::Running => {
                let line = s.get_line().to_vec();
                let close = line == close_at;
                out.push(Seen::Ran(line));
                s.ran(close);
            }
            Stage::Reading => return,
            Stage::Closed => {
                out.push(Seen::Closed);
                return;
            }
        }
    }
}

fn play(reads: &[&[u8]], close_at: &[u8]) -> Vec<Seen> {
    let mut s = Session::new(3);
    let mut out = Vec::new();
    settle(&mut s, close_at, &mut out);
    assert_eq!(out, vec![Seen::Sent(vec![255, 251, 0, 255, 253, 0])]);
    out.clear();
    for raw in reads {
        s.received(raw);
        settle(&mut s, close_at, &mut out);
    }
    out
}

fn ran(s: &[u8]) -> Seen {
    Seen::Ran(s.to_vec())
}

#[test]
fn lines_are_run_in_order_and_nothing_is_echoed() {
    assert_eq!(play(&[b"one\r\ntwo\nthr", b"ee\n"], b""), vec![ran(b"one"), ran(b"two"), ran(b"three")]);
}

#[test]
fn answers_go_out_before_lines_are_run() {
    let got = play(&[b"a\n\xff\xfd\x00b\n\xff\xfb\x01"], b"");
    assert_eq!(
        got,
        vec![
            Seen::Sent(vec![255, 251, 0]),
            Seen::Sent(vec![255, 254, 1]),
            ran(b"a"),
            ran(b"b")
        ]
    );
}

#[test]
fn the_end_of_the_stream_closes() {
    assert_eq!(play(&[b"a\nb", b""], b""), vec![ran(b"a"), Seen::Closed]);
}

#[test]
fn bytes_behind_a_closing_line_are_not_run() {
    let got = play(&[b"a\ntar\njustcheck.txt\n"], b"tar");
    assert_eq!(got, vec![ran(b"a"), ran(b"tar"), Seen::Closed]);
}

#[test]
fn reads_may_cut_the_stream_anywhere() {
    let stream = b"one\r\n\xff\xfd\x00t\xff\xffo\n\xff\xfa\x18\x01\xff\xf0\nthree\n";
    let lines = vec![b"one".to_vec(), b"t\xffo".to_vec(), b"three".to_vec()];
    for cut in 1..stream.len() {
        let got = play(&[&stream[..cut], &stream[cut..]], b"");
        let mut run = Vec::new();
        let mut sent = Vec::new();
        for seen in got {
            match seen {
                Seen::Ran(line) => run.push(line),
                Seen::Sent(bytes) => sent.extend(bytes),
                Seen::Closed => panic!(),
            }
        }
        assert_eq!(run, lines);
        assert_eq!(sent, vec![255, 251, 0]);
    }
}

#[test]
fn a_full_read_of_negotiation_is_answered() {
    let mut raw = Vec::new();
    for i in 0..341 {
        raw.extend([255, 253, (i % 7) as u8]);
    }
    let got = play(&[&raw], b"");
    assert_eq!(got.len(), 341);
    for (i, seen) in got.iter().enumerate() {
        let option = (i % 7) as u8;
        let verb = if option == 0 { 251 } else { 252 };
        assert_eq!(*seen, Seen::Sent(vec![255, verb, option]));
    }
}

#[test]
fn everything_is_answered_once_and_in_order() {
    let stream = b"\xff\xfd\x00a\n\xff\xfb\x00\xff\xfa\x18\xf0\xff\xf0\xff\xfd\x05b\n\xff\xfc\x01";
    for first in 0..=stream.len() {
        for second in first..=stream.len() {
            let mut s = Session::new(3);
            let mut sent = Vec::new();
            for part in [&stream[..first], &stream[first..second], &stream[second..]] {
                let mut seen = Vec::new();
                settle(&mut s, b"", &mut seen);
                if !part.is_empty() {
                    s.received(part);
                    settle(&mut s, b"", &mut seen);
                }
                for event in seen {
                    if let Seen::Sent(bytes) = event {
                        sent.extend(bytes);
                    }
                }
            }
            assert_eq!(
                sent,
                vec![255, 251, 0, 255, 253, 0, 255, 251, 0, 255, 253, 0, 255, 252, 5]
            );
        }
    }
}
