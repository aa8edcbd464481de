use anyvmd::telnet::{
    Delivery, Phase, Telnet, CHUNK_SIZE, DO, DONT, IAC, OPT_BINARY, SB, SE, WILL, WONT,
};

fn unescape_with(t: &mut Telnet, src: &[u8], room: usize) -> (Vec<u8>, Vec<u8>) {
    let mut dst = vec![0u8; room];
    let mut replies = vec![0u8; src.len() + 2];
    let got = t.unescape(src, &mut dst, &mut replies);
    (dst[..got.data].to_vec(), replies[..got.replies].to_vec())
}

fn unescape(src: &[u8]) -> (Vec<u8>, Vec<u8>) {
    let (mut t, _) = Telnet::new(3);
    unescape_with(&mut t, src, src.len())
}

fn escape(data: &[u8]) -> Vec<u8> {
    let (t, _) = Telnet::new(3);
    let mut out = Vec::new();
    let mut from = 0;
    while from < data.len() {
        let mut chunk = [0u8; CHUNK_SIZE];
        let got = t.write(data, from, &mut chunk);
        out.extend_from_slice(&chunk[..got.len]);
        from = got.next;
    }
    out
}

#[test]
fn hello_asks_for_binary_both_ways() {
    let (t, hello) = Telnet::new(7);
    assert_eq!(t.sock, 7);
    assert_eq!(t.phase, Phase::Data);
    assert_eq!(hello, [255, 251, 0, 255, 253, 0]);
}

#[test]
fn plain_bytes_pass_and_are_not_echoed() {
    assert_eq!(unescape(b"echo hi\r\n"), (b"echo hi\r\n".to_vec(), vec![]));
}

#[test]
fn doubled_escape_is_one_byte() {
    assert_eq!(unescape(&[1, 255, 255, 2]), (vec![1, 255, 2], vec![]));
}

#[test]
fn binary_is_agreed_to() {
    assert_eq!(unescape(&[IAC, DO, OPT_BINARY]), (vec![], vec![255, 251, 0]));
    assert_eq!(unescape(&[IAC, WILL, OPT_BINARY]), (vec![], vec![255, 253, 0]));
}

#[test]
fn other_options_are_refused() {
    assert_eq!(unescape(&[IAC, DO, 24]), (vec![], vec![255, 252, 24]));
    assert_eq!(unescape(&[IAC, WILL, 1]), (vec![], vec![255, 254, 1]));
}

#[test]
fn refusals_are_not_answered() {
    assert_eq!(unescape(&[IAC, WONT, 1, IAC, DONT, 3, 9]), (vec![9], vec![]));
}

#[test]
fn other_commands_are_dropped() {
    assert_eq!(unescape(&[65, IAC, 241, 66]), (vec![65, 66], vec![]));
}

#[test]
fn subnegotiation_is_skipped() {
    assert_eq!(unescape(&[65, IAC, SB, 24, 0, 120, IAC, SE, 66]), (vec![65, 66], vec![]));
    assert_eq!(unescape(&[IAC, SB, IAC, SE, 66]), (vec![66], vec![]));
}

#[test]
fn nothing_in_its_body_ends_a_subnegotiation() {
    let (mut t, _) = Telnet::new(6);
    let mut d = [0u8; 8];
    let mut replies = [0u8; 10];
    let got = t.unescape(&[255, 250, 24, 240, 65, 255, 240, 66], &mut d, &mut replies);
    assert_eq!((got.data, got.replies), (1, 0));
    assert_eq!(d, [66, 0, 0, 0, 0, 0, 0, 0]);
    assert_eq!(t.phase, Phase::Data);
    assert_eq!(unescape(&[IAC, SB, 24, IAC, IAC, SE, 65, IAC, SE, 66]), (vec![66], vec![]));
    assert_eq!(unescape(&[IAC, SB, 24, IAC, DO, 0, 65, IAC, SE, 66]), (vec![66], vec![]));
    let body: Vec<u8> = (0..=255).collect();
    let mut stream = vec![IAC, SB];
    stream.extend(escape(&body));
    stream.extend([IAC, SE, 66]);
    assert_eq!(unescape(&stream), (vec![66], vec![]));
}

#[test]
fn state_is_carried_from_read_to_read() {
    let stream = [65, IAC, DO, 0, IAC, IAC, IAC, SB, 1, 2, IAC, SE, 66, IAC, WILL, 5];
    let whole = unescape(&stream);
    assert_eq!(whole, (vec![65, 255, 66], vec![255, 251, 0, 255, 254, 5]));
    for cut in 0..=stream.len() {
        let (mut t, _) = Telnet::new(3);
        let (mut data, mut replies) = unescape_with(&mut t, &stream[..cut], 16);
        let (more, answers) = unescape_with(&mut t, &stream[cut..], 16);
        data.extend(more);
        replies.extend(answers);
        assert_eq!((data, replies), whole);
    }
}

#[test]
fn one_byte_may_be_answered_with_three() {
    let mut t = Telnet { sock: 3, phase: Phase::Verb { verb: DO } };
    assert_eq!(unescape_with(&mut t, &[0], 1), (vec![], vec![255, 251, 0]));
}

#[test]
fn what_does_not_fit_is_dropped() {
    let (mut t, _) = Telnet::new(3);
    assert_eq!(unescape_with(&mut t, b"abcdef", 4), (b"abcd".to_vec(), vec![]));
    let (mut t, _) = Telnet::new(3);
    assert_eq!(unescape_with(&mut t, &[255, 255, 1], 0), (vec![], vec![]));
    assert_eq!(t.phase, Phase::Data);
}

#[test]
fn untouched_bytes_stay() {
    let (mut t, _) = Telnet::new(3);
    let mut dst = [9u8; 4];
    let mut replies = [8u8; 8];
    t.unescape(&[1, IAC, DO, 7], &mut dst, &mut replies);
    assert_eq!(dst, [1, 9, 9, 9]);
    assert_eq!(replies, [255, 252, 7, 8, 8, 8, 8, 8]);
}

#[test]
fn escape_doubles_the_escape() {
    assert_eq!(escape(&[0, 255, 254]), vec![0, 255, 255, 254]);
    assert_eq!(escape(b""), b"");
}

#[test]
fn every_byte_survives_the_wire() {
    let data: Vec<u8> = (0..5000usize).map(|i| (i * 7 % 256) as u8).collect();
    let wire = escape(&data);
    assert_eq!(unescape(&wire), (data, vec![]));
}

#[test]
fn chunks_end_before_they_overflow() {
    let (t, _) = Telnet::new(3);
    let mut chunk = [0u8; CHUNK_SIZE];
    let got = t.write(&[1u8; 3000], 0, &mut chunk);
    assert_eq!((got.next, got.len), (1023, 1023));
    let mut data = vec![1u8; 1022];
    data.push(255);
    data.push(1);
    let got = t.write(&data, 0, &mut chunk);
    assert_eq!((got.next, got.len), (1023, 1024));
    assert_eq!(&chunk[1021..], [1, 255, 255]);
    let got = t.write(&data, 1023, &mut chunk);
    assert_eq!((got.next, got.len), (1024, 1));
    let got = t.write(&[255u8; 3000], 0, &mut chunk);
    assert_eq!((got.next, got.len), (512, 1024));
}

#[test]
fn delivery_carries_on_where_a_write_ended() {
    let mut d = Delivery::start(10);
    assert_eq!(d.pending(), Some(0));
    d.advance(Ok(4));
    assert_eq!(d.pending(), Some(4));
    d.advance(Ok(6));
    assert_eq!(d.pending(), None);
    assert_eq!(d.off, 10);
}

#[test]
fn delivery_stops_at_a_failure() {
    let mut d = Delivery::start(10);
    d.advance(Ok(4));
    d.advance(Err(32));
    assert_eq!(d.pending(), None);
    assert_eq!(d.off, 4);
    let mut d = Delivery::start(10);
    d.advance(Ok(0));
    assert_eq!(d.pending(), None);
}

#[test]
fn delivery_of_nothing_writes_nothing() {
    assert_eq!(Delivery::start(0).pending(), None);
}

#[test]
fn delivery_survives_a_count_that_is_too_large() {
    let mut d = Delivery::start(10);
    d.advance(Ok(usize::MAX));
    assert_eq!(d.pending(), None);
}
