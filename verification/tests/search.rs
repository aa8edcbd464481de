use anyvmd::search::{find, quoted};

#[test]
fn find_gives_the_first_place() {
    assert_eq!(find(b"abcabc", b"ca"), Some(2));
    assert_eq!(find(b"aaa", b"a"), Some(0));
    assert_eq!(find(b"xxab", b"ab"), Some(2));
}

#[test]
fn find_gives_nothing_where_there_is_nothing() {
    assert_eq!(find(b"abc", b"x"), None);
    assert_eq!(find(b"abc", b"abcd"), None);
    assert_eq!(find(b"", b"a"), None);
    assert_eq!(find(b"aab", b"ab "), None);
}

#[test]
fn find_of_an_empty_needle_is_at_the_start() {
    assert_eq!(find(b"abc", b""), Some(0));
    assert_eq!(find(b"", b""), Some(0));
}

#[test]
fn quoted_takes_the_first_run() {
    let mut out = [0u8; 16];
    assert_eq!(quoted(b"cd '/work' && echo 'x'", &mut out), Some(&b"/work"[..]));
    assert_eq!(&out[..5], b"/work");
    assert_eq!(&out[5..], [0u8; 11]);
}

#[test]
fn quoted_cuts_a_run_that_is_too_long() {
    let mut out = [0u8; 4];
    assert_eq!(quoted(b"cd 'abcdef'", &mut out), Some(&b"abcd"[..]));
    assert_eq!(out, *b"abcd");
}

#[test]
fn quoted_of_an_empty_run_is_empty() {
    let mut out = [7u8; 4];
    assert_eq!(quoted(b"tar x ''", &mut out), Some(&b""[..]));
    assert_eq!(out, [7u8; 4]);
}

#[test]
fn quoted_needs_two_quotes() {
    let mut out = [7u8; 4];
    assert_eq!(quoted(b"tar x", &mut out), None);
    assert_eq!(quoted(b"tar x '", &mut out), None);
    assert_eq!(quoted(b"", &mut out), None);
    assert_eq!(out, [7u8; 4]);
}
