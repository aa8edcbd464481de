use anyvmd::line::{Line, LINE_SIZE};

#[test]
fn text_is_added() {
    let mut line = Line::new();
    assert_eq!(line.as_bytes(), b"");
    line.write_str("anyvmd: ");
    line.write_str("listening\n");
    assert_eq!(line.as_bytes(), b"anyvmd: listening\n");
}

#[test]
fn what_does_not_fit_is_dropped_at_the_end() {
    let mut line = Line::new();
    line.write_str(&"x".repeat(250));
    line.write_str("0123456789");
    assert_eq!(line.as_bytes().len(), LINE_SIZE);
    assert_eq!(&line.as_bytes()[248..], b"xx012345");
    line.write_str("more");
    assert_eq!(&line.as_bytes()[248..], b"xx012345");
}

#[test]
fn a_character_may_be_cut() {
    let mut line = Line::new();
    line.write_str(&"x".repeat(255));
    line.write_str("\u{e9}");
    assert_eq!(line.as_bytes()[255], 0xc3);
}
