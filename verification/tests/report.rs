use anyvmd::launch::Program;
use anyvmd::report::{report_dynamic, report_notice};
use anyvmd::server::Notice;

fn said(notice: Notice) -> Vec<u8> {
    report_notice(notice).as_bytes().to_vec()
}

#[test]
fn every_notice_is_a_line_that_names_the_agent() {
    assert_eq!(said(Notice::BindFailed), b"anyvmd: could not bind port 23; giving up\n");
    assert_eq!(said(Notice::Listening), b"anyvmd: listening on 0.0.0.0:23\n");
    assert_eq!(
        said(Notice::NoPty { errno: 19 }),
        b"anyvmd: no pty available (errno 19); commands will not run\n"
    );
    assert_eq!(said(Notice::NameFailed { errno: 9 }), b"anyvmd: fpath(pty) errno 9\n");
    assert_eq!(said(Notice::NameNotUtf8), b"anyvmd: pty path is not utf-8\n");
    assert_eq!(said(Notice::SlaveFailed { errno: 13 }), b"anyvmd: open(pty slave) errno 13\n");
    assert_eq!(said(Notice::ProcessFailed { errno: 2 }), b"anyvmd: open(thisproc) errno 2\n");
    assert_eq!(said(Notice::TableFailed { errno: 22 }), b"anyvmd: dup(filetable) errno 22\n");
    assert_eq!(said(Notice::Accepted), b"anyvmd: connection accepted\n");
    assert_eq!(said(Notice::ConnectionClosed), b"anyvmd: connection closed\n");
}

#[test]
fn numbers_are_written_as_the_formatter_writes_them() {
    for errno in [0, 1, 9, 10, 99, 100, 1005, i32::MAX, -1, -10, i32::MIN] {
        let expected = format!("anyvmd: fpath(pty) errno {}\n", errno);
        assert_eq!(said(Notice::NameFailed { errno }), expected.as_bytes());
    }
}

#[test]
fn programs_that_need_an_interpreter_are_named() {
    assert_eq!(
        report_dynamic(Program::Ion).as_bytes(),
        b"anyvmd: /bin/ion is dynamic; not supported\n"
    );
    assert_eq!(
        report_dynamic(Program::Tar).as_bytes(),
        b"anyvmd: /bin/tar is dynamic; not supported\n"
    );
}
