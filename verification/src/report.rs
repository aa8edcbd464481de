//! What the agent writes to its console.

use crate::launch::Program;
use crate::line::{Line, LINE_SIZE};
use crate::server::Notice;
use crate::text::{ascii, at_most, text};
use vstd::prelude::*;

verus! {

/// The decimal digits of a number.
pub open spec fn digits(n: nat) -> Seq<u8>
    decreases n,
{
    if n < 10 {
        seq![(48 + n) as u8]
    } else {
        digits(n / 10).push((48 + n % 10) as u8)
    }
}

/// A number in decimal.
pub open spec fn decimal(n: int) -> Seq<u8> {
    if n < 0 {
        ascii("-"@) + digits((-n) as nat)
    } else {
        digits(n as nat)
    }
}

/// What a notice says, but for what stands around every report.
pub open spec fn notice_text(notice: Notice) -> Seq<u8> {
    match notice {
        Notice::BindFailed => ascii("could not bind port 23; giving up"@),
        Notice::Listening => ascii("listening on 0.0.0.0:23"@),
        Notice::NoPty { errno } => ascii("no pty available (errno "@) + decimal(errno as int)
            + ascii("); commands will not run"@),
        Notice::NameFailed { errno } => ascii("fpath(pty) errno "@) + decimal(errno as int),
        Notice::NameNotUtf8 => ascii("pty path is not utf-8"@),
        Notice::SlaveFailed { errno } => ascii("open(pty slave) errno "@) + decimal(errno as int),
        Notice::ProcessFailed { errno } => ascii("open(thisproc) errno "@) + decimal(errno as int),
        Notice::TableFailed { errno } => ascii("dup(filetable) errno "@) + decimal(errno as int),
        Notice::Accepted => ascii("connection accepted"@),
        Notice::ConnectionClosed => ascii("connection closed"@),
    }
}

/// What is said of a program that needs an interpreter.
pub open spec fn dynamic_text(program: Program) -> Seq<u8> {
    ascii(program.path_text()) + ascii(" is dynamic; not supported"@)
}

/// A report: a line that names the agent.
pub open spec fn reported(body: Seq<u8>) -> Seq<u8> {
    ascii("anyvmd: "@) + body + ascii("\n"@)
}

/// Two cuts at one place are one.
proof fn lemma_cut(a: Seq<u8>, b: Seq<u8>, n: int)
    requires
        0 <= n,
    ensures
        at_most(at_most(a, n) + b, n) == at_most(a + b, n),
{
    assert(at_most(at_most(a, n) + b, n) =~= at_most(a + b, n));
}

/// Add digits to a line.
fn write_digits(line: &mut Line, n: u32)
    ensures
        final(line)@ == at_most(old(line)@ + digits(n as nat), LINE_SIZE as int),
    decreases n,
{
    let ghost before = line@;
    if n >= 10 {
        write_digits(line, n / 10);
    }
    let last: [u8; 1] = [48 + (n % 10) as u8];
    line.write_bytes(&last);
    proof {
        assert(last@ =~= seq![(48 + n % 10) as u8]);
        if n >= 10 {
            lemma_cut(before + digits((n / 10) as nat), last@, LINE_SIZE as int);
            assert((before + digits((n / 10) as nat)) + last@ =~= before + digits(n as nat));
        }
    }
}

/// Add a number to a line.
fn write_decimal(line: &mut Line, n: i32)
    ensures
        final(line)@ == at_most(old(line)@ + decimal(n as int), LINE_SIZE as int),
{
    let ghost before = line@;
    if n < 0 {
        proof {
            reveal_strlit("-");
        }
        let size: u32 = (-(n as i64)) as u32;
        line.write_bytes(text("-"));
        write_digits(line, size);
        proof {
            lemma_cut(before + ascii("-"@), digits(size as nat), LINE_SIZE as int);
            assert((before + ascii("-"@)) + digits(size as nat) =~= before + decimal(n as int));
        }
    } else {
        write_digits(line, n as u32);
    }
}

/// A report of a text, an error's number where there is one, and a second text.
fn write_report(front: &[u8], errno: Option<i32>, back: &[u8]) -> (r: Line)
    ensures
        r@ == at_most(
            reported(
                match errno {
                    Some(errno) => front@ + decimal(errno as int) + back@,
                    None => front@ + back@,
                },
            ),
            LINE_SIZE as int,
        ),
{
    proof {
        reveal_strlit("anyvmd: ");
        reveal_strlit("\n");
    }
    let ghost name = ascii("anyvmd: "@);
    let ghost end = ascii("\n"@);
    let ghost n = LINE_SIZE as int;
    let mut line = Line::new();
    line.write_bytes(text("anyvmd: "));
    assert(line@ =~= at_most(name, n));
    line.write_bytes(front);
    let ghost mut so_far = name + front@;
    proof {
        lemma_cut(name, front@, n);
    }
    match errno {
        Some(errno) => {
            write_decimal(&mut line, errno);
            proof {
                lemma_cut(so_far, decimal(errno as int), n);
                so_far = so_far + decimal(errno as int);
            }
        },
        None => {},
    }
    line.write_bytes(back);
    line.write_bytes(text("\n"));
    proof {
        lemma_cut(so_far, back@, n);
        lemma_cut(so_far + back@, end, n);
        match errno {
            Some(errno) => {
                assert(so_far + back@ + end =~= reported(
                    front@ + decimal(errno as int) + back@,
                ));
            },
            None => {
                assert(so_far + back@ + end =~= reported(front@ + back@));
            },
        }
    }
    line
}

/// The report of a notice.
pub fn report_notice(notice: Notice) -> (r: Line)
    ensures
        r@ == reported(notice_text(notice)),
{
    proof {
        reveal_strlit("");
        reveal_strlit("could not bind port 23; giving up");
        reveal_strlit("listening on 0.0.0.0:23");
        reveal_strlit("no pty available (errno ");
        reveal_strlit("); commands will not run");
        reveal_strlit("fpath(pty) errno ");
        reveal_strlit("pty path is not utf-8");
        reveal_strlit("open(pty slave) errno ");
        reveal_strlit("open(thisproc) errno ");
        reveal_strlit("dup(filetable) errno ");
        reveal_strlit("connection accepted");
        reveal_strlit("connection closed");
    }
    let none: &[u8] = text("");
    let (front, errno, back): (&[u8], Option<i32>, &[u8]) = match notice {
        Notice::BindFailed => (text("could not bind port 23; giving up"), None, none),
        Notice::Listening => (text("listening on 0.0.0.0:23"), None, none),
        Notice::NoPty { errno } => (
            text("no pty available (errno "),
            Some(errno),
            text("); commands will not run"),
        ),
        Notice::NameFailed { errno } => (text("fpath(pty) errno "), Some(errno), none),
        Notice::NameNotUtf8 => (text("pty path is not utf-8"), None, none),
        Notice::SlaveFailed { errno } => (text("open(pty slave) errno "), Some(errno), none),
        Notice::ProcessFailed { errno } => (text("open(thisproc) errno "), Some(errno), none),
        Notice::TableFailed { errno } => (text("dup(filetable) errno "), Some(errno), none),
        Notice::Accepted => (text("connection accepted"), None, none),
        Notice::ConnectionClosed => (text("connection closed"), None, none),
    };
    proof {
        match errno {
            Some(errno) => {
                assert(front@ + decimal(errno as int) + back@ =~= notice_text(notice));
            },
            None => {
                assert(front@ + back@ =~= notice_text(notice));
            },
        }
        law_notices_fit(notice);
        assert(at_most(reported(notice_text(notice)), LINE_SIZE as int) =~= reported(
            notice_text(notice),
        ));
    }
    write_report(front, errno, back)
}

/// The report of a program that needs an interpreter.
pub fn report_dynamic(program: Program) -> (r: Line)
    ensures
        r@ == reported(dynamic_text(program)),
{
    proof {
        reveal_strlit("/bin/ion");
        reveal_strlit("/bin/tar");
        reveal_strlit(" is dynamic; not supported");
        reveal_strlit("anyvmd: ");
        reveal_strlit("\n");
    }
    let path: &[u8] = match program {
        Program::Ion => text("/bin/ion"),
        Program::Tar => text("/bin/tar"),
    };
    proof {
        assert(at_most(reported(dynamic_text(program)), LINE_SIZE as int) =~= reported(
            dynamic_text(program),
        ));
    }
    write_report(path, None, text(" is dynamic; not supported"))
}

proof fn lemma_digits_len(n: nat)
    requires
        n < 10000000000,
    ensures
        digits(n).len() <= 10,
{
    reveal_with_fuel(digits, 10);
}

/// No notice is too long for a line, whatever error it carries.
pub proof fn law_notices_fit(notice: Notice)
    ensures
        reported(notice_text(notice)).len() <= LINE_SIZE,
{
    reveal_strlit("-");
    reveal_strlit("anyvmd: ");
    reveal_strlit("\n");
    reveal_strlit("could not bind port 23; giving up");
    reveal_strlit("listening on 0.0.0.0:23");
    reveal_strlit("no pty available (errno ");
    reveal_strlit("); commands will not run");
    reveal_strlit("fpath(pty) errno ");
    reveal_strlit("pty path is not utf-8");
    reveal_strlit("open(pty slave) errno ");
    reveal_strlit("open(thisproc) errno ");
    reveal_strlit("dup(filetable) errno ");
    reveal_strlit("connection accepted");
    reveal_strlit("connection closed");
    match notice {
        Notice::NoPty { errno }
        | Notice::NameFailed { errno }
        | Notice::SlaveFailed { errno }
        | Notice::ProcessFailed { errno }
        | Notice::TableFailed { errno } => {
            if errno < 0 {
                lemma_digits_len((-errno) as nat);
            } else {
                lemma_digits_len(errno as nat);
            }
        },
        _ => {},
    }
}

/// The number that digits spell.
pub open spec fn number(ds: Seq<u8>) -> int
    decreases ds.len(),
{
    if ds.len() == 0 {
        0
    } else {
        number(ds.drop_last()) * 10 + (ds.last() - 48)
    }
}

/// Digits spell the number that they are written for, without a zero in front
/// of it. A minus sign (45) stands before those of a number below zero.
pub proof fn law_decimal(n: nat)
    ensures
        number(decimal(n as int)) == n,
        forall|i: int|
            0 <= i < decimal(n as int).len() ==> 48 <= #[trigger] decimal(n as int)[i] <= 57,
        decimal(n as int).len() > 0,
        n > 0 ==> decimal(n as int)[0] != 48,
        n > 0 ==> decimal(-n) == seq![45u8] + decimal(n as int),
    decreases n,
{
    reveal_strlit("-");
    assert(ascii("-"@) =~= seq![45u8]);
    let ds = digits(n);
    if n < 10 {
        reveal_with_fuel(number, 2);
        assert(ds.drop_last() =~= Seq::empty());
    } else {
        law_decimal(n / 10);
        assert(ds.drop_last() =~= digits(n / 10));
        assert forall|i: int| 0 <= i < ds.len() implies 48 <= #[trigger] ds[i] <= 57 by {
            if i < ds.len() - 1 {
                assert(ds[i] == decimal((n / 10) as int)[i]);
            }
        }
        assert(ds[0] == decimal((n / 10) as int)[0]);
    }
}

/// A notice that carries an error says its number, and no other.
pub proof fn law_notices_say_error(errno: i32)
    ensures
        notice_text(Notice::NoPty { errno }) == ascii("no pty available (errno "@) + decimal(
            errno as int,
        ) + ascii("); commands will not run"@),
        notice_text(Notice::NameFailed { errno }) == ascii("fpath(pty) errno "@) + decimal(
            errno as int,
        ),
        notice_text(Notice::SlaveFailed { errno }) == ascii("open(pty slave) errno "@) + decimal(
            errno as int,
        ),
        notice_text(Notice::ProcessFailed { errno }) == ascii("open(thisproc) errno "@) + decimal(
            errno as int,
        ),
        notice_text(Notice::TableFailed { errno }) == ascii("dup(filetable) errno "@) + decimal(
            errno as int,
        ),
{
}

/// A report is one line: it begins with the agent's name and ends with its only
/// line feed (10), and what it says stands between them.
pub proof fn law_report_is_a_line(body: Seq<u8>)
    ensures
        reported(body) == ascii("anyvmd: "@) + body + seq![10u8],
{
    reveal_strlit("\n");
    assert(ascii("\n"@) =~= seq![10u8]);
}

} // verus!
