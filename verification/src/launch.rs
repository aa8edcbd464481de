//! The programs that the agent starts: their arguments, their environment,
//! where they run and what their standard streams are.

use crate::text::{ascii, smaller, text};
use vstd::prelude::*;

verus! {

/// The strings that one block holds at most.
pub const STRINGS: usize = 8;

/// A list of byte strings.
pub struct Strings<'a> {
    slots: [&'a [u8]; STRINGS],
    len: usize,
}

impl<'a> View for Strings<'a> {
    type V = Seq<Seq<u8>>;

    closed spec fn view(&self) -> Seq<Seq<u8>> {
        Seq::new(self.len as nat, |i: int| self.slots@[i]@)
    }
}

impl<'a> Strings<'a> {
    #[verifier::type_invariant]
    spec fn well_formed(self) -> bool {
        self.len <= STRINGS
    }

    /// An empty list.
    pub fn new() -> (r: Self)
        ensures
            r@ == Seq::<Seq<u8>>::empty(),
    {
        proof {
            reveal_strlit("");
        }
        let nothing = text("");
        let r = Strings { slots: [nothing; STRINGS], len: 0 };
        assert(r@ =~= Seq::<Seq<u8>>::empty());
        r
    }

    /// Add a string to the end.
    pub fn push(&mut self, s: &'a [u8])
        requires
            old(self)@.len() < STRINGS,
        ensures
            final(self)@ == old(self)@.push(s@),
    {
        let ghost before = self@;
        let n: usize = self.len;
        self.slots[n] = s;
        self.len = n + 1;
        assert(self@ =~= before.push(s@));
    }

    /// The number of strings.
    pub fn len(&self) -> (r: usize)
        ensures
            r == self@.len(),
            r <= STRINGS,
    {
        proof {
            use_type_invariant(self);
        }
        self.len
    }

    /// The string at an index.
    pub fn get(&self, i: usize) -> (r: &'a [u8])
        requires
            i < self@.len(),
        ensures
            r@ == self@[i as int],
    {
        proof {
            use_type_invariant(self);
        }
        self.slots[i]
    }

    /// The same strings in the opposite order, as the loader wants them: it
    /// pushes them onto a stack that grows downwards.
    pub fn reversed(&self) -> (r: Self)
        ensures
            r@ == self@.reverse(),
    {
        proof {
            use_type_invariant(self);
        }
        let mut r = Strings::new();
        let mut i: usize = self.len;
        while i > 0
            invariant
                i <= self.len <= STRINGS,
                self@.len() == self.len,
                r@ =~= self@.reverse().take(self.len - i),
            decreases i,
        {
            i = i - 1;
            assert(r@.len() == self.len - i - 1);
            r.push(self.slots[i]);
        }
        assert(self@.reverse().take(self.len as int) =~= self@.reverse());
        r
    }
}

/// The environment strings that are taken over at most. One more place is left
/// for padding.
pub const KEPT_ENVS: usize = 7;

/// The environment that a program with `argc` arguments gets. The number of its
/// arguments and environment strings together must be odd, or its first stack
/// pointer is not aligned and it dies without a message; so one string is added
/// where that number would be even.
pub open spec fn padded(argc: int, envs: Seq<Seq<u8>>) -> Seq<Seq<u8>> {
    let kept = envs.take(smaller(envs.len() as int, KEPT_ENVS as int));
    if (argc + kept.len()) % 2 == 0 {
        kept.push(ascii("ANYVM_PAD=1"@))
    } else {
        kept
    }
}

/// The environment that a program with `argc` arguments gets.
pub fn environment<'a>(argc: usize, envs: &[&'a [u8]]) -> (r: Strings<'a>)
    ensures
        r@ == padded(argc as int, Seq::new(envs@.len(), |i: int| envs@[i]@)),
{
    let ghost all = Seq::new(envs@.len(), |i: int| envs@[i]@);
    let mut r = Strings::new();
    let mut i: usize = 0;
    while i < envs.len()
        invariant
            i <= envs@.len(),
            all == Seq::new(envs@.len(), |i: int| envs@[i]@),
            r@ =~= all.take(smaller(i as int, KEPT_ENVS as int)),
        decreases envs@.len() - i,
    {
        if r.len() < KEPT_ENVS {
            r.push(envs[i]);
        }
        i = i + 1;
    }
    if (argc % 2 + r.len()) % 2 == 0 {
        proof {
            reveal_strlit("ANYVM_PAD=1");
        }
        r.push(text("ANYVM_PAD=1"));
    }
    r
}

/// Whatever the environment, the number of arguments and environment strings
/// together is odd.
pub proof fn law_stack_is_aligned(argc: int, envs: Seq<Seq<u8>>)
    requires
        0 <= argc,
    ensures
        (argc + padded(argc, envs).len()) % 2 == 1,
        padded(argc, envs).len() <= STRINGS,
{
}

/// The bytes that strings take on a stack, each with the zero behind it.
pub open spec fn stack_bytes(strings: Seq<Seq<u8>>) -> int
    decreases strings.len(),
{
    if strings.len() == 0 {
        0
    } else {
        stack_bytes(strings.drop_last()) + strings.last().len() + 1
    }
}

proof fn lemma_stack_bytes_grow(strings: Seq<Seq<u8>>, i: int)
    requires
        0 <= i <= strings.len(),
    ensures
        0 <= stack_bytes(strings.take(i)) <= stack_bytes(strings),
    decreases strings.len(),
{
    if i < strings.len() {
        assert(strings.drop_last().take(i) =~= strings.take(i));
        lemma_stack_bytes_grow(strings.drop_last(), i);
    } else {
        assert(strings.take(i) =~= strings);
        if i > 0 {
            lemma_stack_bytes_grow(strings.drop_last(), i - 1);
        }
    }
}

impl<'a> Strings<'a> {
    /// The bytes that the strings take on a stack.
    fn stack_size(&self) -> (r: usize)
        requires
            stack_bytes(self@) <= usize::MAX,
        ensures
            r == stack_bytes(self@),
    {
        let mut total: usize = 0;
        let mut i: usize = 0;
        assert(self@.take(0) =~= Seq::empty());
        while i < self.len()
            invariant
                i <= self@.len(),
                stack_bytes(self@) <= usize::MAX,
                total == stack_bytes(self@.take(i as int)),
            decreases self@.len() - i,
        {
            proof {
                assert(self@.take(i + 1).drop_last() =~= self@.take(i as int));
                lemma_stack_bytes_grow(self@, i + 1);
            }
            total = total + self.get(i).len() + 1;
            i = i + 1;
        }
        assert(self@.take(i as int) =~= self@);
        total
    }
}

/// A program that the agent starts.
#[derive(Clone, Copy, Debug, PartialEq, Eq, Structural)]
pub enum Program {
    /// The shell.
    Ion,
    /// The archiver.
    Tar,
}

impl Program {
    /// The path, as a text.
    pub open spec fn path_text(self) -> Seq<char> {
        match self {
            Program::Ion => "/bin/ion"@,
            Program::Tar => "/bin/tar"@,
        }
    }

    /// The path.
    pub fn path(self) -> (r: &'static str)
        ensures
            r@ == self.path_text(),
    {
        match self {
            Program::Ion => "/bin/ion",
            Program::Tar => "/bin/tar",
        }
    }
}

/// What a launch says.
#[verifier::ext_equal]
pub struct LaunchModel {
    /// The program.
    pub program: Program,
    /// Its arguments, its name first.
    pub args: Seq<Seq<u8>>,
    /// Its environment.
    pub envs: Seq<Seq<u8>>,
    /// Its directory.
    pub cwd: Seq<u8>,
    /// Whether its standard streams are the terminal. Otherwise they are the
    /// socket.
    pub terminal: bool,
}

/// The environment that every program gets, before padding.
pub open spec fn common_envs() -> Seq<Seq<u8>> {
    seq![
        ascii("PATH=/bin"@),
        ascii("HOME=/root"@),
        ascii("USER=root"@),
        ascii("TERM=dumb"@),
    ]
}

/// The shell runs a line: on the terminal, because a shell asks about its
/// terminal and a socket never answers.
pub open spec fn shell_launch(line: Seq<u8>) -> LaunchModel {
    LaunchModel {
        program: Program::Ion,
        args: seq![ascii("ion"@), ascii("-c"@), line],
        envs: padded(3, common_envs()),
        cwd: ascii("/"@),
        terminal: true,
    }
}

/// The archiver unpacks what it reads into a directory: on the socket, because
/// an archive must not pass through a terminal. The archiver is of the older
/// kind that takes `x` and not `-xf -`.
pub open spec fn extract_launch(dir: Seq<u8>) -> LaunchModel {
    LaunchModel {
        program: Program::Tar,
        args: seq![ascii("tar"@), ascii("x"@)],
        envs: padded(2, common_envs()),
        cwd: dir,
        terminal: false,
    }
}

/// The archiver packs a directory: on the socket.
pub open spec fn create_launch(dir: Seq<u8>) -> LaunchModel {
    LaunchModel {
        program: Program::Tar,
        args: seq![ascii("tar"@), ascii("c"@), ascii("."@)],
        envs: padded(3, common_envs()),
        cwd: dir,
        terminal: false,
    }
}

/// How a program is started.
pub struct Launch<'a> {
    program: Program,
    args: Strings<'a>,
    envs: Strings<'a>,
    cwd: &'a [u8],
    terminal: bool,
}

impl<'a> View for Launch<'a> {
    type V = LaunchModel;

    closed spec fn view(&self) -> LaunchModel {
        LaunchModel {
            program: self.program,
            args: self.args@,
            envs: self.envs@,
            cwd: self.cwd@,
            terminal: self.terminal,
        }
    }
}

fn common_environment(argc: usize) -> (r: Strings<'static>)
    ensures
        r@ == padded(argc as int, common_envs()),
        stack_bytes(r@) <= 60,
{
    proof {
        reveal_strlit("PATH=/bin");
        reveal_strlit("HOME=/root");
        reveal_strlit("USER=root");
        reveal_strlit("TERM=dumb");
        reveal_strlit("ANYVM_PAD=1");
    }
    let envs: [&'static [u8]; 4] = [
        text("PATH=/bin"),
        text("HOME=/root"),
        text("USER=root"),
        text("TERM=dumb"),
    ];
    let r = environment(argc, &envs);
    proof {
        assert(Seq::new(envs@.len(), |i: int| envs@[i]@) =~= common_envs());
        assert(common_envs().take(4) =~= common_envs());
        reveal_with_fuel(stack_bytes, 6);
        assert(r@ == padded(argc as int, common_envs()));
        assert(common_envs().push(ascii("ANYVM_PAD=1"@)).drop_last() =~= common_envs());
    }
    r
}

impl<'a> Launch<'a> {
    #[verifier::type_invariant]
    spec fn well_formed(self) -> bool {
        stack_bytes(self.args@) + stack_bytes(self.envs@) <= usize::MAX
    }

    /// The shell with a line.
    pub fn shell(line: &'a [u8]) -> (r: Self)
        requires
            line@.len() + 100 <= usize::MAX,
        ensures
            r@ == shell_launch(line@),
    {
        proof {
            reveal_strlit("ion");
            reveal_strlit("-c");
            reveal_strlit("/");
        }
        let mut args = Strings::new();
        args.push(text("ion"));
        args.push(text("-c"));
        args.push(line);
        proof {
            reveal_with_fuel(stack_bytes, 4);
            assert(args@ =~= shell_launch(line@).args);
        }
        Launch {
            program: Program::Ion,
            args,
            envs: common_environment(3),
            cwd: text("/"),
            terminal: true,
        }
    }

    /// The archiver that unpacks into a directory.
    pub fn extract(dir: &'a [u8]) -> (r: Self)
        ensures
            r@ == extract_launch(dir@),
    {
        proof {
            reveal_strlit("tar");
            reveal_strlit("x");
        }
        let mut args = Strings::new();
        args.push(text("tar"));
        args.push(text("x"));
        proof {
            reveal_with_fuel(stack_bytes, 3);
            assert(args@ =~= extract_launch(dir@).args);
        }
        Launch {
            program: Program::Tar,
            args,
            envs: common_environment(2),
            cwd: dir,
            terminal: false,
        }
    }

    /// The archiver that packs a directory.
    pub fn create(dir: &'a [u8]) -> (r: Self)
        ensures
            r@ == create_launch(dir@),
    {
        proof {
            reveal_strlit("tar");
            reveal_strlit("c");
            reveal_strlit(".");
        }
        let mut args = Strings::new();
        args.push(text("tar"));
        args.push(text("c"));
        args.push(text("."));
        proof {
            reveal_with_fuel(stack_bytes, 4);
            assert(args@ =~= create_launch(dir@).args);
        }
        Launch {
            program: Program::Tar,
            args,
            envs: common_environment(3),
            cwd: dir,
            terminal: false,
        }
    }

    /// The program.
    pub fn program(&self) -> (r: Program)
        ensures
            r == self@.program,
    {
        self.program
    }

    /// The arguments in the order in which the loader wants them.
    pub fn stack_args(&self) -> (r: Strings<'a>)
        ensures
            r@ == self@.args.reverse(),
    {
        self.args.reversed()
    }

    /// The environment in the order in which the loader wants it.
    pub fn stack_envs(&self) -> (r: Strings<'a>)
        ensures
            r@ == self@.envs.reverse(),
    {
        self.envs.reversed()
    }

    /// The bytes that the arguments and the environment take on the stack.
    pub fn stack_size(&self) -> (r: usize)
        ensures
            r == stack_bytes(self@.args) + stack_bytes(self@.envs),
    {
        proof {
            use_type_invariant(self);
            lemma_stack_bytes_grow(self.args@, 0);
            lemma_stack_bytes_grow(self.envs@, 0);
        }
        self.args.stack_size() + self.envs.stack_size()
    }

    /// The directory.
    pub fn cwd(&self) -> (r: &'a [u8])
        ensures
            r@ == self@.cwd,
    {
        self.cwd
    }

    /// Whether the standard streams are the terminal.
    pub fn on_terminal(&self) -> (r: bool)
        ensures
            r == self@.terminal,
    {
        self.terminal
    }
}

/// Each program that the agent starts has an odd number of arguments and
/// environment strings together.
pub proof fn law_launches_are_aligned(bytes: Seq<u8>)
    ensures
        (shell_launch(bytes).args.len() + shell_launch(bytes).envs.len()) % 2 == 1,
        (extract_launch(bytes).args.len() + extract_launch(bytes).envs.len()) % 2 == 1,
        (create_launch(bytes).args.len() + create_launch(bytes).envs.len()) % 2 == 1,
{
    law_stack_is_aligned(3, common_envs());
    law_stack_is_aligned(2, common_envs());
}

/// Of an environment the first seven strings are handed on as they are, and all
/// that may be added is one string at the end, where the number of arguments and
/// strings would be even without it.
pub proof fn law_environment(argc: int, envs: Seq<Seq<u8>>)
    requires
        0 <= argc,
    ensures
        ({
            let n = if envs.len() < 7 {
                envs.len() as int
            } else {
                7
            };
            &&& padded(argc, envs).take(n) == envs.take(n)
            &&& (argc + n) % 2 == 1 ==> padded(argc, envs).len() == n
            &&& (argc + n) % 2 == 0 ==> padded(argc, envs).len() == n + 1 && padded(argc, envs)[n]
                == ascii("ANYVM_PAD=1"@)
        }),
{
    let n = if envs.len() < 7 {
        envs.len() as int
    } else {
        7
    };
    assert(padded(argc, envs).take(n) =~= envs.take(n));
}

/// Strings take as many bytes on a stack as they have, and one more each.
pub proof fn law_stack_bytes(a: Seq<Seq<u8>>, s: Seq<u8>, b: Seq<Seq<u8>>)
    ensures
        stack_bytes(Seq::empty()) == 0,
        stack_bytes(seq![s]) == s.len() + 1,
        stack_bytes(a + b) == stack_bytes(a) + stack_bytes(b),
    decreases b.len(),
{
    reveal_with_fuel(stack_bytes, 2);
    assert(seq![s].drop_last() =~= Seq::empty());
    if b.len() == 0 {
        assert(a + b =~= a);
    } else {
        assert((a + b).drop_last() =~= a + b.drop_last());
        law_stack_bytes(a, s, b.drop_last());
    }
}

/// A program that the agent starts finds the same four settings, whichever it
/// is.
pub proof fn law_programs_find_settings(bytes: Seq<u8>)
    ensures
        ({
            let settings = seq![
                ascii("PATH=/bin"@),
                ascii("HOME=/root"@),
                ascii("USER=root"@),
                ascii("TERM=dumb"@),
            ];
            &&& shell_launch(bytes).envs == settings
            &&& create_launch(bytes).envs == settings
            &&& extract_launch(bytes).envs == settings.push(ascii("ANYVM_PAD=1"@))
        }),
{
    let settings = common_envs();
    assert(settings.take(4) =~= settings);
}

/// The shell is given the line as it is, and starts at the root.
pub proof fn law_shell_gets_line(line: Seq<u8>)
    ensures
        shell_launch(line).program.path_text() == "/bin/ion"@,
        shell_launch(line).args.len() == 3,
        shell_launch(line).args[0] == ascii("ion"@),
        shell_launch(line).args[1] == ascii("-c"@),
        shell_launch(line).args[2] == line,
        shell_launch(line).cwd == ascii("/"@),
        shell_launch(line).terminal,
{
}

/// The archiver works in the directory as it is, and on the socket.
pub proof fn law_archiver_gets_directory(dir: Seq<u8>)
    ensures
        extract_launch(dir).cwd == dir,
        create_launch(dir).cwd == dir,
        extract_launch(dir).program.path_text() == "/bin/tar"@,
        create_launch(dir).program.path_text() == "/bin/tar"@,
        extract_launch(dir).args == seq![ascii("tar"@), ascii("x"@)],
        create_launch(dir).args == seq![ascii("tar"@), ascii("c"@), ascii("."@)],
        !extract_launch(dir).terminal,
        !create_launch(dir).terminal,
{
}

} // verus!
