use vstd::prelude::*;
use vstd::string::*;
use crate::registry::Registry;

verus! {

/// The characters with the Unicode `White_Space` property.
pub open spec fn is_whitespace_spec(c: char) -> bool {
    let u = c as u32;
    (0x9 <= u <= 0xD) || u == 0x20 || u == 0x85 || u == 0xA0 || u == 0x1680 || (0x2000 <= u
        <= 0x200A) || u == 0x2028 || u == 0x2029 || u == 0x202F || u == 0x205F || u == 0x3000
}

pub fn is_whitespace(c: char) -> (r: bool)
    ensures
        r == is_whitespace_spec(c),
{
    let u = c as u32;
    (0x9 <= u && u <= 0xD) || u == 0x20 || u == 0x85 || u == 0xA0 || u == 0x1680 || (0x2000 <= u
        && u <= 0x200A) || u == 0x2028 || u == 0x2029 || u == 0x202F || u == 0x205F || u == 0x3000
}

/// `s` without its leading whitespace.
pub open spec fn trim_start_spec(s: Seq<char>) -> Seq<char>
    decreases s.len(),
{
    if s.len() > 0 && is_whitespace_spec(s[0]) {
        trim_start_spec(s.drop_first())
    } else {
        s
    }
}

/// `s` without its trailing whitespace.
pub open spec fn trim_end_spec(s: Seq<char>) -> Seq<char>
    decreases s.len(),
{
    if s.len() > 0 && is_whitespace_spec(s.last()) {
        trim_end_spec(s.drop_last())
    } else {
        s
    }
}

/// `s` without surrounding whitespace.
pub open spec fn trim_spec(s: Seq<char>) -> Seq<char> {
    trim_end_spec(trim_start_spec(s))
}

/// `t` cut at its first space: what precedes it, and what follows it if
/// there is a space at all.
pub open spec fn split_at_space(t: Seq<char>) -> (Seq<char>, Option<Seq<char>>)
    decreases t.len(),
{
    if t.len() == 0 {
        (Seq::empty(), None)
    } else if t[0] == ' ' {
        (Seq::empty(), Some(t.drop_first()))
    } else {
        let (name, rest) = split_at_space(t.drop_first());
        (seq![t[0]] + name, rest)
    }
}

/// The command name of a raw line.
pub open spec fn command_name(line: Seq<char>) -> Seq<char> {
    split_at_space(trim_spec(line)).0
}

/// The argument string of a raw line, if it has one.
pub open spec fn command_args(line: Seq<char>) -> Option<Seq<char>> {
    split_at_space(trim_spec(line)).1
}

proof fn lemma_trim_start_step(s: Seq<char>, i: int)
    requires
        0 <= i < s.len(),
        is_whitespace_spec(s[i]),
    ensures
        trim_start_spec(s.subrange(i, s.len() as int)) == trim_start_spec(
            s.subrange(i + 1, s.len() as int),
        ),
{
    assert(s.subrange(i, s.len() as int).drop_first() =~= s.subrange(i + 1, s.len() as int));
}

proof fn lemma_trim_end_step(s: Seq<char>, j: int)
    requires
        0 < j <= s.len(),
        is_whitespace_spec(s[j - 1]),
    ensures
        trim_end_spec(s.subrange(0, j)) == trim_end_spec(s.subrange(0, j - 1)),
{
    assert(s.subrange(0, j).drop_last() =~= s.subrange(0, j - 1));
}

proof fn lemma_split_at(t: Seq<char>, k: int)
    requires
        0 <= k <= t.len(),
        forall|j: int| 0 <= j < k ==> t[j] != ' ',
        k < t.len() ==> t[k] == ' ',
    ensures
        split_at_space(t) == (t.take(k), if k < t.len() {
            Some(t.subrange(k + 1, t.len() as int))
        } else {
            None::<Seq<char>>
        }),
    decreases k,
{
    if k > 0 {
        let u = t.drop_first();
        assert forall|j: int| 0 <= j < k - 1 implies u[j] != ' ' by {
            assert(u[j] == t[j + 1]);
        }
        lemma_split_at(u, k - 1);
        assert(seq![t[0]] + u.take(k - 1) =~= t.take(k));
        if k < t.len() {
            assert(u.subrange(k, u.len() as int) =~= t.subrange(k + 1, t.len() as int));
        }
    } else {
        assert(t.take(0) =~= Seq::<char>::empty());
        if t.len() > 0 {
            assert(t.drop_first() =~= t.subrange(1, t.len() as int));
        }
    }
}

/// Splits a raw line into its command name and, when the trimmed line has a
/// space, the argument string after the first space.
pub fn split_command(line: &str) -> (r: (String, Option<String>))
    ensures
        r.0@ == command_name(line@),
        match r.1 {
            Some(a) => command_args(line@) == Some(a@),
            None => command_args(line@) is None,
        },
{
    let n = line.unicode_len();
    let ghost s = line@;
    let mut lo: usize = 0;
    assert(s.subrange(0, n as int) =~= s);
    while lo < n && is_whitespace(line.get_char(lo))
        invariant
            n == s.len(),
            s == line@,
            lo <= n,
            trim_start_spec(s) == trim_start_spec(s.subrange(lo as int, n as int)),
        decreases n - lo,
    {
        proof {
            lemma_trim_start_step(s, lo as int);
        }
        lo += 1;
    }
    assert(trim_start_spec(s) == s.subrange(lo as int, n as int)) by {
        assert(s.subrange(lo as int, n as int) == trim_start_spec(s.subrange(lo as int, n as int)));
    }
    let ghost t0 = s.subrange(lo as int, n as int);
    let mut hi: usize = n;
    assert(t0.subrange(0, n - lo) =~= t0);
    while hi > lo && is_whitespace(line.get_char(hi - 1))
        invariant
            n == s.len(),
            s == line@,
            t0 == s.subrange(lo as int, n as int),
            lo <= hi <= n,
            trim_end_spec(t0) == trim_end_spec(t0.subrange(0, hi - lo)),
        decreases hi,
    {
        proof {
            lemma_trim_end_step(t0, hi - lo);
        }
        hi -= 1;
    }
    let ghost t = t0.subrange(0, hi - lo);
    assert(trim_spec(s) == t) by {
        assert(t == trim_end_spec(t));
    }
    assert(t =~= s.subrange(lo as int, hi as int));
    let mut k: usize = lo;
    while k < hi && line.get_char(k) != ' '
        invariant
            n == s.len(),
            s == line@,
            t == s.subrange(lo as int, hi as int),
            lo <= k <= hi <= n,
            forall|j: int| 0 <= j < k - lo ==> t[j] != ' ',
        decreases hi - k,
    {
        k += 1;
    }
    proof {
        lemma_split_at(t, k - lo);
    }
    let name = line.substring_char(lo, k).to_owned();
    assert(name@ =~= t.take(k - lo));
    if k < hi {
        let args = line.substring_char(k + 1, hi).to_owned();
        assert(args@ =~= t.subrange(k - lo + 1, t.len() as int));
        (name, Some(args))
    } else {
        (name, None)
    }
}

/// A registered command: one that takes an argument string, or one that
/// takes none.
#[derive(Debug)]
pub enum CommandFunction<W, N> {
    WithArgs(W),
    NoArgs(N),
}

/// The commands known to the dispatcher, by name.
pub struct CommandRegistry<W, N> {
    commands: Registry<CommandFunction<W, N>>,
}

impl<W, N> CommandRegistry<W, N> {
    pub closed spec fn view(&self) -> Map<Seq<char>, CommandFunction<W, N>> {
        self.commands.view()
    }

    pub closed spec fn wf(&self) -> bool {
        self.commands.wf()
    }

    pub fn new() -> (r: CommandRegistry<W, N>)
        ensures
            r.wf(),
            r.view() == Map::<Seq<char>, CommandFunction<W, N>>::empty(),
    {
        CommandRegistry { commands: Registry::new() }
    }
}

/// Registers a command that takes an argument string, replacing any command
/// of the same name.
pub fn register_command_with_args<W, N>(registry: &mut CommandRegistry<W, N>, name: &str, command: W)
    requires
        old(registry).wf(),
    ensures
        final(registry).wf(),
        final(registry).view() == old(registry).view().insert(name@, CommandFunction::WithArgs(command)),
{
    registry.commands.insert(name, CommandFunction::WithArgs(command));
}

/// Registers a command that takes no arguments, replacing any command of the
/// same name.
pub fn register_command<W, N>(registry: &mut CommandRegistry<W, N>, name: &str, command: N)
    requires
        old(registry).wf(),
    ensures
        final(registry).wf(),
        final(registry).view() == old(registry).view().insert(name@, CommandFunction::NoArgs(command)),
{
    registry.commands.insert(name, CommandFunction::NoArgs(command));
}

/// How the dispatcher resolved a line.
#[derive(Debug)]
pub enum CommandOutcome<W, N> {
    /// Invoke this command once, with this argument string.
    Run(W, String),
    /// Invoke this command once, without arguments.
    RunNoArgs(N),
    /// No command has this name.
    NotFound(String),
    /// The command takes no arguments, but the line had some.
    ArgumentsNotAccepted(String),
    /// The command needs arguments, but the line had none.
    ArgumentsRequired(String),
}

/// The outcome the dispatcher owes for `line`, given the registered commands.
pub open spec fn dispatch_spec<W, N>(
    commands: Map<Seq<char>, CommandFunction<W, N>>,
    line: Seq<char>,
    r: CommandOutcome<W, N>,
) -> bool {
    let name = command_name(line);
    let args = command_args(line);
    if !commands.contains_key(name) {
        r matches CommandOutcome::NotFound(n) && n@ == name
    } else {
        match commands[name] {
            CommandFunction::WithArgs(f) => match args {
                Some(a) => r matches CommandOutcome::Run(g, s) && g == f && s@ == a,
                None => r matches CommandOutcome::ArgumentsRequired(n) && n@ == name,
            },
            CommandFunction::NoArgs(f) => match args {
                Some(_) => r matches CommandOutcome::ArgumentsNotAccepted(n) && n@ == name,
                None => r == CommandOutcome::<W, N>::RunNoArgs(f),
            },
        }
    }
}

/// Resolves a raw input line: the trimmed line's first word names the
/// command, and the text after the first space is its argument string. The
/// command is handed back for the caller to invoke exactly once; an unknown
/// name or a mismatch of arity is reported instead, and nothing is invoked.
pub fn run_command<W: Copy, N: Copy>(registry: &CommandRegistry<W, N>, command_line: &str) -> (r:
    CommandOutcome<W, N>)
    requires
        registry.wf(),
    ensures
        dispatch_spec(registry.view(), command_line@, r),
{
    let (name, args) = split_command(command_line);
    match registry.commands.get(name.as_str()) {
        None => CommandOutcome::NotFound(name),
        Some(command) => match command {
            CommandFunction::WithArgs(f) => match args {
                Some(a) => CommandOutcome::Run(*f, a),
                None => CommandOutcome::ArgumentsRequired(name),
            },
            CommandFunction::NoArgs(f) => match args {
                Some(_) => CommandOutcome::ArgumentsNotAccepted(name),
                None => CommandOutcome::RunNoArgs(*f),
            },
        },
    }
}

impl<W, N> CommandOutcome<W, N> {
    /// The line to report for this outcome, if it is not a command to run.
    pub fn message(&self) -> (r: Option<String>)
        ensures
            match self {
                CommandOutcome::Run(_, _) => r is None,
                CommandOutcome::RunNoArgs(_) => r is None,
                CommandOutcome::NotFound(n) => r matches Some(m) && m@ == n@ + " not found"@,
                CommandOutcome::ArgumentsNotAccepted(n) => r matches Some(m) && m@ == n@
                    + " does not accept arguments"@,
                CommandOutcome::ArgumentsRequired(n) => r matches Some(m) && m@ == n@
                    + " requires arguments"@,
            },
    {
        match self {
            CommandOutcome::Run(_, _) => None,
            CommandOutcome::RunNoArgs(_) => None,
            CommandOutcome::NotFound(n) => Some(n.clone().concat(" not found")),
            CommandOutcome::ArgumentsNotAccepted(n) => Some(n.clone().concat(" does not accept arguments")),
            CommandOutcome::ArgumentsRequired(n) => Some(n.clone().concat(" requires arguments")),
        }
    }
}

} // verus!
