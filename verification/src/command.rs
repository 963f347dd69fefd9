//! Commands: what is run outside of the library, and what it answers.
use vstd::prelude::*;
use vstd::string::*;

use crate::text::{
    joined, join, optional, quote, quoted, trim, trimmed, utf8_text, views,
};

verus! {

/// A command with its arguments, and where it is run.
#[derive(Debug)]
pub struct CommandSpec {
    pub program: String,
    pub args: Vec<String>,
    pub cwd: Option<String>,
}

pub struct CommandView {
    pub program: Seq<char>,
    pub args: Seq<Seq<char>>,
    pub cwd: Option<Seq<char>>,
}

impl View for CommandSpec {
    type V = CommandView;

    open spec fn view(&self) -> CommandView {
        CommandView {
            program: self.program@,
            args: views(self.args@),
            cwd: optional(self.cwd),
        }
    }
}

impl CommandSpec {
    pub fn new(program: &str) -> (spec: Self)
        ensures
            spec@ == (CommandView { program: program@, args: Seq::empty(), cwd: None }),
    {
        let spec = CommandSpec { program: program.to_owned(), args: Vec::new(), cwd: None };
        assert(spec@.args =~= Seq::empty());
        spec
    }

    /// The command with these arguments behind the ones that it has.
    pub fn with_args(self, args: Vec<String>) -> (spec: Self)
        ensures
            spec@ == (CommandView { args: self@.args + views(args@), ..self@ }),
    {
        let mut args = args;
        let mut all = self.args;
        let ghost first = views(all@);
        let ghost rest = views(args@);
        all.append(&mut args);
        assert(views(all@) =~= first + rest);
        CommandSpec { program: self.program, args: all, cwd: self.cwd }
    }

    /// The command, run in that directory.
    pub fn in_directory(self, directory: &str) -> (spec: Self)
        ensures
            spec@ == (CommandView { cwd: Some(directory@), ..self@ }),
    {
        CommandSpec { program: self.program, args: self.args, cwd: Some(directory.to_owned()) }
    }
}

/// What a command that was run has left behind.
#[derive(Debug)]
pub struct CommandOutput {
    pub exit_code: Option<i32>,
    pub stdout: Vec<u8>,
    pub stderr: Vec<u8>,
}

/// Why a command could not be run.
#[derive(Debug)]
pub enum RunnerError {
    Spawn { program: String, message: String },
}

impl RunnerError {
    pub open spec fn text(self) -> Seq<char> {
        match self {
            RunnerError::Spawn { program, message } => "failed to start "@ + quoted(program@) + ": "@
                + message@,
        }
    }

    pub fn message(&self) -> (text: String)
        ensures
            text@ == self.text(),
    {
        match self {
            RunnerError::Spawn { program, message } => {
                let mut text = "failed to start ".to_owned();
                text.append(quote(program.as_str()).as_str());
                text.append(": ");
                text.append(message.as_str());
                text
            },
        }
    }
}

/// What runs commands.
pub trait CommandRunner {
    /// Which commands it may be asked to run: all, unless it says otherwise. What a function that
    /// takes a runner requires of this bounds the commands that the function runs: it runs no
    /// other.
    open spec fn permits(&self, command: CommandView) -> bool {
        true
    }

    fn run(&self, spec: &CommandSpec) -> Result<CommandOutput, RunnerError>
        requires
            self.permits(spec@),
    ;
}

/// Whether a command only looks at what Git and GitHub hold.
pub open spec fn observes(command: CommandView) -> bool {
    let args = command.args;
    ||| command.program == "git"@ && args.len() > 0 && (args[0] == "rev-parse"@ || args[0]
        == "merge-base"@ || args[0] == "diff"@ || args[0] == "ls-files"@)
    ||| command.program == "git"@ && args.len() > 1 && args[0] == "worktree"@ && args[1] == "list"@
    ||| command.program == "gh"@ && args.len() > 1 && args[0] == "issue"@ && args[1] == "view"@
    ||| command.program == "gh"@ && args.len() > 1 && args[0] == "pr"@ && args[1] == "list"@
}

/// Whether a command only looks up a remote, a head or the rules for names of branches.
pub open spec fn looks_up(command: CommandView) -> bool {
    let args = command.args;
    ||| command.program == "git"@ && args.len() == 3 && args[0] == "remote"@ && args[1]
        == "get-url"@
    ||| command.program == "git"@ && args.len() == 4 && args[0] == "symbolic-ref"@ && args[1]
        == "--quiet"@ && args[2] == "--short"@
    ||| command.program == "git"@ && args.len() == 3 && args[0] == "check-ref-format"@ && args[1]
        == "--branch"@
}

/// Whether a runner may be asked everything that only observes.
pub open spec fn permits_observing<R: CommandRunner>(runner: &R) -> bool {
    forall|command: CommandView| observes(command) ==> #[trigger] runner.permits(command)
}

/// Whether a runner may be asked everything that reads.
pub open spec fn permits_reading<R: CommandRunner>(runner: &R) -> bool {
    forall|command: CommandView|
        observes(command) || looks_up(command) ==> #[trigger] runner.permits(command)
}

/// Whether a runner may answer a command with that result.
pub open spec fn answers<R: CommandRunner>(
    runner: &R,
    command: CommandView,
    result: Result<CommandOutput, RunnerError>,
) -> bool {
    exists|spec: CommandSpec|
        spec@ == command && #[trigger] call_ensures(R::run, (runner, &spec), result)
}

/// A command that is run in a directory.
pub open spec fn command(
    program: Seq<char>,
    args: Seq<Seq<char>>,
    cwd: Seq<char>,
) -> CommandView {
    CommandView { program, args, cwd: Some(cwd) }
}

/// Runs a program in a directory.
pub fn run_in<R: CommandRunner>(
    runner: &R,
    program: &str,
    cwd: &str,
    args: Vec<String>,
) -> (result: Result<CommandOutput, RunnerError>)
    requires
        runner.permits(command(program@, views(args@), cwd@)),
    ensures
        answers(runner, command(program@, views(args@), cwd@), result),
{
    let ghost wanted = command(program@, views(args@), cwd@);
    let spec = CommandSpec::new(program).with_args(args).in_directory(cwd);
    assert(spec@.args =~= wanted.args);
    let result = runner.run(&spec);
    assert(spec@ == wanted);
    result
}

/// The program and its arguments, with a space between each two.
pub open spec fn displayed(program: Seq<char>, args: Seq<Seq<char>>) -> Seq<char> {
    joined(seq![program] + args, " "@)
}

pub fn display_command(program: &str, args: &Vec<String>) -> (text: String)
    ensures
        text@ == displayed(program@, views(args@)),
{
    let mut parts: Vec<String> = Vec::new();
    parts.push(program.to_owned());
    let mut i: usize = 0;
    while i < args.len()
        invariant
            i <= args.len(),
            views(parts@) == seq![program@] + views(args@).take(i as int),
        decreases args.len() - i,
    {
        let ghost done = views(parts@);
        parts.push(args[i].clone());
        i = i + 1;
        assert(views(parts@) =~= done.push(args@[i - 1]@));
        assert(seq![program@] + views(args@).take(i as int) =~= done.push(args@[i - 1]@));
    }
    assert(views(args@).take(i as int) =~= views(args@));
    join(&parts, " ")
}

/// The characters that a command has printed, without white space around them; or a complaint
/// where they are no characters.
pub open spec fn printed(output: Seq<u8>, source: Seq<char>) -> Result<Seq<char>, Seq<char>> {
    if vstd::utf8::valid_utf8(output) {
        Ok(trimmed(vstd::utf8::decode_utf8(output)))
    } else {
        Err(source + " returned non-UTF-8 output"@)
    }
}

/// What a result stands for.
pub open spec fn result_view<T: View, E: View>(result: Result<T, E>) -> Result<T::V, E::V> {
    match result {
        Ok(value) => Ok(value@),
        Err(error) => Err(error@),
    }
}

pub fn text_from_utf8_output(output: &Vec<u8>, source: &str) -> (result: Result<String, String>)
    ensures
        result_view(result) == printed(output@, source@),
{
    match utf8_text(output.as_slice()) {
        Ok(text) => Ok(trim(text.as_str())),
        Err(_) => {
            let mut message = source.to_owned();
            message.append(" returned non-UTF-8 output");
            Err(message)
        },
    }
}

/// The texts of an argument list.
pub fn arguments(args: &Vec<&str>) -> (list: Vec<String>)
    ensures
        views(list@) == views(args@),
{
    let mut list: Vec<String> = Vec::new();
    let mut i: usize = 0;
    while i < args.len()
        invariant
            i <= args.len(),
            views(list@) == views(args@).take(i as int),
        decreases args.len() - i,
    {
        let ghost done = views(list@);
        list.push(args[i].to_owned());
        i = i + 1;
        assert(views(list@) =~= done.push(args@[i - 1]@));
        assert(views(args@).take(i as int) =~= done.push(args@[i - 1]@));
    }
    assert(views(args@).take(i as int) =~= views(args@));
    list
}

} // verus!
