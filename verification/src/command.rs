//! Commands for the operating system to run.
use vstd::prelude::*;

use crate::text;

verus! {

/// A program and its arguments.
#[derive(Debug, Clone, PartialEq, Eq)]
pub struct CommandLine {
    pub program: String,
    pub args: Vec<String>,
}

/// What a `CommandLine` holds.
pub struct CommandLineView {
    pub program: Seq<char>,
    pub args: Seq<Seq<char>>,
}

impl View for CommandLine {
    type V = CommandLineView;

    open spec fn view(&self) -> CommandLineView {
        CommandLineView { program: self.program@, args: text::texts(self.args@) }
    }
}

/// How a command went.
#[derive(Debug, Clone, PartialEq, Eq)]
pub enum CommandOutcome {
    /// It ended, with success or without.
    Exited(bool),
    /// It could not be run.
    Failed(String),
}

impl CommandOutcome {
    /// Whether the command ran and ended with success.
    pub fn succeeded(&self) -> (r: bool)
        ensures
            r == (*self == CommandOutcome::Exited(true)),
    {
        match self {
            CommandOutcome::Exited(ok) => *ok,
            CommandOutcome::Failed(_) => false,
        }
    }
}

/// The command line that has a shell run a command, as a login shell.
pub open spec fn shell_line(shell: Seq<char>, command: Seq<char>) -> CommandLineView {
    CommandLineView { program: shell, args: seq!["-lc"@, command] }
}

/// The command line that has `shell` run `command`, as a login shell.
pub fn shell_command(shell: &str, command: &str) -> (r: CommandLine)
    ensures
        r@ == shell_line(shell@, command@),
{
    let r = CommandLine {
        program: shell.to_owned(),
        args: vec!["-lc".to_owned(), command.to_owned()],
    };
    assert(r@.args =~= seq!["-lc"@, command@]);
    r
}

/// The shell is the program, and is given the command as it is written, whole, as the one thing
/// behind the option that has it run.
pub proof fn shell_is_given_the_command_as_it_is(shell: Seq<char>, command: Seq<char>)
    ensures
        shell_line(shell, command).program == shell,
        shell_line(shell, command).args.len() == 2,
        shell_line(shell, command).args[0] == "-lc"@,
        shell_line(shell, command).args[1] == command,
{
}

/// A command line holds its program and each of its arguments, in order.
pub proof fn command_line_holds_its_parts(line: CommandLine)
    ensures
        line@.program == line.program@,
        line@.args.len() == line.args@.len(),
        forall|i: int| 0 <= i < line.args@.len() ==> #[trigger] line@.args[i] == line.args@[i]@,
{
}

} // verus!
