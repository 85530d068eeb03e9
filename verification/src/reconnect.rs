//! The commands that renew the connection.
use vstd::prelude::*;

use crate::command;
use crate::command::{CommandLine, CommandOutcome};
use crate::config::AppConfig;
use crate::number;
use crate::text;

verus! {

/// Why the connection was not renewed.
#[derive(Debug, Clone, PartialEq, Eq)]
pub enum ReconnectError {
    /// There is no command to run.
    NoCommands,
    /// A command could not be run.
    NotRun { number: usize, command: String, cause: String },
    /// A command ended without success.
    NonZero { number: usize, command: String },
}

/// What a `ReconnectError` holds.
pub enum ReconnectErrorView {
    NoCommands,
    NotRun { number: int, command: Seq<char>, cause: Seq<char> },
    NonZero { number: int, command: Seq<char> },
}

impl View for ReconnectError {
    type V = ReconnectErrorView;

    open spec fn view(&self) -> ReconnectErrorView {
        match self {
            ReconnectError::NoCommands => ReconnectErrorView::NoCommands,
            ReconnectError::NotRun { number, command, cause } => ReconnectErrorView::NotRun {
                number: *number as int,
                command: command@,
                cause: cause@,
            },
            ReconnectError::NonZero { number, command } => ReconnectErrorView::NonZero {
                number: *number as int,
                command: command@,
            },
        }
    }
}

impl ReconnectErrorView {
    /// The text that tells a user of the error and its cause.
    pub open spec fn message(self) -> Seq<char> {
        match self {
            ReconnectErrorView::NoCommands => "`reconnect.commands` 为空，无法执行重连"@,
            ReconnectErrorView::NotRun { number, command, cause } => "执行第 "@ + number::decimal(
                number as nat,
            ) + " 条重连命令失败: `"@ + command + "`: "@ + cause,
            ReconnectErrorView::NonZero { number, command } => "第 "@ + number::decimal(
                number as nat,
            ) + " 条重连命令返回非 0 退出码: `"@ + command + "`"@,
        }
    }
}

impl ReconnectError {
    /// The text that tells a user of the error and its cause.
    pub fn message(&self) -> (r: String)
        ensures
            r@ == self@.message(),
    {
        match self {
            ReconnectError::NoCommands => "`reconnect.commands` 为空，无法执行重连".to_owned(),
            ReconnectError::NotRun { number, command, cause } => {
                let mut s: String = "执行第 ".to_owned();
                s.append(number::decimal_text(*number as u64).as_str());
                s.append(" 条重连命令失败: `");
                s.append(command.as_str());
                s.append("`: ");
                s.append(cause.as_str());
                s
            },
            ReconnectError::NonZero { number, command } => {
                let mut s: String = "第 ".to_owned();
                s.append(number::decimal_text(*number as u64).as_str());
                s.append(" 条重连命令返回非 0 退出码: `");
                s.append(command.as_str());
                s.append("`");
                s
            },
        }
    }
}

/// What is next in renewing the connection.
#[derive(Debug, Clone, PartialEq, Eq)]
pub enum ReconnectStep {
    /// Run a command.
    Run(CommandLine),
    /// Every command ran and succeeded.
    Finished,
    /// The connection was not renewed.
    Failed(ReconnectError),
}

/// What a `ReconnectStep` holds.
pub enum ReconnectStepView {
    Run(command::CommandLineView),
    Finished,
    Failed(ReconnectErrorView),
}

impl View for ReconnectStep {
    type V = ReconnectStepView;

    open spec fn view(&self) -> ReconnectStepView {
        match self {
            ReconnectStep::Run(line) => ReconnectStepView::Run(line@),
            ReconnectStep::Finished => ReconnectStepView::Finished,
            ReconnectStep::Failed(e) => ReconnectStepView::Failed(e@),
        }
    }
}

/// What came of command number `i`, counted from zero.
pub open spec fn command_error(
    commands: Seq<Seq<char>>,
    outcome: CommandOutcome,
    i: int,
) -> Option<ReconnectErrorView> {
    match outcome {
        CommandOutcome::Exited(ok) => if ok {
            None
        } else {
            Some(ReconnectErrorView::NonZero { number: i + 1, command: commands[i] })
        },
        CommandOutcome::Failed(cause) => Some(
            ReconnectErrorView::NotRun { number: i + 1, command: commands[i], cause: cause@ },
        ),
    }
}

/// The first failure among the commands run, from number `i` on.
pub open spec fn first_failure(
    commands: Seq<Seq<char>>,
    outcomes: Seq<CommandOutcome>,
    i: int,
) -> Option<ReconnectErrorView>
    decreases outcomes.len() - i,
{
    if i < 0 || i >= outcomes.len() || i >= commands.len() {
        None
    } else {
        match command_error(commands, outcomes[i], i) {
            Some(e) => Some(e),
            None => first_failure(commands, outcomes, i + 1),
        }
    }
}

/// What is next in renewing the connection, from how the commands run so far went.
pub open spec fn reconnect_step(
    shell: Seq<char>,
    commands: Seq<Seq<char>>,
    outcomes: Seq<CommandOutcome>,
) -> ReconnectStepView {
    if commands.len() == 0 {
        ReconnectStepView::Failed(ReconnectErrorView::NoCommands)
    } else {
        match first_failure(commands, outcomes, 0) {
            Some(e) => ReconnectStepView::Failed(e),
            None => if outcomes.len() < commands.len() {
                ReconnectStepView::Run(
                    command::shell_line(shell, commands[outcomes.len() as int]),
                )
            } else {
                ReconnectStepView::Finished
            },
        }
    }
}

/// Tells what is next in renewing the connection, from how the commands run so far went, in their
/// order.
pub fn execute_reconnect(config: &AppConfig, outcomes: &Vec<CommandOutcome>) -> (r: ReconnectStep)
    ensures
        r@ == reconnect_step(config@.general.shell, config@.reconnect.commands, outcomes@),
{
    let ghost commands = config@.reconnect.commands;
    let n: usize = config.reconnect.commands.len();
    assert(commands.len() == n);
    if n == 0 {
        return ReconnectStep::Failed(ReconnectError::NoCommands);
    }
    let mut i: usize = 0;
    while i < outcomes.len() && i < n
        invariant
            i <= outcomes@.len(),
            i <= n,
            n == config.reconnect.commands@.len(),
            n > 0,
            commands == text::texts(config.reconnect.commands@),
            commands == config@.reconnect.commands,
            first_failure(commands, outcomes@, 0) == first_failure(commands, outcomes@, i as int),
        decreases outcomes.len() - i,
    {
        assert(commands[i as int] == config.reconnect.commands@[i as int]@);
        match &outcomes[i] {
            CommandOutcome::Exited(true) => {},
            CommandOutcome::Exited(false) => {
                return ReconnectStep::Failed(
                    ReconnectError::NonZero {
                        number: i + 1,
                        command: config.reconnect.commands[i].clone(),
                    },
                );
            },
            CommandOutcome::Failed(cause) => {
                return ReconnectStep::Failed(
                    ReconnectError::NotRun {
                        number: i + 1,
                        command: config.reconnect.commands[i].clone(),
                        cause: cause.clone(),
                    },
                );
            },
        }
        i = i + 1;
    }
    if outcomes.len() < n {
        assert(commands[outcomes@.len() as int]
            == config.reconnect.commands@[outcomes@.len() as int]@);
        ReconnectStep::Run(
            command::shell_command(
                config.general.shell.as_str(),
                config.reconnect.commands[outcomes.len()].as_str(),
            ),
        )
    } else {
        ReconnectStep::Finished
    }
}

proof fn lemma_no_failure(commands: Seq<Seq<char>>, outcomes: Seq<CommandOutcome>, i: int)
    requires
        0 <= i,
    ensures
        first_failure(commands, outcomes, i) is None <==> forall|k: int|
            i <= k < outcomes.len() && k < commands.len() ==> #[trigger] outcomes[k]
                == CommandOutcome::Exited(true),
    decreases outcomes.len() - i,
{
    if i < outcomes.len() && i < commands.len() {
        lemma_no_failure(commands, outcomes, i + 1);
        let o = outcomes[i];
        assert(command_error(commands, o, i) is None <==> o == CommandOutcome::Exited(true));
    }
}

/// While every command succeeds the next one is run, in the order of the list and as it is written
/// there, by the shell, and once all have run the connection is renewed.
pub proof fn commands_run_in_order(
    shell: Seq<char>,
    commands: Seq<Seq<char>>,
    outcomes: Seq<CommandOutcome>,
)
    requires
        commands.len() > 0,
        outcomes.len() <= commands.len(),
        forall|k: int|
            0 <= k < outcomes.len() ==> #[trigger] outcomes[k] == CommandOutcome::Exited(true),
    ensures
        reconnect_step(shell, commands, outcomes) == if outcomes.len() < commands.len() {
            ReconnectStepView::Run(command::shell_line(shell, commands[outcomes.len() as int]))
        } else {
            ReconnectStepView::Finished
        },
        outcomes.len() < commands.len() ==> (reconnect_step(shell, commands, outcomes) matches
            ReconnectStepView::Run(line) && {
            &&& line.program == shell
            &&& line.args.len() == 2
            &&& line.args[0] == "-lc"@
            &&& line.args[1] == commands[outcomes.len() as int]
        }),
{
    lemma_no_failure(commands, outcomes, 0);
    if outcomes.len() < commands.len() {
        command::shell_is_given_the_command_as_it_is(shell, commands[outcomes.len() as int]);
    }
}

/// A command that fails ends the reconnect: no further command is run, and the error names the
/// first command that failed.
pub proof fn failure_ends_the_reconnect(
    shell: Seq<char>,
    commands: Seq<Seq<char>>,
    outcomes: Seq<CommandOutcome>,
    i: int,
)
    requires
        0 <= i < outcomes.len(),
        i < commands.len(),
        outcomes[i] != CommandOutcome::Exited(true),
        forall|k: int| 0 <= k < i ==> #[trigger] outcomes[k] == CommandOutcome::Exited(true),
    ensures
        command_error(commands, outcomes[i], i) is Some,
        reconnect_step(shell, commands, outcomes) == ReconnectStepView::Failed(
            command_error(commands, outcomes[i], i)->0,
        ),
        outcomes[i] is Exited ==> reconnect_step(shell, commands, outcomes)
            == ReconnectStepView::Failed(
            ReconnectErrorView::NonZero { number: i + 1, command: commands[i] },
        ),
        outcomes[i] matches CommandOutcome::Failed(cause) ==> reconnect_step(
            shell,
            commands,
            outcomes,
        ) == ReconnectStepView::Failed(
            ReconnectErrorView::NotRun { number: i + 1, command: commands[i], cause: cause@ },
        ),
{
    lemma_failure_from(commands, outcomes, 0, i);
}

proof fn lemma_failure_from(
    commands: Seq<Seq<char>>,
    outcomes: Seq<CommandOutcome>,
    from: int,
    i: int,
)
    requires
        0 <= from <= i < outcomes.len(),
        i < commands.len(),
        outcomes[i] != CommandOutcome::Exited(true),
        forall|k: int| 0 <= k < i ==> #[trigger] outcomes[k] == CommandOutcome::Exited(true),
    ensures
        command_error(commands, outcomes[i], i) is Some,
        first_failure(commands, outcomes, from) == command_error(commands, outcomes[i], i),
    decreases i - from,
{
    if from < i {
        assert(outcomes[from] == CommandOutcome::Exited(true));
        lemma_failure_from(commands, outcomes, from + 1, i);
    }
}

/// The connection is renewed exactly where there are commands and each of them ran and succeeded.
pub proof fn renewed_means_all_succeeded(
    shell: Seq<char>,
    commands: Seq<Seq<char>>,
    outcomes: Seq<CommandOutcome>,
)
    ensures
        reconnect_step(shell, commands, outcomes) is Finished <==> {
            &&& 0 < commands.len() <= outcomes.len()
            &&& forall|k: int|
                0 <= k < commands.len() ==> #[trigger] outcomes[k] == CommandOutcome::Exited(true)
        },
{
    lemma_no_failure(commands, outcomes, 0);
}

/// Without a command nothing is run, and that is the error.
pub proof fn no_command_is_an_error(shell: Seq<char>, outcomes: Seq<CommandOutcome>)
    ensures
        reconnect_step(shell, seq![], outcomes) == ReconnectStepView::Failed(
            ReconnectErrorView::NoCommands,
        ),
{
}

/// The text of an error tells the number of the command, the command as it is written, and the
/// cause where there is one.
pub proof fn reconnect_errors_are_told(n: nat, command: Seq<char>, cause: Seq<char>)
    ensures
        ReconnectErrorView::NoCommands.message() == "`reconnect.commands` 为空，无法执行重连"@,
        (ReconnectErrorView::NotRun { number: n as int, command, cause }).message() == "执行第 "@
            + number::decimal(n) + " 条重连命令失败: `"@ + command + "`: "@ + cause,
        (ReconnectErrorView::NonZero { number: n as int, command }).message() == "第 "@
            + number::decimal(n) + " 条重连命令返回非 0 退出码: `"@ + command + "`"@,
{
}

/// An error of a reconnect, and a step of it, hold what they are made of.
pub proof fn reconnect_values_hold_their_parts(
    n: usize,
    command: String,
    cause: String,
    line: CommandLine,
    e: ReconnectError,
)
    ensures
        ReconnectError::NoCommands@ is NoCommands,
        (ReconnectError::NotRun { number: n, command, cause })@ == (ReconnectErrorView::NotRun {
            number: n as int,
            command: command@,
            cause: cause@,
        }),
        (ReconnectError::NonZero { number: n, command })@ == (ReconnectErrorView::NonZero {
            number: n as int,
            command: command@,
        }),
        ReconnectStep::Run(line)@ == ReconnectStepView::Run(line@),
        ReconnectStep::Finished@ is Finished,
        ReconnectStep::Failed(e)@ == ReconnectStepView::Failed(e@),
{
}

} // verus!
