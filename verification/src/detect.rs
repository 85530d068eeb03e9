//! Which WARP client is installed.
use vstd::prelude::*;

use crate::client::{default_reconnect_commands, WarpClient};
use crate::command;
use crate::command::CommandLine;
use crate::config;
use crate::config::{AppConfig, ConfigError};
use crate::logging;
use crate::logging::{LogLevel, LogRecord};
use crate::text;

verus! {

/// Runs commands and tells which succeed.
pub trait CommandProbe {
    fn command_ok(&self, command: &str) -> bool;
}

/// A probe that has a shell of the system run its commands.
#[derive(Debug, Clone)]
pub struct SystemCommandProbe {
    shell: String,
}

impl View for SystemCommandProbe {
    type V = Seq<char>;

    /// The shell.
    closed spec fn view(&self) -> Seq<char> {
        self.shell@
    }
}

impl SystemCommandProbe {
    /// A probe that has `shell` run its commands.
    pub fn new(shell: String) -> (r: Self)
        ensures
            r@ == shell@,
    {
        SystemCommandProbe { shell }
    }

    /// The command line by which the probe runs a command.
    pub fn command_line(&self, command: &str) -> (r: CommandLine)
        ensures
            r@ == command::shell_line(self@, command@),
    {
        command::shell_command(self.shell.as_str(), command)
    }
}

// ---------------------------------------------------------------------------------------------
// Detection

/// How many commands tell the clients apart.
pub const PROBES: usize = 8;

/// The commands that tell the clients apart, in the order in which they are tried.
pub open spec fn probe_command(k: int) -> &'static str {
    if k == 0 {
        "systemctl is-active --quiet warp-svc"
    } else if k == 1 {
        "warp-cli --accept-tos status 2>/dev/null | grep -qi Connected"
    } else if k == 2 {
        "command -v warp >/dev/null 2>&1"
    } else if k == 3 {
        "systemctl is-active --quiet wg-quick@warp"
    } else if k == 4 {
        "wg show warp >/dev/null 2>&1"
    } else if k == 5 {
        "command -v warp-go >/dev/null 2>&1"
    } else if k == 6 {
        "systemctl is-active --quiet warp-go"
    } else {
        "pgrep -x warp-go >/dev/null 2>&1"
    }
}

/// The client that is installed where a command succeeds.
pub open spec fn probe_client(k: int) -> WarpClient {
    if k < 2 {
        WarpClient::WarpOfficial
    } else if k < 5 {
        WarpClient::WarpWg
    } else {
        WarpClient::WarpGo
    }
}

fn command_at(k: usize) -> (r: &'static str)
    ensures
        r == probe_command(k as int),
{
    match k {
        0 => "systemctl is-active --quiet warp-svc",
        1 => "warp-cli --accept-tos status 2>/dev/null | grep -qi Connected",
        2 => "command -v warp >/dev/null 2>&1",
        3 => "systemctl is-active --quiet wg-quick@warp",
        4 => "wg show warp >/dev/null 2>&1",
        5 => "command -v warp-go >/dev/null 2>&1",
        6 => "systemctl is-active --quiet warp-go",
        _ => "pgrep -x warp-go >/dev/null 2>&1",
    }
}

fn client_at(k: usize) -> (r: WarpClient)
    ensures
        r == probe_client(k as int),
{
    if k < 2 {
        WarpClient::WarpOfficial
    } else if k < 5 {
        WarpClient::WarpWg
    } else {
        WarpClient::WarpGo
    }
}

/// The client that the answers from number `k` on tell: that of the first command that succeeded.
pub open spec fn told_client(answers: Seq<bool>, k: int) -> Option<WarpClient>
    decreases answers.len() - k,
{
    if k < 0 || k >= answers.len() || k >= PROBES {
        None
    } else if answers[k] {
        Some(probe_client(k))
    } else {
        told_client(answers, k + 1)
    }
}

/// The client that the answers to the commands tell: that of the first command that succeeded.
pub fn client_from_answers(answers: &Vec<bool>) -> (r: Option<WarpClient>)
    ensures
        r == told_client(answers@, 0),
{
    let mut k: usize = 0;
    while k < answers.len() && k < PROBES
        invariant
            k <= answers@.len(),
            told_client(answers@, 0) == told_client(answers@, k as int),
        decreases answers.len() - k,
    {
        if answers[k] {
            return Some(client_at(k));
        }
        k = k + 1;
    }
    None
}

/// The probe may give the answer to the command.
pub open spec fn answered<P: CommandProbe + ?Sized>(probe: &P, command: &str, ok: bool) -> bool {
    call_ensures(P::command_ok, (probe, command), ok)
}

/// The answers are those of the probe to the commands, asked in order until one succeeds.
pub open spec fn asked<P: CommandProbe + ?Sized>(probe: &P, answers: Seq<bool>) -> bool {
    &&& answers.len() <= PROBES
    &&& forall|k: int|
        0 <= k < answers.len() ==> answered(probe, probe_command(k), #[trigger] answers[k])
    &&& forall|k: int| 0 <= k < answers.len() - 1 ==> !#[trigger] answers[k]
    &&& answers.len() < PROBES ==> answers.len() > 0 && answers.last()
}

/// Finds out which client is installed: the official one before the WireGuard one, and that
/// before warp-go. Commands are asked of the probe in order, up to the first that succeeds.
pub fn detect_client_builtin<P: CommandProbe + ?Sized>(probe: &P) -> (r: Option<WarpClient>)
    ensures
        exists|answers: Seq<bool>| #[trigger]
            asked(probe, answers) && r == told_client(answers, 0),
{
    let mut answers: Vec<bool> = Vec::new();
    let mut k: usize = 0;
    while k < PROBES
        invariant
            k <= PROBES,
            answers@.len() == k,
            forall|i: int|
                0 <= i < k ==> answered(probe, probe_command(i), #[trigger] answers@[i]),
            forall|i: int| 0 <= i < k ==> !#[trigger] answers@[i],
        decreases PROBES - k,
    {
        let ok: bool = probe.command_ok(command_at(k));
        assert(answered(probe, probe_command(k as int), ok));
        answers.push(ok);
        if ok {
            assert(asked(probe, answers@));
            return client_from_answers(&answers);
        }
        k = k + 1;
    }
    assert(asked(probe, answers@));
    client_from_answers(&answers)
}

/// The configuration once the detection is written down: the client and its commands, or neither
/// where no client was found; everything else as it was.
pub open spec fn with_client(
    c: config::AppConfigView,
    detected: Option<WarpClient>,
) -> config::AppConfigView {
    config::AppConfigView {
        reconnect: config::ReconnectConfigView {
            warp_client: detected,
            commands: match detected {
                Some(client) => client.commands(),
                None => seq![],
            },
        },
        ..c
    }
}

/// Writes a detection down in the configuration.
pub fn apply_detection(config: &mut AppConfig, detected: Option<WarpClient>)
    ensures
        final(config)@ == with_client(old(config)@, detected),
{
    match detected {
        Some(client) => {
            config.reconnect.warp_client = Some(client);
            config.reconnect.commands = default_reconnect_commands(client);
        },
        None => {
            config.reconnect.warp_client = None;
            config.reconnect.commands = Vec::new();
            assert(text::texts(config.reconnect.commands@) =~= seq![]);
        },
    }
}

/// The probe that detection asks: one that has the shell of the configuration run its commands.
pub fn config_probe(config: &AppConfig) -> (r: SystemCommandProbe)
    ensures
        r@ == config@.general.shell,
{
    SystemCommandProbe::new(config.general.shell.clone())
}

/// `detected` may come of asking, in order until one succeeds, the commands of a probe that `run`
/// makes of one that has `shell` run them.
pub open spec fn may_detect<P: CommandProbe, F: FnOnce(SystemCommandProbe) -> P>(
    run: F,
    shell: Seq<char>,
    detected: Option<WarpClient>,
) -> bool {
    exists|system: SystemCommandProbe, probe: P, answers: Seq<bool>|
        {
            &&& system@ == shell
            &&& #[trigger] call_ensures(run, (system,), probe)
            &&& #[trigger] asked(&probe, answers)
            &&& detected == told_client(answers, 0)
        }
}

/// Finds out which client is installed, with the shell of the configuration, and writes it down in
/// the configuration, which must be valid to be kept. `run` is given the probe that knows the shell,
/// and makes of it the one that is asked, which runs the commands.
pub fn detect_client_now<P: CommandProbe, F: FnOnce(SystemCommandProbe) -> P>(
    run: F,
    config: &mut AppConfig,
) -> (r: Result<Option<WarpClient>, ConfigError>)
    requires
        forall|system: SystemCommandProbe|
            system@ == old(config)@.general.shell ==> call_requires(run, (system,)),
    ensures
        final(config)@.general == old(config)@.general,
        final(config)@.monitor == old(config)@.monitor,
        final(config)@.reconnect_verify == old(config)@.reconnect_verify,
        exists|detected: Option<WarpClient>| #[trigger]
            may_detect(run, old(config)@.general.shell, detected) && {
                &&& final(config)@ == with_client(old(config)@, detected)
                &&& match r {
                    Ok(client) => client == detected && final(config)@.valid(),
                    Err(e) => config::config_fault(final(config)@) == Some(e@),
                }
            },
{
    let system: SystemCommandProbe = config_probe(config);
    let ghost given = system;
    let probe: P = run(system);
    let detected: Option<WarpClient> = detect_client_builtin(&probe);
    assert(may_detect(run, old(config)@.general.shell, detected)) by {
        assert(call_ensures(run, (given,), probe));
    }
    apply_detection(config, detected);
    match config.validate() {
        Ok(_) => Ok(detected),
        Err(e) => Err(e),
    }
}

/// What is logged of a detection.
pub open spec fn detection_logged(detected: Option<WarpClient>) -> logging::LogRecordView {
    match detected {
        Some(client) => logging::LogRecordView {
            level: LogLevel::Info,
            message: "识别到客户端: "@ + client.name() + "，已写入 reconnect.commands"@,
        },
        None => logging::LogRecordView {
            level: LogLevel::Warn,
            message: "未识别到客户端，已清空 reconnect.commands，请手动填写"@,
        },
    }
}

/// What is logged of a detection.
pub fn detection_record(detected: Option<WarpClient>) -> (r: LogRecord)
    ensures
        r@ == detection_logged(detected),
{
    match detected {
        Some(client) => {
            let mut message: String = "识别到客户端: ".to_owned();
            message.append(client.to_string().as_str());
            message.append("，已写入 reconnect.commands");
            LogRecord { level: LogLevel::Info, message }
        },
        None => LogRecord {
            level: LogLevel::Warn,
            message: "未识别到客户端，已清空 reconnect.commands，请手动填写".to_owned(),
        },
    }
}

// ---------------------------------------------------------------------------------------------
// Laws

/// The official client is told wherever one of its commands succeeds; else the WireGuard one
/// wherever one of its does; else warp-go wherever one of its does; else none.
pub proof fn detection_order(answers: Seq<bool>)
    requires
        answers.len() == PROBES,
    ensures
        told_client(answers, 0) == if answers[0] || answers[1] {
            Some(WarpClient::WarpOfficial)
        } else if answers[2] || answers[3] || answers[4] {
            Some(WarpClient::WarpWg)
        } else if answers[5] || answers[6] || answers[7] {
            Some(WarpClient::WarpGo)
        } else {
            None
        },
{
    reveal_with_fuel(told_client, 10);
}

/// Answers behind the first success do not matter: what is told when asking stops there is what
/// all the answers would have told.
pub proof fn asking_stops_at_the_first_success(all: Seq<bool>, n: int)
    requires
        all.len() == PROBES,
        0 < n <= PROBES,
        all[n - 1],
    ensures
        told_client(all.take(n), 0) == told_client(all, 0),
{
    lemma_told_from(all, n, 0);
}

proof fn lemma_told_from(all: Seq<bool>, n: int, k: int)
    requires
        all.len() == PROBES,
        0 < n <= PROBES,
        all[n - 1],
        0 <= k < n,
    ensures
        told_client(all.take(n), k) == told_client(all, k),
    decreases n - k,
{
    assert(all.take(n)[k] == all[k]);
    if !all[k] {
        lemma_told_from(all, n, k + 1);
    }
}

/// A detection changes nothing but what it writes down, does not touch the validity of the
/// configuration, and written down twice is as written down once.
pub proof fn detection_keeps_the_rest(
    c: config::AppConfigView,
    detected: Option<WarpClient>,
    again: Option<WarpClient>,
)
    ensures
        with_client(c, detected).general == c.general,
        with_client(c, detected).monitor == c.monitor,
        with_client(c, detected).reconnect_verify == c.reconnect_verify,
        config::config_fault(with_client(c, detected)) == config::config_fault(c),
        with_client(with_client(c, detected), again) == with_client(c, again),
{
}

/// Where a client was found there are commands to reconnect it with; where none was, there are
/// none.
pub proof fn detection_brings_commands(c: config::AppConfigView, detected: Option<WarpClient>)
    ensures
        with_client(c, detected).reconnect.warp_client == detected,
        with_client(c, detected).reconnect.commands.len() > 0 <==> detected is Some,
{
}

/// The commands that are asked, in order.
pub proof fn commands_of_detection()
    ensures
        probe_command(0)@ == "systemctl is-active --quiet warp-svc"@,
        probe_command(1)@ == "warp-cli --accept-tos status 2>/dev/null | grep -qi Connected"@,
        probe_command(2)@ == "command -v warp >/dev/null 2>&1"@,
        probe_command(3)@ == "systemctl is-active --quiet wg-quick@warp"@,
        probe_command(4)@ == "wg show warp >/dev/null 2>&1"@,
        probe_command(5)@ == "command -v warp-go >/dev/null 2>&1"@,
        probe_command(6)@ == "systemctl is-active --quiet warp-go"@,
        probe_command(7)@ == "pgrep -x warp-go >/dev/null 2>&1"@,
        PROBES == 8,
{
}

/// A probe that answers by the command alone, as `ok` tells, has the official client told where one
/// of its two commands succeeds; else the WireGuard one where one of its three does; else warp-go
/// where one of its three does; else none.
pub proof fn detection_goes_by_the_commands<P: CommandProbe + ?Sized>(
    probe: &P,
    ok: spec_fn(Seq<char>) -> bool,
    answers: Seq<bool>,
)
    requires
        forall|command: &str, r: bool|
            call_ensures(P::command_ok, (probe, command), r) ==> r == ok(command@),
        asked(probe, answers),
    ensures
        told_client(answers, 0) == if ok("systemctl is-active --quiet warp-svc"@) || ok(
            "warp-cli --accept-tos status 2>/dev/null | grep -qi Connected"@,
        ) {
            Some(WarpClient::WarpOfficial)
        } else if ok("command -v warp >/dev/null 2>&1"@) || ok(
            "systemctl is-active --quiet wg-quick@warp"@,
        ) || ok("wg show warp >/dev/null 2>&1"@) {
            Some(WarpClient::WarpWg)
        } else if ok("command -v warp-go >/dev/null 2>&1"@) || ok(
            "systemctl is-active --quiet warp-go"@,
        ) || ok("pgrep -x warp-go >/dev/null 2>&1"@) {
            Some(WarpClient::WarpGo)
        } else {
            None
        },
{
    let all = Seq::new(8, |k: int| ok(probe_command(k)@));
    let n = answers.len() as int;
    assert forall|k: int| 0 <= k < n implies #[trigger] answers[k] == all[k] by {
        assert(answered(probe, probe_command(k), answers[k]));
    }
    assert(answers =~= all.take(n));
    detection_order(all);
    if n < PROBES {
        asking_stops_at_the_first_success(all, n);
    } else {
        assert(all.take(n) =~= all);
    }
    assert(all[0] == ok(probe_command(0)@) && all[1] == ok(probe_command(1)@) && all[2] == ok(
        probe_command(2)@,
    ) && all[3] == ok(probe_command(3)@) && all[4] == ok(probe_command(4)@) && all[5] == ok(
        probe_command(5)@,
    ) && all[6] == ok(probe_command(6)@) && all[7] == ok(probe_command(7)@));
}

/// The commands are asked one by one, each as it is written, and none behind the first that
/// succeeds; where none does, all of them are.
pub proof fn asking_ends_with_a_success_or_the_list<P: CommandProbe + ?Sized>(
    probe: &P,
    answers: Seq<bool>,
)
    requires
        asked(probe, answers),
    ensures
        0 < answers.len() <= 8,
        forall|k: int|
            0 <= k < answers.len() ==> call_ensures(
                P::command_ok,
                (probe, probe_command(k)),
                #[trigger] answers[k],
            ),
        forall|k: int| 0 <= k < answers.len() && #[trigger] answers[k] ==> k == answers.len() - 1,
        answers.len() < 8 ==> answers.last(),
{
    assert forall|k: int| 0 <= k < answers.len() implies call_ensures(
        P::command_ok,
        (probe, probe_command(k)),
        #[trigger] answers[k],
    ) by {
        assert(answered(probe, probe_command(k), answers[k]));
    }
}

/// A detection writes down the commands of the client that was found, or clears them.
pub proof fn detection_writes_down_the_commands(c: config::AppConfigView, client: WarpClient)
    ensures
        with_client(c, Some(client)).reconnect.commands == client.commands(),
        with_client(c, Some(client)).reconnect.warp_client == Some(client),
        with_client(c, None).reconnect.commands.len() == 0,
        with_client(c, None).reconnect.warp_client is None,
{
}

/// What is logged of a detection tells the client by its name, or that there is none.
pub proof fn detection_is_told(client: WarpClient)
    ensures
        detection_logged(Some(client)).level == LogLevel::Info,
        detection_logged(Some(client)).message == "识别到客户端: "@ + client.name()
            + "，已写入 reconnect.commands"@,
        detection_logged(None).level == LogLevel::Warn,
        detection_logged(None).message == "未识别到客户端，已清空 reconnect.commands，请手动填写"@,
{
}

/// What is detected goes by what the shell makes of the commands: where a probe answers by its
/// shell and the command alone, as `ok` tells, it goes by the answers of that one shell.
pub proof fn detection_goes_by_the_shell<P: CommandProbe, F: FnOnce(SystemCommandProbe) -> P>(
    run: F,
    shell: Seq<char>,
    ok: spec_fn(Seq<char>, Seq<char>) -> bool,
    detected: Option<WarpClient>,
)
    requires
        forall|system: SystemCommandProbe, probe: P, command: &str, r: bool|
            call_ensures(run, (system,), probe) && call_ensures(
                P::command_ok,
                (&probe, command),
                r,
            ) ==> r == ok(system@, command@),
        may_detect(run, shell, detected),
    ensures
        detected == if ok(shell, "systemctl is-active --quiet warp-svc"@) || ok(
            shell,
            "warp-cli --accept-tos status 2>/dev/null | grep -qi Connected"@,
        ) {
            Some(WarpClient::WarpOfficial)
        } else if ok(shell, "command -v warp >/dev/null 2>&1"@) || ok(
            shell,
            "systemctl is-active --quiet wg-quick@warp"@,
        ) || ok(shell, "wg show warp >/dev/null 2>&1"@) {
            Some(WarpClient::WarpWg)
        } else if ok(shell, "command -v warp-go >/dev/null 2>&1"@) || ok(
            shell,
            "systemctl is-active --quiet warp-go"@,
        ) || ok(shell, "pgrep -x warp-go >/dev/null 2>&1"@) {
            Some(WarpClient::WarpGo)
        } else {
            None
        },
{
    let (system, probe, answers) = choose|
        system: SystemCommandProbe,
        probe: P,
        answers: Seq<bool>,
    |
        {
            &&& system@ == shell
            &&& #[trigger] call_ensures(run, (system,), probe)
            &&& #[trigger] asked(&probe, answers)
            &&& detected == told_client(answers, 0)
        };
    let one = |command: Seq<char>| ok(shell, command);
    detection_goes_by_the_commands(&probe, one, answers);
}

proof fn lemma_told_at(answers: Seq<bool>, from: int, k: int)
    requires
        0 <= from <= k <= answers.len(),
        k <= PROBES,
        forall|i: int| from <= i < k ==> !#[trigger] answers[i],
    ensures
        told_client(answers, from) == told_client(answers, k),
    decreases k - from,
{
    if from < k {
        assert(!answers[from]);
        lemma_told_at(answers, from + 1, k);
    }
}

/// The first command that succeeds tells the client, whatever is answered behind it, and however
/// many answers there are: the first two tell the official one, the next three the WireGuard one,
/// the last three warp-go. Where none of them succeeds, no client is told.
pub proof fn first_success_tells_the_client(answers: Seq<bool>, k: int)
    requires
        0 <= k <= 8,
        k <= answers.len(),
        forall|i: int| 0 <= i < k ==> !#[trigger] answers[i],
    ensures
        k < answers.len() && k < 8 && answers[k] ==> told_client(answers, 0) == if k < 2 {
            Some(WarpClient::WarpOfficial)
        } else if k < 5 {
            Some(WarpClient::WarpWg)
        } else {
            Some(WarpClient::WarpGo)
        },
        k == answers.len() || k == 8 ==> told_client(answers, 0) is None,
{
    lemma_told_at(answers, 0, k);
}

} // verus!
