//! The watch over the connection: when it is checked, when it is renewed, and what follows.
use vstd::prelude::*;

use crate::check;
use crate::check::{CheckAction, CheckOutcome, CheckReport, SingleCheckResult};
use crate::config;
use crate::config::AppConfig;
use crate::logging;
use crate::logging::{LogLevel, LogRecord};
use crate::number;
use crate::reconnect::ReconnectError;
use crate::text;

verus! {

// ---------------------------------------------------------------------------------------------
// What is logged of checks

/// What is logged of the result of a check.
pub open spec fn result_logged(r: check::SingleCheckResultView) -> logging::LogRecordView {
    if r.success {
        logging::LogRecordView {
            level: LogLevel::Info,
            message: "[OK] "@ + r.name + " -> "@ + r.detail,
        }
    } else {
        logging::LogRecordView {
            level: LogLevel::Warn,
            message: "[FAIL] "@ + r.name + " -> "@ + r.detail,
        }
    }
}

/// What is logged of the result of a check.
pub fn log_single_check(result: &SingleCheckResult) -> (r: LogRecord)
    ensures
        r@ == result_logged(result@),
{
    let mut message: String = if result.success {
        "[OK] ".to_owned()
    } else {
        "[FAIL] ".to_owned()
    };
    message.append(result.name.as_str());
    message.append(" -> ");
    message.append(result.detail.as_str());
    let level: LogLevel = if result.success {
        LogLevel::Info
    } else {
        LogLevel::Warn
    };
    LogRecord { level, message }
}

/// What is logged of a report: each of its results, in order.
pub open spec fn report_logged(r: check::CheckReportView) -> Seq<logging::LogRecordView> {
    r.checks.map_values(|c: check::SingleCheckResultView| result_logged(c))
}

/// What is logged of a report.
pub fn log_report(report: &CheckReport) -> (r: Vec<LogRecord>)
    ensures
        logging::record_views(r@) == report_logged(report@),
{
    let ghost all = report_logged(report@);
    let mut out: Vec<LogRecord> = Vec::new();
    let mut i: usize = 0;
    while i < report.checks.len()
        invariant
            i <= report.checks@.len(),
            all == report_logged(report@),
            logging::record_views(out@) =~= all.take(i as int),
        decreases report.checks.len() - i,
    {
        let ghost done = logging::record_views(out@);
        let record: LogRecord = log_single_check(&report.checks[i]);
        assert(all[i as int] == record@);
        out.push(record);
        assert(logging::record_views(out@) =~= done.push(record@));
        i = i + 1;
    }
    assert(all.take(i as int) =~= all);
    out
}

// ---------------------------------------------------------------------------------------------
// A single check

/// What is next in the command `check`.
#[derive(Debug, Clone, PartialEq, Eq)]
pub enum CheckStep {
    /// Ask this of the outside.
    Ask(CheckAction),
    /// Log the record and end with the code.
    End { record: LogRecord, exit_code: u8 },
}

/// What a `CheckStep` holds.
pub enum CheckStepView {
    Ask(check::CheckActionView),
    End { record: logging::LogRecordView, exit_code: u8 },
}

impl View for CheckStep {
    type V = CheckStepView;

    open spec fn view(&self) -> CheckStepView {
        match self {
            CheckStep::Ask(action) => CheckStepView::Ask(action@),
            CheckStep::End { record, exit_code } => CheckStepView::End {
                record: record@,
                exit_code: *exit_code,
            },
        }
    }
}

/// What is next in the command `check`: the primary check is made, once, through the interface;
/// then its result is logged, and the code is zero where it succeeded, else one.
pub open spec fn check_step(
    c: config::AppConfigView,
    interface: Seq<char>,
    outcome: Option<CheckOutcome>,
) -> CheckStepView {
    match outcome {
        None => CheckStepView::Ask(check::action_of(c.monitor.primary_check, interface)),
        Some(o) => {
            let result = check::result_of(c.monitor.primary_check, interface, o);
            CheckStepView::End {
                record: result_logged(result),
                exit_code: if result.success {
                    0
                } else {
                    1
                },
            }
        },
    }
}

/// Tells what is next in the command `check`, from how the primary check went, once it was made.
/// That check is all that the command asks for.
pub fn run_check(config: &AppConfig, interface: &str, outcome: &Option<CheckOutcome>) -> (r:
    CheckStep)
    requires
        *outcome matches Some(o) ==> check::fits(config@.monitor.primary_check, o),
    ensures
        r@ == check_step(config@, interface@, *outcome),
{
    match outcome {
        None => CheckStep::Ask(check::plan_primary_check(config, interface)),
        Some(o) => {
            let result: SingleCheckResult = check::run_primary_check(config, interface, o);
            let exit_code: u8 = if result.success {
                0
            } else {
                1
            };
            CheckStep::End { record: log_single_check(&result), exit_code }
        },
    }
}

// ---------------------------------------------------------------------------------------------
// The watch

/// What the watch waits for.
#[derive(Debug, Clone, Copy, PartialEq, Eq, Structural)]
pub enum MonitorPhase {
    /// The primary check.
    Checking,
    /// The time between two checks.
    Pausing,
    /// The commands that renew the connection.
    Reconnecting,
    /// The time behind these commands.
    Cooling,
    /// The interface, which a reconnect may have changed.
    Searching,
    /// The checks that follow a reconnect.
    Verifying,
}

/// The state of the watch.
#[derive(Debug, Clone, PartialEq, Eq)]
pub struct MonitorState {
    /// The interface that is watched.
    pub interface: String,
    /// How many checks have failed in a row.
    pub consecutive_failures: u32,
    pub phase: MonitorPhase,
}

/// What a `MonitorState` holds.
pub struct MonitorStateView {
    pub interface: Seq<char>,
    pub consecutive_failures: u32,
    pub phase: MonitorPhase,
}

impl View for MonitorState {
    type V = MonitorStateView;

    open spec fn view(&self) -> MonitorStateView {
        MonitorStateView {
            interface: self.interface@,
            consecutive_failures: self.consecutive_failures,
            phase: self.phase,
        }
    }
}

/// What the watch asks for.
#[derive(Debug, Clone, Copy, PartialEq, Eq, Structural)]
pub enum MonitorAction {
    /// Run the primary check.
    Check,
    /// Let so many seconds pass.
    Sleep(u64),
    /// Run the commands that renew the connection.
    Reconnect,
    /// Find the interface.
    Search,
    /// Run the checks that follow a reconnect.
    Verify,
}

/// What came of what the watch asked for.
#[derive(Debug, Clone, PartialEq, Eq)]
pub enum MonitorEvent {
    Checked(SingleCheckResult),
    Paused,
    Reconnected,
    ReconnectFailed(ReconnectError),
    CooledDown,
    /// The interface, where one was found.
    Searched(Option<String>),
    Verified(CheckReport),
}

/// The event is one that the phase waits for.
pub open spec fn awaited(phase: MonitorPhase, event: MonitorEvent) -> bool {
    match phase {
        MonitorPhase::Checking => event is Checked,
        MonitorPhase::Pausing => event is Paused,
        MonitorPhase::Reconnecting => event is Reconnected || event is ReconnectFailed,
        MonitorPhase::Cooling => event is CooledDown,
        MonitorPhase::Searching => event is Searched,
        MonitorPhase::Verifying => event is Verified,
    }
}

/// A step of the watch: the state that follows, what is logged, and what is asked for then.
pub struct MonitorStepView {
    pub state: MonitorStateView,
    pub log: Seq<logging::LogRecordView>,
    pub action: MonitorAction,
}

/// A step of the watch: the state that follows, what is logged, and what is asked for then.
#[derive(Debug, Clone, PartialEq, Eq)]
pub struct MonitorStep {
    pub state: MonitorState,
    pub log: Vec<LogRecord>,
    pub action: MonitorAction,
}

impl View for MonitorStep {
    type V = MonitorStepView;

    open spec fn view(&self) -> MonitorStepView {
        MonitorStepView {
            state: self.state@,
            log: logging::record_views(self.log@),
            action: self.action,
        }
    }
}

/// A record of the log.
pub open spec fn logged(level: LogLevel, message: Seq<char>) -> logging::LogRecordView {
    logging::LogRecordView { level, message }
}

/// How many checks have failed in a row once one more has.
pub open spec fn one_more(failures: u32) -> u32 {
    if failures == u32::MAX {
        failures
    } else {
        (failures + 1) as u32
    }
}

/// What is logged of a check that failed: its result, then how many have failed in a row.
pub open spec fn failure_logged(
    c: config::AppConfigView,
    failures: u32,
    result: check::SingleCheckResultView,
) -> Seq<logging::LogRecordView> {
    seq![
        result_logged(result),
        logged(
            LogLevel::Warn,
            "连续失败次数: "@ + number::decimal(failures as nat) + "/"@ + number::decimal(
                c.general.failure_threshold as nat,
            ),
        ),
    ]
}

/// The step that a check brings. Where it succeeded, the count of failures starts anew; where it
/// failed, the count grows, and once it has reached the threshold the connection is renewed, where
/// there are commands for that.
pub open spec fn step_checked(
    c: config::AppConfigView,
    s: MonitorStateView,
    result: check::SingleCheckResultView,
) -> MonitorStepView {
    let failures = one_more(s.consecutive_failures);
    let pause = MonitorAction::Sleep(c.general.interval_secs);
    if result.success {
        MonitorStepView {
            state: MonitorStateView {
                consecutive_failures: 0,
                phase: MonitorPhase::Pausing,
                ..s
            },
            log: seq![result_logged(result)],
            action: pause,
        }
    } else if failures < c.general.failure_threshold {
        MonitorStepView {
            state: MonitorStateView {
                consecutive_failures: failures,
                phase: MonitorPhase::Pausing,
                ..s
            },
            log: failure_logged(c, failures, result),
            action: pause,
        }
    } else if c.reconnect.commands.len() == 0 {
        MonitorStepView {
            state: MonitorStateView {
                consecutive_failures: 0,
                phase: MonitorPhase::Pausing,
                ..s
            },
            log: failure_logged(c, failures, result).push(
                logged(
                    LogLevel::Error,
                    "reconnect.commands 为空，无法重连。请先执行 detect 或手动填写命令。"@,
                ),
            ),
            action: pause,
        }
    } else {
        MonitorStepView {
            state: MonitorStateView {
                consecutive_failures: failures,
                phase: MonitorPhase::Reconnecting,
                ..s
            },
            log: failure_logged(c, failures, result).push(
                logged(LogLevel::Warn, "开始执行重连命令序列"@),
            ),
            action: MonitorAction::Reconnect,
        }
    }
}

/// The step that the end of the reconnect commands brings: a pause, where one is set, and then
/// the search for the interface.
pub open spec fn step_reconnected(
    c: config::AppConfigView,
    s: MonitorStateView,
) -> MonitorStepView {
    let log = seq![logged(LogLevel::Info, "重连命令执行完成"@)];
    if c.general.reconnect_cooldown_secs > 0 {
        MonitorStepView {
            state: MonitorStateView { phase: MonitorPhase::Cooling, ..s },
            log,
            action: MonitorAction::Sleep(c.general.reconnect_cooldown_secs),
        }
    } else {
        MonitorStepView {
            state: MonitorStateView { phase: MonitorPhase::Searching, ..s },
            log,
            action: MonitorAction::Search,
        }
    }
}

/// The step that the search for the interface brings: the watch goes on with the interface that
/// was found, or with the one it had.
pub open spec fn step_searched(s: MonitorStateView, found: Option<Seq<char>>) -> MonitorStepView {
    if found is Some && found->0 != s.interface {
        MonitorStepView {
            state: MonitorStateView { interface: found->0, phase: MonitorPhase::Verifying, ..s },
            log: seq![logged(LogLevel::Info, "重连后更新网卡为: "@ + found->0)],
            action: MonitorAction::Verify,
        }
    } else {
        MonitorStepView {
            state: MonitorStateView { phase: MonitorPhase::Verifying, ..s },
            log: seq![],
            action: MonitorAction::Verify,
        }
    }
}

/// What is logged once the checks that follow a reconnect have run.
pub open spec fn verdict_logged(all_success: bool) -> logging::LogRecordView {
    if all_success {
        logged(LogLevel::Info, "重连后检测全部成功，恢复主检测循环"@)
    } else {
        logged(LogLevel::Warn, "重连后检测有失败，将继续主循环检测"@)
    }
}

/// The step that follows a reconnect, whatever came of it: the count of failures starts anew.
pub open spec fn step_anew(
    c: config::AppConfigView,
    s: MonitorStateView,
    log: Seq<logging::LogRecordView>,
) -> MonitorStepView {
    MonitorStepView {
        state: MonitorStateView { consecutive_failures: 0, phase: MonitorPhase::Pausing, ..s },
        log,
        action: MonitorAction::Sleep(c.general.interval_secs),
    }
}

/// The step that an event brings.
pub open spec fn step(
    c: config::AppConfigView,
    s: MonitorStateView,
    event: MonitorEvent,
) -> MonitorStepView {
    match event {
        MonitorEvent::Checked(result) => step_checked(c, s, result@),
        MonitorEvent::Paused => MonitorStepView {
            state: MonitorStateView { phase: MonitorPhase::Checking, ..s },
            log: seq![],
            action: MonitorAction::Check,
        },
        MonitorEvent::Reconnected => step_reconnected(c, s),
        MonitorEvent::ReconnectFailed(e) => step_anew(
            c,
            s,
            seq![logged(LogLevel::Error, "重连执行失败: "@ + e@.message())],
        ),
        MonitorEvent::CooledDown => MonitorStepView {
            state: MonitorStateView { phase: MonitorPhase::Searching, ..s },
            log: seq![],
            action: MonitorAction::Search,
        },
        MonitorEvent::Searched(found) => step_searched(s, text::opt_text(found)),
        MonitorEvent::Verified(report) => step_anew(
            c,
            s,
            report_logged(report@).push(verdict_logged(report.all_success)),
        ),
    }
}

/// The first step: the watch over an interface begins with a check.
pub open spec fn first_step(interface: Seq<char>) -> MonitorStepView {
    MonitorStepView {
        state: MonitorStateView {
            interface,
            consecutive_failures: 0,
            phase: MonitorPhase::Checking,
        },
        log: seq![
            logged(LogLevel::Info, "使用 WARP 网卡: "@ + interface),
            logged(LogLevel::Info, "开始监控循环"@),
        ],
        action: MonitorAction::Check,
    }
}

fn record(level: LogLevel, message: &str) -> (r: LogRecord)
    ensures
        r@ == logged(level, message@),
{
    LogRecord { level, message: message.to_owned() }
}

/// Begins the watch over an interface.
pub fn start(interface: String) -> (r: MonitorStep)
    ensures
        r@ == first_step(interface@),
{
    let mut message: String = "使用 WARP 网卡: ".to_owned();
    message.append(interface.as_str());
    let r = MonitorStep {
        log: vec![
            LogRecord { level: LogLevel::Info, message },
            record(LogLevel::Info, "开始监控循环"),
        ],
        state: MonitorState {
            interface,
            consecutive_failures: 0,
            phase: MonitorPhase::Checking,
        },
        action: MonitorAction::Check,
    };
    assert(r@.log =~= first_step(r.state.interface@).log);
    r
}

fn next_checked(config: &AppConfig, state: MonitorState, result: &SingleCheckResult) -> (r:
    MonitorStep)
    ensures
        r@ == step_checked(config@, state@, result@),
{
    let ghost want = step_checked(config@, state@, result@);
    let mut log: Vec<LogRecord> = vec![log_single_check(result)];
    let pause: MonitorAction = MonitorAction::Sleep(config.general.interval_secs);
    if result.success {
        let r = MonitorStep {
            state: MonitorState {
                interface: state.interface,
                consecutive_failures: 0,
                phase: MonitorPhase::Pausing,
            },
            log,
            action: pause,
        };
        assert(r@.log =~= want.log);
        return r;
    }
    let failures: u32 = state.consecutive_failures.saturating_add(1);
    let mut message: String = "连续失败次数: ".to_owned();
    message.append(number::decimal_text(failures as u64).as_str());
    message.append("/");
    message.append(number::decimal_text(config.general.failure_threshold as u64).as_str());
    log.push(LogRecord { level: LogLevel::Warn, message });
    assert(logging::record_views(log@) =~= failure_logged(config@, failures, result@));
    if failures < config.general.failure_threshold {
        return MonitorStep {
            state: MonitorState {
                interface: state.interface,
                consecutive_failures: failures,
                phase: MonitorPhase::Pausing,
            },
            log,
            action: pause,
        };
    }
    assert(config@.reconnect.commands.len() == config.reconnect.commands@.len());
    if config.reconnect.commands.len() == 0 {
        log.push(
            record(
                LogLevel::Error,
                "reconnect.commands 为空，无法重连。请先执行 detect 或手动填写命令。",
            ),
        );
        assert(logging::record_views(log@) =~= want.log);
        return MonitorStep {
            state: MonitorState {
                interface: state.interface,
                consecutive_failures: 0,
                phase: MonitorPhase::Pausing,
            },
            log,
            action: pause,
        };
    }
    log.push(record(LogLevel::Warn, "开始执行重连命令序列"));
    assert(logging::record_views(log@) =~= want.log);
    MonitorStep {
        state: MonitorState {
            interface: state.interface,
            consecutive_failures: failures,
            phase: MonitorPhase::Reconnecting,
        },
        log,
        action: MonitorAction::Reconnect,
    }
}

fn moved(state: MonitorState, phase: MonitorPhase, log: Vec<LogRecord>, action: MonitorAction)
    -> (r: MonitorStep)
    ensures
        r@ == (MonitorStepView {
            state: MonitorStateView { phase, ..state@ },
            log: logging::record_views(log@),
            action,
        }),
{
    MonitorStep {
        state: MonitorState {
            interface: state.interface,
            consecutive_failures: state.consecutive_failures,
            phase,
        },
        log,
        action,
    }
}

fn anew(config: &AppConfig, state: MonitorState, log: Vec<LogRecord>) -> (r: MonitorStep)
    ensures
        r@ == step_anew(config@, state@, logging::record_views(log@)),
{
    MonitorStep {
        state: MonitorState {
            interface: state.interface,
            consecutive_failures: 0,
            phase: MonitorPhase::Pausing,
        },
        log,
        action: MonitorAction::Sleep(config.general.interval_secs),
    }
}

fn next_searched(state: MonitorState, found: Option<String>) -> (r: MonitorStep)
    ensures
        r@ == step_searched(state@, text::opt_text(found)),
{
    let ghost want = step_searched(state@, text::opt_text(found));
    if let Some(name) = found {
        if !text::same(name.as_str(), state.interface.as_str()) {
            let mut message: String = "重连后更新网卡为: ".to_owned();
            message.append(name.as_str());
            let r = MonitorStep {
                state: MonitorState {
                    interface: name,
                    consecutive_failures: state.consecutive_failures,
                    phase: MonitorPhase::Verifying,
                },
                log: vec![LogRecord { level: LogLevel::Info, message }],
                action: MonitorAction::Verify,
            };
            assert(r@.log =~= want.log);
            return r;
        }
    }
    let log: Vec<LogRecord> = Vec::new();
    assert(logging::record_views(log@) =~= seq![]);
    moved(state, MonitorPhase::Verifying, log, MonitorAction::Verify)
}

/// Takes the watch a step further: what follows an event that it waited for.
pub fn advance(config: &AppConfig, state: MonitorState, event: MonitorEvent) -> (r: MonitorStep)
    requires
        awaited(state.phase, event),
    ensures
        r@ == step(config@, state@, event),
{
    let nothing: Vec<LogRecord> = Vec::new();
    assert(logging::record_views(nothing@) =~= seq![]);
    match event {
        MonitorEvent::Checked(result) => next_checked(config, state, &result),
        MonitorEvent::Paused => moved(
            state,
            MonitorPhase::Checking,
            nothing,
            MonitorAction::Check,
        ),
        MonitorEvent::Reconnected => {
            let log: Vec<LogRecord> = vec![record(LogLevel::Info, "重连命令执行完成")];
            assert(logging::record_views(log@) =~= seq![
                logged(LogLevel::Info, "重连命令执行完成"@),
            ]);
            if config.general.reconnect_cooldown_secs > 0 {
                moved(
                    state,
                    MonitorPhase::Cooling,
                    log,
                    MonitorAction::Sleep(config.general.reconnect_cooldown_secs),
                )
            } else {
                moved(state, MonitorPhase::Searching, log, MonitorAction::Search)
            }
        },
        MonitorEvent::ReconnectFailed(e) => {
            let mut message: String = "重连执行失败: ".to_owned();
            message.append(e.message().as_str());
            let log: Vec<LogRecord> = vec![LogRecord { level: LogLevel::Error, message }];
            assert(logging::record_views(log@) =~= seq![
                logged(LogLevel::Error, "重连执行失败: "@ + e@.message()),
            ]);
            anew(config, state, log)
        },
        MonitorEvent::CooledDown => moved(
            state,
            MonitorPhase::Searching,
            nothing,
            MonitorAction::Search,
        ),
        MonitorEvent::Searched(found) => next_searched(state, found),
        MonitorEvent::Verified(report) => {
            let mut log: Vec<LogRecord> = log_report(&report);
            let ghost results = logging::record_views(log@);
            if report.all_success {
                log.push(record(LogLevel::Info, "重连后检测全部成功，恢复主检测循环"));
            } else {
                log.push(record(LogLevel::Warn, "重连后检测有失败，将继续主循环检测"));
            }
            assert(logging::record_views(log@) =~= results.push(
                verdict_logged(report.all_success),
            ));
            anew(config, state, log)
        },
    }
}

// ---------------------------------------------------------------------------------------------
// Laws

impl MonitorStateView {
    /// What holds of the watch at all times: fewer checks than the threshold have failed in a row,
    /// but for the time of a reconnect, when the threshold is reached and there are commands.
    pub open spec fn sound(self, c: config::AppConfigView) -> bool {
        match self.phase {
            MonitorPhase::Checking | MonitorPhase::Pausing => self.consecutive_failures
                < c.general.failure_threshold,
            _ => self.consecutive_failures == c.general.failure_threshold
                && c.reconnect.commands.len() > 0,
        }
    }
}

/// The watch begins sound and stays so, for every configuration that is valid.
pub proof fn watch_stays_sound(
    c: config::AppConfigView,
    interface: Seq<char>,
    s: MonitorStateView,
    event: MonitorEvent,
)
    requires
        c.valid(),
    ensures
        first_step(interface).state.sound(c),
        s.sound(c) && awaited(s.phase, event) ==> step(c, s, event).state.sound(c),
{
}

/// What is asked for fits what is waited for then.
pub proof fn action_fits_the_phase(
    c: config::AppConfigView,
    s: MonitorStateView,
    event: MonitorEvent,
)
    requires
        awaited(s.phase, event),
    ensures
        match step(c, s, event).state.phase {
            MonitorPhase::Checking => step(c, s, event).action == MonitorAction::Check,
            MonitorPhase::Pausing => step(c, s, event).action == MonitorAction::Sleep(
                c.general.interval_secs,
            ),
            MonitorPhase::Reconnecting => step(c, s, event).action == MonitorAction::Reconnect,
            MonitorPhase::Cooling => step(c, s, event).action == MonitorAction::Sleep(
                c.general.reconnect_cooldown_secs,
            ),
            MonitorPhase::Searching => step(c, s, event).action == MonitorAction::Search,
            MonitorPhase::Verifying => step(c, s, event).action == MonitorAction::Verify,
        },
{
}

/// A check that succeeds starts the count of failures anew.
pub proof fn success_resets_the_count(
    c: config::AppConfigView,
    s: MonitorStateView,
    result: check::SingleCheckResultView,
)
    requires
        result.success,
    ensures
        step_checked(c, s, result).state.consecutive_failures == 0,
        step_checked(c, s, result).state.phase == MonitorPhase::Pausing,
{
}

/// The state once each of the checks has failed or succeeded in turn, with a pause behind each.
pub open spec fn after_checks(
    c: config::AppConfigView,
    s: MonitorStateView,
    results: Seq<SingleCheckResult>,
) -> MonitorStateView
    decreases results.len(),
{
    if results.len() == 0 {
        s
    } else {
        let t = after_checks(c, s, results.drop_last());
        step(
            c,
            step(c, t, MonitorEvent::Checked(results.last())).state,
            MonitorEvent::Paused,
        ).state
    }
}

/// The connection is renewed on the failure that makes their number in a row reach the threshold,
/// and on none before: so many checks less one may fail and be followed by a check, and the next
/// failure brings the reconnect, or, where there is no command for it, an error and a new count.
pub proof fn reconnect_comes_at_the_threshold(
    c: config::AppConfigView,
    interface: Seq<char>,
    failed: Seq<SingleCheckResult>,
    next: SingleCheckResult,
)
    requires
        c.valid(),
        failed.len() < c.general.failure_threshold,
        forall|i: int| 0 <= i < failed.len() ==> !(#[trigger] failed[i]).success,
        !next.success,
    ensures
        ({
            let s = after_checks(c, first_step(interface).state, failed);
            let then = step(c, s, MonitorEvent::Checked(next));
            &&& s == (MonitorStateView {
                interface,
                consecutive_failures: failed.len() as u32,
                phase: MonitorPhase::Checking,
            })
            &&& then.action == if failed.len() + 1 == c.general.failure_threshold
                && c.reconnect.commands.len() > 0 {
                MonitorAction::Reconnect
            } else {
                MonitorAction::Sleep(c.general.interval_secs)
            }
            &&& failed.len() + 1 == c.general.failure_threshold && c.reconnect.commands.len() == 0
                ==> then.state.consecutive_failures == 0
        }),
    decreases failed.len(),
{
    if failed.len() > 0 {
        let less = failed.drop_last();
        assert forall|i: int| 0 <= i < less.len() implies !(#[trigger] less[i]).success by {
            assert(!failed[i].success);
        }
        assert(!failed[failed.len() - 1].success);
        reconnect_comes_at_the_threshold(c, interface, less, failed.last());
    }
}

/// The last step of the watch over an interface once it has met the events.
pub open spec fn last_step(
    c: config::AppConfigView,
    interface: Seq<char>,
    events: Seq<MonitorEvent>,
) -> MonitorStepView
    decreases events.len(),
{
    if events.len() == 0 {
        first_step(interface)
    } else {
        step(c, last_step(c, interface, events.drop_last()).state, events.last())
    }
}

/// The events are a history of the watch over an interface: each is one that it waited for.
pub open spec fn is_history(
    c: config::AppConfigView,
    interface: Seq<char>,
    events: Seq<MonitorEvent>,
) -> bool
    decreases events.len(),
{
    events.len() == 0 || {
        &&& is_history(c, interface, events.drop_last())
        &&& awaited(last_step(c, interface, events.drop_last()).state.phase, events.last())
    }
}

/// The event is a check that failed.
pub open spec fn is_failure(event: MonitorEvent) -> bool {
    event matches MonitorEvent::Checked(result) && !result.success
}

/// How many checks have failed since the last one that succeeded or, where that is later, since
/// the last reconnect came to its end.
pub open spec fn failures_in_row(events: Seq<MonitorEvent>) -> nat
    decreases events.len(),
{
    if events.len() == 0 {
        0
    } else {
        match events.last() {
            MonitorEvent::Checked(result) => if result.success {
                0
            } else {
                failures_in_row(events.drop_last()) + 1
            },
            MonitorEvent::ReconnectFailed(_) => 0,
            MonitorEvent::Verified(_) => 0,
            _ => failures_in_row(events.drop_last()),
        }
    }
}

/// Counting on from `n` in rounds of `t`.
proof fn lemma_next_in_round(n: nat, t: nat)
    requires
        t > 0,
    ensures
        n % t < t,
        (n + 1) % t == if n % t + 1 < t {
            n % t + 1
        } else {
            0
        },
{
    let (q, r) = (n as int / t as int, n as int % t as int);
    vstd::arithmetic::div_mod::lemma_fundamental_div_mod(n as int, t as int);
    assert(0 <= r < t) by (nonlinear_arith)
        requires
            t > 0,
            r == n as int % t as int,
    ;
    if r + 1 < t {
        assert(n + 1 == q * t + (r + 1)) by (nonlinear_arith)
            requires
                n == t * q + r,
        ;
        vstd::arithmetic::div_mod::lemma_fundamental_div_mod_converse(
            n as int + 1,
            t as int,
            q,
            r + 1,
        );
    } else {
        assert(n + 1 == (q + 1) * t + 0) by (nonlinear_arith)
            requires
                n == t * q + r,
                r + 1 == t,
        ;
        vstd::arithmetic::div_mod::lemma_fundamental_div_mod_converse(
            n as int + 1,
            t as int,
            q + 1,
            0,
        );
    }
}

/// What holds of the watch after any history, for every configuration that is valid. Where there
/// are commands, the count is that of the checks that failed in a row, and the connection is
/// renewed exactly on the failure that makes it reach the threshold. Where there are none, the
/// connection is never renewed, and the count starts anew each time it would reach the threshold.
pub proof fn reconnect_comes_exactly_at_the_threshold(
    c: config::AppConfigView,
    interface: Seq<char>,
    events: Seq<MonitorEvent>,
)
    requires
        c.valid(),
        is_history(c, interface, events),
    ensures
        ({
            let last = last_step(c, interface, events);
            let n = failures_in_row(events);
            let t = c.general.failure_threshold as nat;
            &&& last.state.sound(c)
            &&& c.reconnect.commands.len() > 0 ==> {
                &&& last.state.consecutive_failures == n <= t
                &&& last.action == MonitorAction::Reconnect <==> events.len() > 0 && is_failure(
                    events.last(),
                ) && n == t
            }
            &&& c.reconnect.commands.len() == 0 ==> {
                &&& last.state.consecutive_failures == n % t
                &&& last.action != MonitorAction::Reconnect
            }
        }),
    decreases events.len(),
{
    let t = c.general.failure_threshold as nat;
    if events.len() > 0 {
        let before = events.drop_last();
        reconnect_comes_exactly_at_the_threshold(c, interface, before);
        let s = last_step(c, interface, before).state;
        watch_stays_sound(c, interface, s, events.last());
        lemma_next_in_round(failures_in_row(before), t);
    }
    vstd::arithmetic::div_mod::lemma_small_mod(0, t);
}

/// Where the primary check is a ping, as it is where the user says nothing, the command `check`
/// sends one ping through the interface, and ends with zero exactly where it was answered.
pub proof fn check_of_a_ping_is_one_ping(
    c: config::AppConfigView,
    interface: Seq<char>,
    target: Seq<char>,
    timeout_secs: u64,
    outcome: crate::command::CommandOutcome,
)
    requires
        c.monitor.primary_check == (config::HealthCheckView::Ping { target, timeout_secs }),
    ensures
        config::default_config().monitor.primary_check is Ping,
        check_step(c, interface, None) == CheckStepView::Ask(
            check::CheckActionView::Run(check::ping_line(target, timeout_secs, interface)),
        ),
        check_step(c, interface, Some(CheckOutcome::Ping(outcome))) is End,
        check_step(c, interface, Some(CheckOutcome::Ping(outcome)))->exit_code
            == if outcome == crate::command::CommandOutcome::Exited(true) {
            0u8
        } else {
            1u8
        },
{
}

/// A reconnect that worked is always followed by the checks that verify it, and whatever comes of
/// a reconnect or of these checks, the count of failures starts anew.
pub proof fn reconnect_is_verified(
    c: config::AppConfigView,
    s: MonitorStateView,
    found: Option<String>,
    report: CheckReport,
    e: ReconnectError,
)
    requires
        s.phase == MonitorPhase::Reconnecting,
    ensures
        ({
            let done = step(c, s, MonitorEvent::Reconnected);
            let cooled = if done.action == MonitorAction::Search {
                done
            } else {
                step(c, done.state, MonitorEvent::CooledDown)
            };
            let searched = step(c, cooled.state, MonitorEvent::Searched(found));
            let verified = step(c, searched.state, MonitorEvent::Verified(report));
            &&& done.action == if c.general.reconnect_cooldown_secs > 0 {
                MonitorAction::Sleep(c.general.reconnect_cooldown_secs)
            } else {
                MonitorAction::Search
            }
            &&& cooled.action == MonitorAction::Search
            &&& searched.action == MonitorAction::Verify
            &&& verified.state.consecutive_failures == 0
            &&& verified.state.phase == MonitorPhase::Pausing
        }),
        step(c, s, MonitorEvent::ReconnectFailed(e)).state.consecutive_failures == 0,
        step(c, s, MonitorEvent::ReconnectFailed(e)).state.phase == MonitorPhase::Pausing,
{
}

/// How far the watch is from its next check.
pub open spec fn steps_to_check(phase: MonitorPhase) -> nat {
    match phase {
        MonitorPhase::Checking => 0,
        MonitorPhase::Pausing => 1,
        MonitorPhase::Verifying => 2,
        MonitorPhase::Searching => 3,
        MonitorPhase::Cooling => 4,
        MonitorPhase::Reconnecting => 5,
    }
}

/// Every step but a check itself brings the next check nearer: the watch always comes back to
/// checking.
pub proof fn watch_comes_back_to_checking(
    c: config::AppConfigView,
    s: MonitorStateView,
    event: MonitorEvent,
)
    requires
        awaited(s.phase, event),
        s.phase != MonitorPhase::Checking,
    ensures
        steps_to_check(step(c, s, event).state.phase) < steps_to_check(s.phase),
{
}

/// The interface changes only to one that a search found.
pub proof fn interface_changes_only_by_a_search(
    c: config::AppConfigView,
    s: MonitorStateView,
    event: MonitorEvent,
)
    ensures
        step(c, s, event).state.interface == match event {
            MonitorEvent::Searched(Some(name)) => name@,
            _ => s.interface,
        },
{
}

/// The command `check` asks for the primary check, of whatever method, once, and then ends: with
/// zero exactly where the check succeeded, else with one, and with the result logged. A ping
/// succeeds exactly where it was answered, a TCP check where the connection was made, a check of a
/// page where its address is one and the response has what is expected of it.
pub proof fn check_ends_by_the_result(
    c: config::AppConfigView,
    interface: Seq<char>,
    outcome: CheckOutcome,
)
    requires
        check::fits(c.monitor.primary_check, outcome),
    ensures
        check_step(c, interface, None) == CheckStepView::Ask(
            check::action_of(c.monitor.primary_check, interface),
        ),
        check_step(c, interface, Some(outcome)) matches CheckStepView::End { record, exit_code } && {
            let result = check::result_of(c.monitor.primary_check, interface, outcome);
            let succeeded = match c.monitor.primary_check {
                config::HealthCheckView::Ping { .. } => outcome == CheckOutcome::Ping(
                    crate::command::CommandOutcome::Exited(true),
                ),
                config::HealthCheckView::Tcp { .. } => outcome == CheckOutcome::Tcp(
                    check::TcpOutcome::Connected,
                ),
                config::HealthCheckView::Http { url, expect_status, expect_contains, .. } => {
                    crate::url::url_of(url) is Ok && (outcome matches CheckOutcome::Http(
                        check::HttpOutcome::Received(raw),
                    ) && crate::http::response_meets(
                        crate::decode::utf8_lossy(raw@),
                        expect_status,
                        expect_contains,
                    ))
                },
            };
            &&& succeeded <==> result.success
            &&& succeeded ==> exit_code == 0
            &&& !succeeded ==> exit_code == 1
            &&& record == result_logged(result)
        },
{
}

/// What is logged of a result tells its name and its detail, as they are: as information where the
/// check succeeded, else as a warning. A report is logged result by result, in order.
pub proof fn results_are_told(r: check::SingleCheckResultView, report: check::CheckReportView)
    ensures
        r.success ==> result_logged(r) == logged(
            LogLevel::Info,
            "[OK] "@ + r.name + " -> "@ + r.detail,
        ),
        !r.success ==> result_logged(r) == logged(
            LogLevel::Warn,
            "[FAIL] "@ + r.name + " -> "@ + r.detail,
        ),
        report_logged(report).len() == report.checks.len(),
        forall|i: int|
            0 <= i < report.checks.len() ==> #[trigger] report_logged(report)[i] == result_logged(
                report.checks[i],
            ),
        forall|level: LogLevel, message: Seq<char>|
            (#[trigger] logged(level, message)).level == level && logged(level, message).message
                == message,
{
}

/// The count grows by one, and stays where it can grow no more.
pub proof fn count_grows_by_one(failures: u32)
    ensures
        failures < u32::MAX ==> one_more(failures) == failures + 1,
        one_more(u32::MAX) == u32::MAX,
{
}

/// The watch begins with a check of the interface it is given, and tells of it.
pub proof fn watch_begins_with_a_check(interface: Seq<char>)
    ensures
        ({
            let first = first_step(interface);
            &&& first.state.interface == interface
            &&& first.state.consecutive_failures == 0
            &&& first.state.phase == MonitorPhase::Checking
            &&& first.action == MonitorAction::Check
            &&& first.log == seq![
                logged(LogLevel::Info, "使用 WARP 网卡: "@ + interface),
                logged(LogLevel::Info, "开始监控循环"@),
            ]
        }),
{
}

/// What follows a check. Its result is always logged first. Where it succeeded, nothing else is,
/// and the count starts anew; where it failed, the count is logged behind it, and below the
/// threshold the watch only pauses. At the threshold the connection is renewed, or, where there is
/// no command for that, an error is logged and the count starts anew.
pub proof fn check_is_followed_up(
    c: config::AppConfigView,
    s: MonitorStateView,
    result: SingleCheckResult,
)
    ensures
        ({
            let next = step(c, s, MonitorEvent::Checked(result));
            let count = one_more(s.consecutive_failures);
            let told = logged(
                LogLevel::Warn,
                "连续失败次数: "@ + number::decimal(count as nat) + "/"@ + number::decimal(
                    c.general.failure_threshold as nat,
                ),
            );
            let pause = MonitorAction::Sleep(c.general.interval_secs);
            &&& next.state.interface == s.interface
            &&& result.success ==> {
                &&& next.log == seq![result_logged(result@)]
                &&& next.action == pause
                &&& next.state.phase == MonitorPhase::Pausing
                &&& next.state.consecutive_failures == 0
            }
            &&& !result.success && count < c.general.failure_threshold ==> {
                &&& next.log == seq![result_logged(result@), told]
                &&& next.action == pause
                &&& next.state.phase == MonitorPhase::Pausing
                &&& next.state.consecutive_failures == count
            }
            &&& !result.success && count >= c.general.failure_threshold
                && c.reconnect.commands.len() == 0 ==> {
                &&& next.log == seq![
                    result_logged(result@),
                    told,
                    logged(
                        LogLevel::Error,
                        "reconnect.commands 为空，无法重连。请先执行 detect 或手动填写命令。"@,
                    ),
                ]
                &&& next.action == pause
                &&& next.state.phase == MonitorPhase::Pausing
                &&& next.state.consecutive_failures == 0
            }
            &&& !result.success && count >= c.general.failure_threshold
                && c.reconnect.commands.len() > 0 ==> {
                &&& next.log == seq![
                    result_logged(result@),
                    told,
                    logged(LogLevel::Warn, "开始执行重连命令序列"@),
                ]
                &&& next.action == MonitorAction::Reconnect
                &&& next.state.phase == MonitorPhase::Reconnecting
                &&& next.state.consecutive_failures == count
            }
        }),
{
    let next = step(c, s, MonitorEvent::Checked(result));
    let count = one_more(s.consecutive_failures);
    if !result.success && count >= c.general.failure_threshold {
        assert(next.log =~= failure_logged(c, count, result@) + seq![next.log[2]]);
        assert(next.log =~= seq![next.log[0], next.log[1], next.log[2]]);
    }
}

/// What follows a reconnect: its end is logged; where a cooldown is set it passes, and then the
/// interface is searched for; a failure is logged with its text, and the count starts anew.
pub proof fn reconnect_is_followed_up(
    c: config::AppConfigView,
    s: MonitorStateView,
    e: ReconnectError,
)
    ensures
        ({
            let done = step(c, s, MonitorEvent::Reconnected);
            let failed = step(c, s, MonitorEvent::ReconnectFailed(e));
            let cooled = step(c, s, MonitorEvent::CooledDown);
            &&& done.state.interface == s.interface
            &&& done.state.consecutive_failures == s.consecutive_failures
            &&& done.log == seq![logged(LogLevel::Info, "重连命令执行完成"@)]
            &&& c.general.reconnect_cooldown_secs > 0 ==> done.action == MonitorAction::Sleep(
                c.general.reconnect_cooldown_secs,
            ) && done.state.phase == MonitorPhase::Cooling
            &&& c.general.reconnect_cooldown_secs == 0 ==> done.action == MonitorAction::Search
                && done.state.phase == MonitorPhase::Searching
            &&& cooled.state.interface == s.interface
            &&& cooled.state.consecutive_failures == s.consecutive_failures
            &&& cooled.state.phase == MonitorPhase::Searching
            &&& cooled.action == MonitorAction::Search
            &&& cooled.log.len() == 0
            &&& failed.state.interface == s.interface
            &&& failed.state.consecutive_failures == 0
            &&& failed.state.phase == MonitorPhase::Pausing
            &&& failed.action == MonitorAction::Sleep(c.general.interval_secs)
            &&& failed.log == seq![logged(LogLevel::Error, "重连执行失败: "@ + e@.message())]
        }),
{
}

/// What follows a search and the checks behind it: an interface that is another than before is
/// taken and told of, and none is no reason to stop; then the checks run, each result is logged,
/// then the verdict, and the count starts anew.
pub proof fn search_is_followed_up(
    c: config::AppConfigView,
    s: MonitorStateView,
    name: String,
    report: CheckReport,
)
    ensures
        ({
            let found = step(c, s, MonitorEvent::Searched(Some(name)));
            let none = step(c, s, MonitorEvent::Searched(None));
            let verified = step(c, s, MonitorEvent::Verified(report));
            let verdict = if report.all_success {
                logged(LogLevel::Info, "重连后检测全部成功，恢复主检测循环"@)
            } else {
                logged(LogLevel::Warn, "重连后检测有失败，将继续主循环检测"@)
            };
            &&& found.action == MonitorAction::Verify && none.action == MonitorAction::Verify
            &&& found.state.phase == MonitorPhase::Verifying && none.state.phase
                == MonitorPhase::Verifying
            &&& found.state.consecutive_failures == s.consecutive_failures
            &&& none.state.consecutive_failures == s.consecutive_failures
            &&& found.state.interface == name@
            &&& none.state.interface == s.interface
            &&& name@ != s.interface ==> found.log == seq![
                logged(LogLevel::Info, "重连后更新网卡为: "@ + name@),
            ]
            &&& name@ == s.interface ==> found.log.len() == 0
            &&& none.log.len() == 0
            &&& verified.log == report_logged(report@) + seq![verdict]
            &&& verified.action == MonitorAction::Sleep(c.general.interval_secs)
            &&& verified.state.phase == MonitorPhase::Pausing
            &&& verified.state.consecutive_failures == 0
            &&& verified.state.interface == s.interface
        }),
{
    let verified = step(c, s, MonitorEvent::Verified(report));
    assert(verified.log =~= report_logged(report@) + seq![verdict_logged(report.all_success)]);
}

/// A pause is followed by the next check, and by nothing else: the count and the interface stay.
pub proof fn pause_is_followed_by_a_check(c: config::AppConfigView, s: MonitorStateView)
    ensures
        ({
            let next = step(c, s, MonitorEvent::Paused);
            &&& next.state.interface == s.interface
            &&& next.state.consecutive_failures == s.consecutive_failures
            &&& next.state.phase == MonitorPhase::Checking
            &&& next.action == MonitorAction::Check
            &&& next.log.len() == 0
        }),
{
}

/// Each phase waits for what was asked for then, and for nothing else.
pub proof fn phases_wait_for_their_events(phase: MonitorPhase, event: MonitorEvent)
    ensures
        awaited(phase, event) <==> match event {
            MonitorEvent::Checked(_) => phase == MonitorPhase::Checking,
            MonitorEvent::Paused => phase == MonitorPhase::Pausing,
            MonitorEvent::Reconnected => phase == MonitorPhase::Reconnecting,
            MonitorEvent::ReconnectFailed(_) => phase == MonitorPhase::Reconnecting,
            MonitorEvent::CooledDown => phase == MonitorPhase::Cooling,
            MonitorEvent::Searched(_) => phase == MonitorPhase::Searching,
            MonitorEvent::Verified(_) => phase == MonitorPhase::Verifying,
        },
{
}

/// A state and a step of the watch, and a step of the command `check`, hold what they are made of.
pub proof fn watch_values_hold_their_parts(
    s: MonitorState,
    next: MonitorStep,
    action: CheckAction,
    record: LogRecord,
    exit_code: u8,
)
    ensures
        s@.interface == s.interface@,
        s@.consecutive_failures == s.consecutive_failures,
        s@.phase == s.phase,
        next@.state == next.state@,
        next@.action == next.action,
        next@.log.len() == next.log@.len(),
        forall|i: int| 0 <= i < next.log@.len() ==> #[trigger] next@.log[i] == next.log@[i]@,
        CheckStep::Ask(action)@ == CheckStepView::Ask(action@),
        (CheckStep::End { record, exit_code })@ == (CheckStepView::End {
            record: record@,
            exit_code,
        }),
{
}

} // verus!
