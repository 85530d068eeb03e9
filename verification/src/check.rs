//! The checks of the connection: what each asks of the outside, and what is made of the answer.
use vstd::pervasive::unreached;
use vstd::prelude::*;

use crate::command;
use crate::command::{CommandLine, CommandOutcome};
use crate::config;
use crate::config::{AppConfig, HealthCheck};
use crate::decode;
use crate::http;
use crate::number;
use crate::text;
use crate::url;

verus! {

// ---------------------------------------------------------------------------------------------
// Results

/// What came of one check.
#[derive(Debug, Clone, PartialEq, Eq)]
pub struct SingleCheckResult {
    pub name: String,
    pub success: bool,
    pub detail: String,
}

/// What a `SingleCheckResult` holds.
pub struct SingleCheckResultView {
    pub name: Seq<char>,
    pub success: bool,
    pub detail: Seq<char>,
}

impl View for SingleCheckResult {
    type V = SingleCheckResultView;

    open spec fn view(&self) -> SingleCheckResultView {
        SingleCheckResultView { name: self.name@, success: self.success, detail: self.detail@ }
    }
}

/// What a list of results holds.
pub open spec fn result_views(v: Seq<SingleCheckResult>) -> Seq<SingleCheckResultView> {
    v.map_values(|r: SingleCheckResult| r@)
}

/// What came of a list of checks.
#[derive(Debug, Clone, PartialEq, Eq)]
pub struct CheckReport {
    pub all_success: bool,
    pub checks: Vec<SingleCheckResult>,
}

/// What a `CheckReport` holds.
pub struct CheckReportView {
    pub all_success: bool,
    pub checks: Seq<SingleCheckResultView>,
}

impl View for CheckReport {
    type V = CheckReportView;

    open spec fn view(&self) -> CheckReportView {
        CheckReportView { all_success: self.all_success, checks: result_views(self.checks@) }
    }
}

// ---------------------------------------------------------------------------------------------
// What a check asks, and what it is answered

/// What a check asks of the outside.
#[derive(Debug, Clone, PartialEq, Eq)]
pub enum CheckAction {
    /// Run a command and look at how it ends.
    Run(CommandLine),
    /// Open a TCP connection.
    Connect { host: String, port: u16, timeout_secs: u64 },
    /// Open a TCP connection, send the request, and read up to the end of the response.
    Exchange { host: String, port: u16, timeout_secs: u64, request: String },
    /// Nothing: the address of the page is none.
    Nothing,
}

/// What a `CheckAction` holds.
pub enum CheckActionView {
    Run(command::CommandLineView),
    Connect { host: Seq<char>, port: u16, timeout_secs: u64 },
    Exchange { host: Seq<char>, port: u16, timeout_secs: u64, request: Seq<char> },
    Nothing,
}

impl View for CheckAction {
    type V = CheckActionView;

    open spec fn view(&self) -> CheckActionView {
        match self {
            CheckAction::Run(line) => CheckActionView::Run(line@),
            CheckAction::Connect { host, port, timeout_secs } => CheckActionView::Connect {
                host: host@,
                port: *port,
                timeout_secs: *timeout_secs,
            },
            CheckAction::Exchange { host, port, timeout_secs, request } =>
                CheckActionView::Exchange {
                host: host@,
                port: *port,
                timeout_secs: *timeout_secs,
                request: request@,
            },
            CheckAction::Nothing => CheckActionView::Nothing,
        }
    }
}

/// How a TCP connection went.
#[derive(Debug, Clone, PartialEq, Eq)]
pub enum TcpOutcome {
    Connected,
    Failed(String),
}

/// How far a request of HTTP came.
#[derive(Debug, Clone, PartialEq, Eq)]
pub enum HttpOutcome {
    /// There was no address to ask.
    NotStarted,
    ConnectFailed(String),
    SendFailed(String),
    /// The time limit for reading could not be set.
    TimeoutFailed(String),
    ReadFailed(String),
    /// The bytes of the response.
    Received(Vec<u8>),
}

/// How a check went.
#[derive(Debug, Clone, PartialEq, Eq)]
pub enum CheckOutcome {
    Ping(CommandOutcome),
    Tcp(TcpOutcome),
    Http(HttpOutcome),
}

/// The command line of a ping: one packet, with a time limit, through the interface.
pub open spec fn ping_line(
    target: Seq<char>,
    timeout_secs: u64,
    interface: Seq<char>,
) -> command::CommandLineView {
    command::CommandLineView {
        program: "ping"@,
        args: seq![
            "-c"@,
            "1"@,
            "-W"@,
            number::decimal(timeout_secs as nat),
            "-I"@,
            interface,
            target,
        ],
    }
}

/// The command line of a ping.
pub fn ping_command(target: &str, timeout_secs: u64, interface: &str) -> (r: CommandLine)
    ensures
        r@ == ping_line(target@, timeout_secs, interface@),
{
    let r = CommandLine {
        program: "ping".to_owned(),
        args: vec![
            "-c".to_owned(),
            "1".to_owned(),
            "-W".to_owned(),
            number::decimal_text(timeout_secs),
            "-I".to_owned(),
            interface.to_owned(),
            target.to_owned(),
        ],
    };
    assert(r@.args =~= ping_line(target@, timeout_secs, interface@).args);
    r
}

/// What a check asks of the outside.
pub open spec fn action_of(
    c: config::HealthCheckView,
    interface: Seq<char>,
) -> CheckActionView {
    match c {
        config::HealthCheckView::Ping { target, timeout_secs } => CheckActionView::Run(
            ping_line(target, timeout_secs, interface),
        ),
        config::HealthCheckView::Tcp { target, port, timeout_secs } => CheckActionView::Connect {
            host: target,
            port,
            timeout_secs,
        },
        config::HealthCheckView::Http { url, timeout_secs, .. } => match url::url_of(url) {
            Ok(u) => CheckActionView::Exchange {
                host: u.host,
                port: u.port,
                timeout_secs,
                request: http::request_text(u),
            },
            Err(_) => CheckActionView::Nothing,
        },
    }
}

/// What a check asks of the outside.
pub fn plan_health_check(check: &HealthCheck, interface: &str) -> (r: CheckAction)
    ensures
        r@ == action_of(check@, interface@),
{
    match check {
        HealthCheck::Ping { target, timeout_secs } => CheckAction::Run(
            ping_command(target.as_str(), *timeout_secs, interface),
        ),
        HealthCheck::Tcp { target, port, timeout_secs } => CheckAction::Connect {
            host: target.clone(),
            port: *port,
            timeout_secs: *timeout_secs,
        },
        HealthCheck::Http { url, timeout_secs, .. } => {
            match url::parse_http_url(url.as_str()) {
                Ok(u) => {
                    let request: String = http::build_request(&u);
                    CheckAction::Exchange {
                        host: u.host,
                        port: u.port,
                        timeout_secs: *timeout_secs,
                        request,
                    }
                },
                Err(_) => CheckAction::Nothing,
            }
        },
    }
}

/// What the primary check asks of the outside. It is the check that the watch makes again and
/// again, and that the command `check` makes once, whatever its method is.
pub fn plan_primary_check(config: &AppConfig, interface: &str) -> (r: CheckAction)
    ensures
        r@ == action_of(config@.monitor.primary_check, interface@),
{
    plan_health_check(&config.monitor.primary_check, interface)
}

// ---------------------------------------------------------------------------------------------
// What is made of the answer

/// The name of a ping.
pub open spec fn ping_name(target: Seq<char>, interface: Seq<char>) -> Seq<char> {
    "ping("@ + target + "@"@ + interface + ")"@
}

/// What is made of a ping.
pub open spec fn ping_result(
    target: Seq<char>,
    interface: Seq<char>,
    outcome: CommandOutcome,
) -> SingleCheckResultView {
    SingleCheckResultView {
        name: ping_name(target, interface),
        success: outcome == CommandOutcome::Exited(true),
        detail: match outcome {
            CommandOutcome::Exited(ok) => if ok {
                "连通"@
            } else {
                "失败"@
            },
            CommandOutcome::Failed(err) => "执行异常: "@ + err@,
        },
    }
}

/// Makes a result of how a ping went.
pub fn run_ping_check(target: &str, interface: &str, outcome: &CommandOutcome) -> (r:
    SingleCheckResult)
    ensures
        r@ == ping_result(target@, interface@, *outcome),
{
    let mut name: String = "ping(".to_owned();
    name.append(target);
    name.append("@");
    name.append(interface);
    name.append(")");
    match outcome {
        CommandOutcome::Exited(true) => SingleCheckResult {
            name,
            success: true,
            detail: "连通".to_owned(),
        },
        CommandOutcome::Exited(false) => SingleCheckResult {
            name,
            success: false,
            detail: "失败".to_owned(),
        },
        CommandOutcome::Failed(err) => {
            let mut detail: String = "执行异常: ".to_owned();
            detail.append(err.as_str());
            SingleCheckResult { name, success: false, detail }
        },
    }
}

/// What is made of a TCP connection.
pub open spec fn tcp_result(
    target: Seq<char>,
    port: u16,
    interface: Seq<char>,
    outcome: TcpOutcome,
) -> SingleCheckResultView {
    SingleCheckResultView {
        name: "tcp("@ + target + ":"@ + number::decimal(port as nat) + "@"@ + interface + ")"@,
        success: outcome is Connected,
        detail: match outcome {
            TcpOutcome::Connected => "连通"@,
            TcpOutcome::Failed(err) => "连接失败: "@ + err@,
        },
    }
}

/// Makes a result of how a TCP connection went.
pub fn run_tcp_check(target: &str, port: u16, interface: &str, outcome: &TcpOutcome) -> (r:
    SingleCheckResult)
    ensures
        r@ == tcp_result(target@, port, interface@, *outcome),
{
    let mut name: String = "tcp(".to_owned();
    name.append(target);
    name.append(":");
    name.append(number::decimal_text(port as u64).as_str());
    name.append("@");
    name.append(interface);
    name.append(")");
    match outcome {
        TcpOutcome::Connected => SingleCheckResult {
            name,
            success: true,
            detail: "连通".to_owned(),
        },
        TcpOutcome::Failed(err) => {
            let mut detail: String = "连接失败: ".to_owned();
            detail.append(err.as_str());
            SingleCheckResult { name, success: false, detail }
        },
    }
}

/// What is made of a request of HTTP whose address is one.
pub open spec fn exchange_detail(
    expect_status: Option<u16>,
    expect_contains: Option<Seq<char>>,
    outcome: HttpOutcome,
) -> (bool, Seq<char>) {
    match outcome {
        HttpOutcome::NotStarted => arbitrary(),
        HttpOutcome::ConnectFailed(err) => (false, "连接失败: "@ + err@),
        HttpOutcome::SendFailed(err) => (false, "发送请求失败: "@ + err@),
        HttpOutcome::TimeoutFailed(err) => (false, "设置读取超时失败: "@ + err@),
        HttpOutcome::ReadFailed(err) => (false, "读取响应失败: "@ + err@),
        HttpOutcome::Received(raw) => (
            http::response_meets(decode::utf8_lossy(raw@), expect_status, expect_contains),
            http::response_detail(decode::utf8_lossy(raw@), expect_status, expect_contains),
        ),
    }
}

/// What is made of a request of HTTP.
pub open spec fn http_result(
    address: Seq<char>,
    expect_status: Option<u16>,
    expect_contains: Option<Seq<char>>,
    interface: Seq<char>,
    outcome: HttpOutcome,
) -> SingleCheckResultView {
    let name = "http("@ + address + "@"@ + interface + ")"@;
    match url::url_of(address) {
        Err(e) => SingleCheckResultView {
            name,
            success: false,
            detail: "URL 解析失败: "@ + e.message(),
        },
        Ok(_) => {
            let (success, detail) = exchange_detail(expect_status, expect_contains, outcome);
            SingleCheckResultView { name, success, detail }
        },
    }
}

fn failure(name: String, what: &str, err: &str) -> (r: SingleCheckResult)
    ensures
        r@ == (SingleCheckResultView { name: name@, success: false, detail: what@ + err@ }),
{
    let mut detail: String = what.to_owned();
    detail.append(err);
    SingleCheckResult { name, success: false, detail }
}

/// Makes a result of how far a request of HTTP came.
pub fn run_http_check(
    address: &str,
    expect_status: Option<u16>,
    expect_contains: &Option<String>,
    interface: &str,
    outcome: &HttpOutcome,
) -> (r: SingleCheckResult)
    requires
        outcome is NotStarted ==> url::url_of(address@) is Err,
    ensures
        r@ == http_result(
            address@,
            expect_status,
            text::opt_text(*expect_contains),
            interface@,
            *outcome,
        ),
{
    let mut name: String = "http(".to_owned();
    name.append(address);
    name.append("@");
    name.append(interface);
    name.append(")");
    if let Err(e) = url::parse_http_url(address) {
        return failure(name, "URL 解析失败: ", e.message().as_str());
    }
    match outcome {
        HttpOutcome::NotStarted => unreached(),
        HttpOutcome::ConnectFailed(err) => failure(name, "连接失败: ", err.as_str()),
        HttpOutcome::SendFailed(err) => failure(name, "发送请求失败: ", err.as_str()),
        HttpOutcome::TimeoutFailed(err) => failure(name, "设置读取超时失败: ", err.as_str()),
        HttpOutcome::ReadFailed(err) => failure(name, "读取响应失败: ", err.as_str()),
        HttpOutcome::Received(raw) => {
            let response: String = decode::decode_lossy(raw.as_slice());
            let (success, detail) = http::judge_response(
                response.as_str(),
                expect_status,
                expect_contains,
            );
            SingleCheckResult { name, success, detail }
        },
    }
}

/// The outcome is one that the check can have.
pub open spec fn fits(c: config::HealthCheckView, outcome: CheckOutcome) -> bool {
    match c {
        config::HealthCheckView::Ping { .. } => outcome is Ping,
        config::HealthCheckView::Tcp { .. } => outcome is Tcp,
        config::HealthCheckView::Http { url, .. } => {
            &&& outcome is Http
            &&& outcome->Http_0 is NotStarted ==> url::url_of(url) is Err
        },
    }
}

/// What is made of how a check went.
pub open spec fn result_of(
    c: config::HealthCheckView,
    interface: Seq<char>,
    outcome: CheckOutcome,
) -> SingleCheckResultView {
    match c {
        config::HealthCheckView::Ping { target, .. } => ping_result(
            target,
            interface,
            outcome->Ping_0,
        ),
        config::HealthCheckView::Tcp { target, port, .. } => tcp_result(
            target,
            port,
            interface,
            outcome->Tcp_0,
        ),
        config::HealthCheckView::Http { url, expect_status, expect_contains, .. } => http_result(
            url,
            expect_status,
            expect_contains,
            interface,
            outcome->Http_0,
        ),
    }
}

/// Makes a result of how a check went.
pub fn run_health_check(check: &HealthCheck, interface: &str, outcome: &CheckOutcome) -> (r:
    SingleCheckResult)
    requires
        fits(check@, *outcome),
    ensures
        r@ == result_of(check@, interface@, *outcome),
{
    match (check, outcome) {
        (HealthCheck::Ping { target, .. }, CheckOutcome::Ping(o)) => run_ping_check(
            target.as_str(),
            interface,
            o,
        ),
        (HealthCheck::Tcp { target, port, .. }, CheckOutcome::Tcp(o)) => run_tcp_check(
            target.as_str(),
            *port,
            interface,
            o,
        ),
        (
            HealthCheck::Http { url, expect_status, expect_contains, .. },
            CheckOutcome::Http(o),
        ) => run_http_check(url.as_str(), *expect_status, expect_contains, interface, o),
        _ => unreached(),
    }
}

/// Makes a result of how the primary check went.
pub fn run_primary_check(config: &AppConfig, interface: &str, outcome: &CheckOutcome) -> (r:
    SingleCheckResult)
    requires
        fits(config@.monitor.primary_check, *outcome),
    ensures
        r@ == result_of(config@.monitor.primary_check, interface@, *outcome),
{
    run_health_check(&config.monitor.primary_check, interface, outcome)
}

/// What is made of how a list of checks went.
pub open spec fn report_of(
    checks: Seq<config::HealthCheckView>,
    interface: Seq<char>,
    outcomes: Seq<CheckOutcome>,
) -> CheckReportView {
    CheckReportView {
        all_success: forall|i: int|
            0 <= i < checks.len() ==> #[trigger] result_of(
                checks[i],
                interface,
                outcomes[i],
            ).success,
        checks: Seq::new(checks.len(), |i: int| result_of(checks[i], interface, outcomes[i])),
    }
}

/// Makes a report of how the checks that follow a reconnect went: one outcome for each check, in
/// their order.
pub fn run_reconnect_verify_checks(
    config: &AppConfig,
    interface: &str,
    outcomes: &Vec<CheckOutcome>,
) -> (r: CheckReport)
    requires
        outcomes@.len() == config@.reconnect_verify.checks.len(),
        forall|i: int|
            0 <= i < outcomes@.len() ==> fits(
                config@.reconnect_verify.checks[i],
                #[trigger] outcomes@[i],
            ),
    ensures
        r@ == report_of(config@.reconnect_verify.checks, interface@, outcomes@),
{
    let ghost checks = config@.reconnect_verify.checks;
    let ghost whole = report_of(checks, interface@, outcomes@);
    let mut results: Vec<SingleCheckResult> = Vec::new();
    let mut all_success: bool = true;
    let mut i: usize = 0;
    while i < config.reconnect_verify.checks.len()
        invariant
            i <= config.reconnect_verify.checks@.len(),
            checks == config::check_views(config.reconnect_verify.checks@),
            whole == report_of(checks, interface@, outcomes@),
            outcomes@.len() == checks.len(),
            forall|k: int|
                0 <= k < outcomes@.len() ==> fits(checks[k], #[trigger] outcomes@[k]),
            result_views(results@) =~= whole.checks.take(i as int),
            all_success == forall|k: int| 0 <= k < i ==> (#[trigger] whole.checks[k]).success,
        decreases config.reconnect_verify.checks.len() - i,
    {
        let ghost done = result_views(results@);
        assert(checks[i as int] == config.reconnect_verify.checks@[i as int]@);
        assert(fits(checks[i as int], outcomes@[i as int]));
        let result: SingleCheckResult = run_health_check(
            &config.reconnect_verify.checks[i],
            interface,
            &outcomes[i],
        );
        assert(result@ == result_of(checks[i as int], interface@, outcomes@[i as int]));
        assert(whole.checks[i as int] == result@);
        all_success = all_success && result.success;
        results.push(result);
        assert(result_views(results@) =~= done.push(result@));
        i = i + 1;
    }
    assert(whole.checks.take(checks.len() as int) =~= whole.checks);
    proof {
        report_needs_every_check(checks, interface@, outcomes@);
    }
    CheckReport { all_success, checks: results }
}

/// A reconnect is verified exactly where each of its checks succeeded, and each check has its
/// result in the report.
pub proof fn report_needs_every_check(
    checks: Seq<config::HealthCheckView>,
    interface: Seq<char>,
    outcomes: Seq<CheckOutcome>,
)
    ensures
        report_of(checks, interface, outcomes).checks.len() == checks.len(),
        report_of(checks, interface, outcomes).all_success <==> forall|i: int|
            0 <= i < checks.len() ==> (#[trigger] report_of(
                checks,
                interface,
                outcomes,
            ).checks[i]).success,
{
    let report = report_of(checks, interface, outcomes);
    if forall|i: int| 0 <= i < checks.len() ==> (#[trigger] report.checks[i]).success {
        assert forall|i: int| 0 <= i < checks.len() implies #[trigger] result_of(
            checks[i],
            interface,
            outcomes[i],
        ).success by {
            assert(report.checks[i].success);
        }
    }
}

/// A check of a page that is served over HTTPS fails without a request being made.
pub proof fn https_check_asks_nothing(
    address: Seq<char>,
    timeout_secs: u64,
    expect_status: Option<u16>,
    expect_contains: Option<Seq<char>>,
    interface: Seq<char>,
    outcome: HttpOutcome,
)
    requires
        url::has_https_scheme(address),
    ensures
        action_of(
            config::HealthCheckView::Http {
                url: address,
                timeout_secs,
                expect_status,
                expect_contains,
            },
            interface,
        ) is Nothing,
        !http_result(address, expect_status, expect_contains, interface, outcome).success,
{
    url::https_is_rejected(address);
}

/// A ping is one packet, with the time limit, through the interface, to the target.
pub proof fn ping_goes_through_the_interface(
    target: Seq<char>,
    timeout_secs: u64,
    interface: Seq<char>,
)
    ensures
        action_of(config::HealthCheckView::Ping { target, timeout_secs }, interface) matches
            CheckActionView::Run(line) && {
            &&& line.program == "ping"@
            &&& line.args == seq![
                "-c"@,
                "1"@,
                "-W"@,
                number::decimal(timeout_secs as nat),
                "-I"@,
                interface,
                target,
            ]
        },
{
}

/// A TCP check connects to its target, at its port, with its time limit. A page is asked for at the
/// host and port of its address, with the time limit of the check, by the request for it; where
/// the address is none, nothing is asked.
pub proof fn checks_ask_what_they_are_told_to(
    target: Seq<char>,
    port: u16,
    timeout_secs: u64,
    expect_status: Option<u16>,
    expect_contains: Option<Seq<char>>,
    interface: Seq<char>,
)
    ensures
        action_of(config::HealthCheckView::Tcp { target, port, timeout_secs }, interface) == (
        CheckActionView::Connect { host: target, port, timeout_secs }),
        match url::url_of(target) {
            Ok(u) => action_of(
                config::HealthCheckView::Http {
                    url: target,
                    timeout_secs,
                    expect_status,
                    expect_contains,
                },
                interface,
            ) == (CheckActionView::Exchange {
                host: u.host,
                port: u.port,
                timeout_secs,
                request: http::request_text(u),
            }),
            Err(_) => action_of(
                config::HealthCheckView::Http {
                    url: target,
                    timeout_secs,
                    expect_status,
                    expect_contains,
                },
                interface,
            ) is Nothing,
        },
{
}

/// A ping succeeds exactly where its command ran and ended with success; its name tells target and
/// interface, and its detail how the command went.
pub proof fn ping_is_judged_by_its_command(
    target: Seq<char>,
    timeout_secs: u64,
    interface: Seq<char>,
    outcome: CommandOutcome,
)
    ensures
        ({
            let r = result_of(
                config::HealthCheckView::Ping { target, timeout_secs },
                interface,
                CheckOutcome::Ping(outcome),
            );
            &&& r.success <==> outcome == CommandOutcome::Exited(true)
            &&& r.name == "ping("@ + target + "@"@ + interface + ")"@
            &&& outcome == CommandOutcome::Exited(true) ==> r.detail == "连通"@
            &&& outcome == CommandOutcome::Exited(false) ==> r.detail == "失败"@
            &&& outcome matches CommandOutcome::Failed(err) ==> r.detail == "执行异常: "@ + err@
        }),
{
}

/// A TCP check succeeds exactly where the connection was made; its name tells target, port and
/// interface, and its detail why there is no connection.
pub proof fn tcp_check_is_judged_by_its_connection(
    target: Seq<char>,
    port: u16,
    timeout_secs: u64,
    interface: Seq<char>,
    outcome: TcpOutcome,
)
    ensures
        ({
            let r = result_of(
                config::HealthCheckView::Tcp { target, port, timeout_secs },
                interface,
                CheckOutcome::Tcp(outcome),
            );
            &&& r.success <==> outcome is Connected
            &&& r.name == "tcp("@ + target + ":"@ + number::decimal(port as nat) + "@"@ + interface
                + ")"@
            &&& outcome is Connected ==> r.detail == "连通"@
            &&& outcome matches TcpOutcome::Failed(err) ==> r.detail == "连接失败: "@ + err@
        }),
{
}

/// A check of a page succeeds exactly where its address is one and a response was received that
/// has what is expected of it; its name tells address and interface, and its detail how far the
/// request came.
pub proof fn page_is_judged_by_its_response(
    address: Seq<char>,
    timeout_secs: u64,
    expect_status: Option<u16>,
    expect_contains: Option<Seq<char>>,
    interface: Seq<char>,
    outcome: HttpOutcome,
)
    requires
        outcome is NotStarted ==> url::url_of(address) is Err,
    ensures
        ({
            let r = result_of(
                config::HealthCheckView::Http {
                    url: address,
                    timeout_secs,
                    expect_status,
                    expect_contains,
                },
                interface,
                CheckOutcome::Http(outcome),
            );
            &&& r.name == "http("@ + address + "@"@ + interface + ")"@
            &&& r.success <==> url::url_of(address) is Ok && (outcome matches
                HttpOutcome::Received(raw) && http::response_meets(
                decode::utf8_lossy(raw@),
                expect_status,
                expect_contains,
            ))
            &&& url::url_of(address) matches Err(e) ==> r.detail == "URL 解析失败: "@ + e.message()
            &&& url::url_of(address) is Ok ==> {
                &&& outcome matches HttpOutcome::ConnectFailed(err) ==> r.detail == "连接失败: "@
                    + err@
                &&& outcome matches HttpOutcome::SendFailed(err) ==> r.detail == "发送请求失败: "@
                    + err@
                &&& outcome matches HttpOutcome::TimeoutFailed(err) ==> r.detail
                    == "设置读取超时失败: "@ + err@
                &&& outcome matches HttpOutcome::ReadFailed(err) ==> r.detail == "读取响应失败: "@
                    + err@
                &&& outcome matches HttpOutcome::Received(raw) ==> r.detail
                    == http::response_detail(
                    decode::utf8_lossy(raw@),
                    expect_status,
                    expect_contains,
                )
            }
        }),
{
}

/// Every outcome of the method of a check fits it, and none of another method does; a page that was
/// not asked for fits only an address that is none.
pub proof fn outcomes_fit_their_method(
    target: Seq<char>,
    port: u16,
    timeout_secs: u64,
    expect_status: Option<u16>,
    expect_contains: Option<Seq<char>>,
    outcome: CheckOutcome,
)
    ensures
        fits(config::HealthCheckView::Ping { target, timeout_secs }, outcome) <==> outcome is Ping,
        fits(config::HealthCheckView::Tcp { target, port, timeout_secs }, outcome)
            <==> outcome is Tcp,
        fits(
            config::HealthCheckView::Http {
                url: target,
                timeout_secs,
                expect_status,
                expect_contains,
            },
            outcome,
        ) <==> (outcome matches CheckOutcome::Http(o) && (o is NotStarted ==> url::url_of(
            target,
        ) is Err)),
{
}

/// A report is made check by check: each result is that of its own check and outcome, in order, a
/// report of two lists of checks is the two reports put together, and it is a success exactly where
/// both are.
pub proof fn report_is_made_check_by_check(
    checks: Seq<config::HealthCheckView>,
    more: Seq<config::HealthCheckView>,
    interface: Seq<char>,
    outcomes: Seq<CheckOutcome>,
    others: Seq<CheckOutcome>,
)
    requires
        checks.len() == outcomes.len(),
        more.len() == others.len(),
    ensures
        forall|i: int|
            0 <= i < checks.len() ==> #[trigger] report_of(checks, interface, outcomes).checks[i]
                == result_of(checks[i], interface, outcomes[i]),
        report_of(checks + more, interface, outcomes + others).checks == report_of(
            checks,
            interface,
            outcomes,
        ).checks + report_of(more, interface, others).checks,
        report_of(checks + more, interface, outcomes + others).all_success <==> report_of(
            checks,
            interface,
            outcomes,
        ).all_success && report_of(more, interface, others).all_success,
        report_of(seq![], interface, seq![]).all_success,
{
    let (a, b) = (report_of(checks, interface, outcomes), report_of(more, interface, others));
    let both = report_of(checks + more, interface, outcomes + others);
    assert(both.checks =~= a.checks + b.checks);
    report_needs_every_check(checks, interface, outcomes);
    report_needs_every_check(more, interface, others);
    report_needs_every_check(checks + more, interface, outcomes + others);
    let n = checks.len() as int;
    assert(a.checks.len() == n && b.checks.len() == more.len());
    if both.all_success {
        assert forall|i: int| 0 <= i < n implies (#[trigger] a.checks[i]).success by {
            assert(both.checks[i].success);
        }
        assert forall|i: int| 0 <= i < more.len() implies (#[trigger] b.checks[i]).success by {
            assert(both.checks[n + i].success);
        }
    }
    if a.all_success && b.all_success {
        assert forall|i: int| 0 <= i < both.checks.len() implies (
        #[trigger] both.checks[i]).success by {
            if i < n {
                assert(a.checks[i].success);
            } else {
                assert(b.checks[i - n].success);
            }
        }
    }
}

/// A result, a report and what a check asks hold what they are made of.
pub proof fn check_values_hold_their_parts(
    r: SingleCheckResult,
    report: CheckReport,
    line: CommandLine,
    host: String,
    port: u16,
    timeout_secs: u64,
    request: String,
)
    ensures
        r@.name == r.name@,
        r@.success == r.success,
        r@.detail == r.detail@,
        report@.all_success == report.all_success,
        report@.checks.len() == report.checks@.len(),
        forall|i: int|
            0 <= i < report.checks@.len() ==> #[trigger] report@.checks[i] == report.checks@[i]@,
        CheckAction::Run(line)@ == CheckActionView::Run(line@),
        (CheckAction::Connect { host, port, timeout_secs })@ == (CheckActionView::Connect {
            host: host@,
            port,
            timeout_secs,
        }),
        (CheckAction::Exchange { host, port, timeout_secs, request })@ == (
        CheckActionView::Exchange { host: host@, port, timeout_secs, request: request@ }),
        CheckAction::Nothing@ is Nothing,
{
}

} // verus!
