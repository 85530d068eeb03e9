//! The configuration: what it holds, what it is where the user says nothing, and when it is valid.
use vstd::prelude::*;

use crate::client::WarpClient;
use crate::logging::LogLevel;
use crate::number;
use crate::text;
use crate::url;

verus! {

// ---------------------------------------------------------------------------------------------
// The sections

/// One way to test the connection.
#[derive(Debug, Clone)]
pub enum HealthCheck {
    Ping { target: String, timeout_secs: u64 },
    Tcp { target: String, port: u16, timeout_secs: u64 },
    Http {
        url: String,
        timeout_secs: u64,
        expect_status: Option<u16>,
        expect_contains: Option<String>,
    },
}

/// What a `HealthCheck` holds.
pub enum HealthCheckView {
    Ping { target: Seq<char>, timeout_secs: u64 },
    Tcp { target: Seq<char>, port: u16, timeout_secs: u64 },
    Http {
        url: Seq<char>,
        timeout_secs: u64,
        expect_status: Option<u16>,
        expect_contains: Option<Seq<char>>,
    },
}

impl View for HealthCheck {
    type V = HealthCheckView;

    open spec fn view(&self) -> HealthCheckView {
        match self {
            HealthCheck::Ping { target, timeout_secs } => HealthCheckView::Ping {
                target: target@,
                timeout_secs: *timeout_secs,
            },
            HealthCheck::Tcp { target, port, timeout_secs } => HealthCheckView::Tcp {
                target: target@,
                port: *port,
                timeout_secs: *timeout_secs,
            },
            HealthCheck::Http { url, timeout_secs, expect_status, expect_contains } =>
                HealthCheckView::Http {
                url: url@,
                timeout_secs: *timeout_secs,
                expect_status: *expect_status,
                expect_contains: text::opt_text(*expect_contains),
            },
        }
    }
}

/// What a list of checks holds.
pub open spec fn check_views(v: Seq<HealthCheck>) -> Seq<HealthCheckView> {
    v.map_values(|c: HealthCheck| c@)
}

/// How often to check, when to reconnect, what to run commands with, and what to log where.
#[derive(Debug, Clone)]
pub struct GeneralConfig {
    /// Seconds between two runs of the primary check.
    pub interval_secs: u64,
    /// How many checks must fail in a row before the connection is renewed.
    pub failure_threshold: u32,
    /// Seconds to wait once the reconnect commands have run.
    pub reconnect_cooldown_secs: u64,
    /// The shell that runs commands.
    pub shell: String,
    /// The level of the log.
    pub log_level: LogLevel,
    /// The file of the log.
    pub log_file: String,
}

/// What a `GeneralConfig` holds.
pub struct GeneralConfigView {
    pub interval_secs: u64,
    pub failure_threshold: u32,
    pub reconnect_cooldown_secs: u64,
    pub shell: Seq<char>,
    pub log_level: LogLevel,
    pub log_file: Seq<char>,
}

impl View for GeneralConfig {
    type V = GeneralConfigView;

    open spec fn view(&self) -> GeneralConfigView {
        GeneralConfigView {
            interval_secs: self.interval_secs,
            failure_threshold: self.failure_threshold,
            reconnect_cooldown_secs: self.reconnect_cooldown_secs,
            shell: self.shell@,
            log_level: self.log_level,
            log_file: self.log_file@,
        }
    }
}

/// The client that was detected, and the commands that reconnect it.
#[derive(Debug, Clone)]
pub struct ReconnectConfig {
    pub warp_client: Option<WarpClient>,
    pub commands: Vec<String>,
}

/// What a `ReconnectConfig` holds.
pub struct ReconnectConfigView {
    pub warp_client: Option<WarpClient>,
    pub commands: Seq<Seq<char>>,
}

impl View for ReconnectConfig {
    type V = ReconnectConfigView;

    open spec fn view(&self) -> ReconnectConfigView {
        ReconnectConfigView {
            warp_client: self.warp_client,
            commands: text::texts(self.commands@),
        }
    }
}

/// The interface to watch, where the user names one, and the check that watches it.
#[derive(Debug, Clone)]
pub struct MonitorConfig {
    pub interface_name: Option<String>,
    pub primary_check: HealthCheck,
}

/// What a `MonitorConfig` holds.
pub struct MonitorConfigView {
    pub interface_name: Option<Seq<char>>,
    pub primary_check: HealthCheckView,
}

impl View for MonitorConfig {
    type V = MonitorConfigView;

    open spec fn view(&self) -> MonitorConfigView {
        MonitorConfigView {
            interface_name: text::opt_text(self.interface_name),
            primary_check: self.primary_check@,
        }
    }
}

/// The checks that follow a reconnect.
#[derive(Debug, Clone)]
pub struct ReconnectVerifyConfig {
    pub checks: Vec<HealthCheck>,
}

/// What a `ReconnectVerifyConfig` holds.
pub struct ReconnectVerifyConfigView {
    pub checks: Seq<HealthCheckView>,
}

impl View for ReconnectVerifyConfig {
    type V = ReconnectVerifyConfigView;

    open spec fn view(&self) -> ReconnectVerifyConfigView {
        ReconnectVerifyConfigView { checks: check_views(self.checks@) }
    }
}

/// The configuration.
#[derive(Debug, Clone)]
pub struct AppConfig {
    pub general: GeneralConfig,
    pub reconnect: ReconnectConfig,
    pub monitor: MonitorConfig,
    pub reconnect_verify: ReconnectVerifyConfig,
}

/// What an `AppConfig` holds.
pub struct AppConfigView {
    pub general: GeneralConfigView,
    pub reconnect: ReconnectConfigView,
    pub monitor: MonitorConfigView,
    pub reconnect_verify: ReconnectVerifyConfigView,
}

impl View for AppConfig {
    type V = AppConfigView;

    open spec fn view(&self) -> AppConfigView {
        AppConfigView {
            general: self.general@,
            reconnect: self.reconnect@,
            monitor: self.monitor@,
            reconnect_verify: self.reconnect_verify@,
        }
    }
}

// ---------------------------------------------------------------------------------------------
// Defaults

/// Seconds between two runs of the primary check, where the user says nothing.
pub fn default_interval_secs() -> (r: u64)
    ensures
        r == 2,
{
    2
}

/// How many checks must fail in a row before a reconnect, where the user says nothing.
pub fn default_failure_threshold() -> (r: u32)
    ensures
        r == 3,
{
    3
}

/// Seconds to wait behind the reconnect commands, where the user says nothing.
pub fn default_reconnect_cooldown_secs() -> (r: u64)
    ensures
        r == 2,
{
    2
}

/// The shell that runs commands, where the user names none.
pub fn default_shell() -> (r: String)
    ensures
        r@ == "/bin/bash"@,
{
    "/bin/bash".to_owned()
}

/// The file of the log, where the user names none.
pub fn default_log_file() -> (r: String)
    ensures
        r@ == "/var/log/warp-keeper.log"@,
{
    "/var/log/warp-keeper.log".to_owned()
}

/// The time limit of a ping in seconds, where the user sets none.
pub fn default_ping_timeout_secs() -> (r: u64)
    ensures
        r == 1,
{
    1
}

/// The time limit of any other check in seconds, where the user sets none.
pub fn default_check_timeout_secs() -> (r: u64)
    ensures
        r == 3,
{
    3
}

/// The primary check where the user names none: a ping.
pub open spec fn default_primary() -> HealthCheckView {
    HealthCheckView::Ping { target: "1.1.1.1"@, timeout_secs: 1 }
}

/// The checks that follow a reconnect where the user names none: a page, and a TCP connection.
pub open spec fn default_verify_checks() -> Seq<HealthCheckView> {
    seq![
        HealthCheckView::Http {
            url: "http://www.apple.com/library/test/success.html"@,
            timeout_secs: 3,
            expect_status: Some(200),
            expect_contains: Some("Success"@),
        },
        HealthCheckView::Tcp { target: "1.1.1.1"@, port: 80, timeout_secs: 3 },
    ]
}

/// The general section where the user says nothing.
pub open spec fn default_general() -> GeneralConfigView {
    GeneralConfigView {
        interval_secs: 2,
        failure_threshold: 3,
        reconnect_cooldown_secs: 2,
        shell: "/bin/bash"@,
        log_level: LogLevel::Info,
        log_file: "/var/log/warp-keeper.log"@,
    }
}

/// The configuration where the user says nothing.
pub open spec fn default_config() -> AppConfigView {
    AppConfigView {
        general: default_general(),
        reconnect: ReconnectConfigView { warp_client: None, commands: seq![] },
        monitor: MonitorConfigView { interface_name: None, primary_check: default_primary() },
        reconnect_verify: ReconnectVerifyConfigView { checks: default_verify_checks() },
    }
}

/// The primary check where the user names none.
pub fn default_primary_check() -> (r: HealthCheck)
    ensures
        r@ == default_primary(),
{
    HealthCheck::Ping { target: "1.1.1.1".to_owned(), timeout_secs: default_ping_timeout_secs() }
}

/// The checks that follow a reconnect where the user names none.
pub fn default_reconnect_verify_checks() -> (r: Vec<HealthCheck>)
    ensures
        check_views(r@) == default_verify_checks(),
{
    let r: Vec<HealthCheck> = vec![
        HealthCheck::Http {
            url: "http://www.apple.com/library/test/success.html".to_owned(),
            timeout_secs: default_check_timeout_secs(),
            expect_status: Some(200),
            expect_contains: Some("Success".to_owned()),
        },
        HealthCheck::Tcp {
            target: "1.1.1.1".to_owned(),
            port: 80,
            timeout_secs: default_check_timeout_secs(),
        },
    ];
    assert(check_views(r@) =~= default_verify_checks());
    r
}

impl Default for GeneralConfig {
    fn default() -> (r: Self)
        ensures
            r@ == default_general(),
    {
        GeneralConfig {
            interval_secs: default_interval_secs(),
            failure_threshold: default_failure_threshold(),
            reconnect_cooldown_secs: default_reconnect_cooldown_secs(),
            shell: default_shell(),
            log_level: LogLevel::Info,
            log_file: default_log_file(),
        }
    }
}

impl Default for ReconnectConfig {
    fn default() -> (r: Self)
        ensures
            r@ == default_config().reconnect,
    {
        let r = ReconnectConfig { warp_client: None, commands: Vec::new() };
        assert(r@.commands =~= seq![]);
        r
    }
}

impl Default for MonitorConfig {
    fn default() -> (r: Self)
        ensures
            r@ == default_config().monitor,
    {
        MonitorConfig { interface_name: None, primary_check: default_primary_check() }
    }
}

impl Default for ReconnectVerifyConfig {
    fn default() -> (r: Self)
        ensures
            r@ == default_config().reconnect_verify,
    {
        ReconnectVerifyConfig { checks: default_reconnect_verify_checks() }
    }
}

impl Default for AppConfig {
    fn default() -> (r: Self)
        ensures
            r@ == default_config(),
    {
        AppConfig {
            general: GeneralConfig::default(),
            reconnect: ReconnectConfig::default(),
            monitor: MonitorConfig::default(),
            reconnect_verify: ReconnectVerifyConfig::default(),
        }
    }
}

// ---------------------------------------------------------------------------------------------
// Validity

/// What is wrong with a check.
#[derive(Debug, Clone, Copy, PartialEq, Eq, Structural)]
pub enum CheckFault {
    TargetBlank,
    PortZero,
    UrlBlank,
    UrlNotHttp,
    TimeoutZero,
}

/// What is wrong with a configuration.
#[derive(Debug, Clone, PartialEq, Eq)]
pub enum ConfigError {
    IntervalZero,
    ThresholdZero,
    ShellBlank,
    LogFileBlank,
    /// The check that stands at `path` in the configuration is at fault.
    Check { path: String, fault: CheckFault },
}

/// What a `ConfigError` holds.
pub enum ConfigErrorView {
    IntervalZero,
    ThresholdZero,
    ShellBlank,
    LogFileBlank,
    Check { path: Seq<char>, fault: CheckFault },
}

impl View for ConfigError {
    type V = ConfigErrorView;

    open spec fn view(&self) -> ConfigErrorView {
        match self {
            ConfigError::IntervalZero => ConfigErrorView::IntervalZero,
            ConfigError::ThresholdZero => ConfigErrorView::ThresholdZero,
            ConfigError::ShellBlank => ConfigErrorView::ShellBlank,
            ConfigError::LogFileBlank => ConfigErrorView::LogFileBlank,
            ConfigError::Check { path, fault } => ConfigErrorView::Check {
                path: path@,
                fault: *fault,
            },
        }
    }
}

impl CheckFault {
    /// What follows the path of a check in the text that tells a user of its fault.
    pub open spec fn ending(self) -> Seq<char> {
        match self {
            CheckFault::TargetBlank => ".target` 不能为空"@,
            CheckFault::PortZero => ".port` 必须大于 0"@,
            CheckFault::UrlBlank => ".url` 不能为空"@,
            CheckFault::UrlNotHttp => ".url` 仅支持 http://"@,
            CheckFault::TimeoutZero => ".timeout_secs` 必须大于 0"@,
        }
    }

    fn ending_text(self) -> (r: &'static str)
        ensures
            r@ == self.ending(),
    {
        match self {
            CheckFault::TargetBlank => ".target` 不能为空",
            CheckFault::PortZero => ".port` 必须大于 0",
            CheckFault::UrlBlank => ".url` 不能为空",
            CheckFault::UrlNotHttp => ".url` 仅支持 http://",
            CheckFault::TimeoutZero => ".timeout_secs` 必须大于 0",
        }
    }
}

impl ConfigErrorView {
    /// The text that tells a user of the error.
    pub open spec fn message(self) -> Seq<char> {
        match self {
            ConfigErrorView::IntervalZero => "`general.interval_secs` 必须大于 0"@,
            ConfigErrorView::ThresholdZero => "`general.failure_threshold` 必须大于 0"@,
            ConfigErrorView::ShellBlank => "`general.shell` 不能为空"@,
            ConfigErrorView::LogFileBlank => "`general.log_file` 不能为空"@,
            ConfigErrorView::Check { path, fault } => "`"@ + path + fault.ending(),
        }
    }
}

impl ConfigError {
    /// The text that tells a user of the error.
    pub fn message(&self) -> (r: String)
        ensures
            r@ == self@.message(),
    {
        match self {
            ConfigError::IntervalZero => "`general.interval_secs` 必须大于 0".to_owned(),
            ConfigError::ThresholdZero => "`general.failure_threshold` 必须大于 0".to_owned(),
            ConfigError::ShellBlank => "`general.shell` 不能为空".to_owned(),
            ConfigError::LogFileBlank => "`general.log_file` 不能为空".to_owned(),
            ConfigError::Check { path, fault } => {
                let mut s: String = "`".to_owned();
                s.append(path.as_str());
                s.append(fault.ending_text());
                s
            },
        }
    }
}

/// The first thing wrong with a check.
pub open spec fn check_fault(c: HealthCheckView) -> Option<CheckFault> {
    match c {
        HealthCheckView::Ping { target, timeout_secs } => if text::is_blank(target) {
            Some(CheckFault::TargetBlank)
        } else if timeout_secs == 0 {
            Some(CheckFault::TimeoutZero)
        } else {
            None
        },
        HealthCheckView::Tcp { target, port, timeout_secs } => if text::is_blank(target) {
            Some(CheckFault::TargetBlank)
        } else if port == 0 {
            Some(CheckFault::PortZero)
        } else if timeout_secs == 0 {
            Some(CheckFault::TimeoutZero)
        } else {
            None
        },
        HealthCheckView::Http { url, timeout_secs, .. } => if text::is_blank(url) {
            Some(CheckFault::UrlBlank)
        } else if !url::has_http_scheme(url) {
            Some(CheckFault::UrlNotHttp)
        } else if timeout_secs == 0 {
            Some(CheckFault::TimeoutZero)
        } else {
            None
        },
    }
}

/// The path of a check in the list of those that follow a reconnect.
pub open spec fn verify_path(i: nat) -> Seq<char> {
    "reconnect_verify.checks["@ + number::decimal(i) + "]"@
}

/// The first thing wrong with the checks from number `i` on.
pub open spec fn verify_fault(checks: Seq<HealthCheckView>, i: nat) -> Option<ConfigErrorView>
    decreases checks.len() - i,
{
    if i >= checks.len() {
        None
    } else {
        match check_fault(checks[i as int]) {
            Some(fault) => Some(ConfigErrorView::Check { path: verify_path(i), fault }),
            None => verify_fault(checks, i + 1),
        }
    }
}

/// The first thing wrong with a configuration.
pub open spec fn config_fault(c: AppConfigView) -> Option<ConfigErrorView> {
    if c.general.interval_secs == 0 {
        Some(ConfigErrorView::IntervalZero)
    } else if c.general.failure_threshold == 0 {
        Some(ConfigErrorView::ThresholdZero)
    } else if text::is_blank(c.general.shell) {
        Some(ConfigErrorView::ShellBlank)
    } else if text::is_blank(c.general.log_file) {
        Some(ConfigErrorView::LogFileBlank)
    } else {
        match check_fault(c.monitor.primary_check) {
            Some(fault) => Some(
                ConfigErrorView::Check { path: "monitor.primary_check"@, fault },
            ),
            None => verify_fault(c.reconnect_verify.checks, 0),
        }
    }
}

impl HealthCheckView {
    /// A check that can be run: it has a target and a time limit, a port where it needs one, and
    /// an address of the HTTP scheme where it needs one.
    pub open spec fn valid(self) -> bool {
        match self {
            HealthCheckView::Ping { target, timeout_secs } => !text::is_blank(target)
                && timeout_secs > 0,
            HealthCheckView::Tcp { target, port, timeout_secs } => !text::is_blank(target) && port
                > 0 && timeout_secs > 0,
            HealthCheckView::Http { url, timeout_secs, .. } => !text::is_blank(url)
                && url::has_http_scheme(url) && timeout_secs > 0,
        }
    }
}

impl AppConfigView {
    /// A configuration that can be run.
    pub open spec fn valid(self) -> bool {
        &&& self.general.interval_secs > 0
        &&& self.general.failure_threshold > 0
        &&& !text::is_blank(self.general.shell)
        &&& !text::is_blank(self.general.log_file)
        &&& self.monitor.primary_check.valid()
        &&& forall|i: int|
            0 <= i < self.reconnect_verify.checks.len() ==> (
            #[trigger] self.reconnect_verify.checks[i]).valid()
    }
}

/// What the result of a validation holds: nothing, or the error.
pub open spec fn fault_view(r: Result<(), ConfigError>) -> Option<ConfigErrorView> {
    match r {
        Ok(_) => None,
        Err(e) => Some(e@),
    }
}

/// Looks for a fault in the check that stands at `path` in the configuration.
pub fn validate_check(check: &HealthCheck, path: &str) -> (r: Result<(), ConfigError>)
    ensures
        fault_view(r) == match check_fault(check@) {
            Some(fault) => Some(ConfigErrorView::Check { path: path@, fault }),
            None => None,
        },
{
    let fault: Option<CheckFault> = match check {
        HealthCheck::Ping { target, timeout_secs } => {
            if text::blank(target.as_str()) {
                Some(CheckFault::TargetBlank)
            } else if *timeout_secs == 0 {
                Some(CheckFault::TimeoutZero)
            } else {
                None
            }
        },
        HealthCheck::Tcp { target, port, timeout_secs } => {
            if text::blank(target.as_str()) {
                Some(CheckFault::TargetBlank)
            } else if *port == 0 {
                Some(CheckFault::PortZero)
            } else if *timeout_secs == 0 {
                Some(CheckFault::TimeoutZero)
            } else {
                None
            }
        },
        HealthCheck::Http { url, timeout_secs, .. } => {
            if text::blank(url.as_str()) {
                Some(CheckFault::UrlBlank)
            } else if !text::starts_with_lowered(url.as_str(), "http://") {
                Some(CheckFault::UrlNotHttp)
            } else if *timeout_secs == 0 {
                Some(CheckFault::TimeoutZero)
            } else {
                None
            }
        },
    };
    match fault {
        Some(fault) => Err(ConfigError::Check { path: path.to_owned(), fault }),
        None => Ok(()),
    }
}

impl AppConfig {
    /// Looks for a fault in the configuration.
    pub fn validate(&self) -> (r: Result<(), ConfigError>)
        ensures
            fault_view(r) == config_fault(self@),
            r is Ok <==> self@.valid(),
    {
        proof {
            valid_means_no_fault(self@);
        }
        if self.general.interval_secs == 0 {
            return Err(ConfigError::IntervalZero);
        }
        if self.general.failure_threshold == 0 {
            return Err(ConfigError::ThresholdZero);
        }
        if text::blank(self.general.shell.as_str()) {
            return Err(ConfigError::ShellBlank);
        }
        if text::blank(self.general.log_file.as_str()) {
            return Err(ConfigError::LogFileBlank);
        }
        if let Err(e) = validate_check(&self.monitor.primary_check, "monitor.primary_check") {
            return Err(e);
        }
        let ghost checks = self@.reconnect_verify.checks;
        let mut i: usize = 0;
        while i < self.reconnect_verify.checks.len()
            invariant
                i <= self.reconnect_verify.checks@.len(),
                checks == check_views(self.reconnect_verify.checks@),
                config_fault(self@) == verify_fault(checks, i as nat),
                config_fault(self@) is None <==> self@.valid(),
            decreases self.reconnect_verify.checks.len() - i,
        {
            let mut path: String = "reconnect_verify.checks[".to_owned();
            path.append(number::decimal_text(i as u64).as_str());
            path.append("]");
            assert(path@ =~= verify_path(i as nat));
            assert(checks[i as int] == self.reconnect_verify.checks@[i as int]@);
            if let Err(e) = validate_check(&self.reconnect_verify.checks[i], path.as_str()) {
                return Err(e);
            }
            i = i + 1;
        }
        Ok(())
    }
}

/// The checks from number `i` on are without fault exactly where each of them is valid.
proof fn lemma_verify_fault(checks: Seq<HealthCheckView>, i: nat)
    ensures
        verify_fault(checks, i) is None <==> forall|k: int|
            i <= k < checks.len() ==> (#[trigger] checks[k]).valid(),
    decreases checks.len() - i,
{
    if i < checks.len() {
        lemma_verify_fault(checks, i + 1);
        assert(checks[i as int].valid() <==> check_fault(checks[i as int]) is None);
    }
}

/// A configuration is without fault exactly where it is valid.
pub proof fn valid_means_no_fault(c: AppConfigView)
    ensures
        config_fault(c) is None <==> c.valid(),
{
    lemma_verify_fault(c.reconnect_verify.checks, 0);
}

/// The fault that is told of in the checks that follow a reconnect is that of the first check at
/// fault.
pub proof fn first_faulty_check_is_named(checks: Seq<HealthCheckView>, i: nat)
    requires
        i < checks.len(),
        !checks[i as int].valid(),
        forall|k: int| 0 <= k < i ==> (#[trigger] checks[k]).valid(),
    ensures
        verify_fault(checks, 0) == Some(
            ConfigErrorView::Check {
                path: verify_path(i),
                fault: check_fault(checks[i as int])->Some_0,
            },
        ),
{
    lemma_first_fault_from(checks, 0, i);
}

proof fn lemma_first_fault_from(checks: Seq<HealthCheckView>, from: nat, i: nat)
    requires
        from <= i < checks.len(),
        !checks[i as int].valid(),
        forall|k: int| 0 <= k < i ==> (#[trigger] checks[k]).valid(),
    ensures
        verify_fault(checks, from) == Some(
            ConfigErrorView::Check {
                path: verify_path(i),
                fault: check_fault(checks[i as int])->Some_0,
            },
        ),
    decreases i - from,
{
    if from < i {
        assert(checks[from as int].valid());
        lemma_first_fault_from(checks, from + 1, i);
    }
}

/// The configuration that is used where the user says nothing is valid.
pub proof fn default_config_is_valid()
    ensures
        default_config().valid(),
{
    reveal_strlit("/bin/bash");
    reveal_strlit("/var/log/warp-keeper.log");
    reveal_strlit("1.1.1.1");
    reveal_strlit("http://");
    reveal_strlit("http://www.apple.com/library/test/success.html");
    let c = default_config();
    assert(!text::is_whitespace(c.general.shell[0]));
    assert(!text::is_whitespace(c.general.log_file[0]));
    assert(!text::is_whitespace("1.1.1.1"@[0]));
    let page = "http://www.apple.com/library/test/success.html"@;
    assert(!text::is_whitespace(page[0]));
    assert(text::lower_text(page).take(7) =~= "http://"@);
}

/// The first thing wrong with a check, by its method: a blank target or address comes first, then
/// a port or a scheme that is none, then a time limit of nothing; nothing else is ever wrong.
pub proof fn faults_of_a_check(
    target: Seq<char>,
    port: u16,
    timeout_secs: u64,
    expect_status: Option<u16>,
    expect_contains: Option<Seq<char>>,
)
    ensures
        ({
            let ping = HealthCheckView::Ping { target, timeout_secs };
            let tcp = HealthCheckView::Tcp { target, port, timeout_secs };
            let page = HealthCheckView::Http {
                url: target,
                timeout_secs,
                expect_status,
                expect_contains,
            };
            &&& text::is_blank(target) ==> check_fault(ping) == Some(CheckFault::TargetBlank)
                && check_fault(tcp) == Some(CheckFault::TargetBlank) && check_fault(page) == Some(
                CheckFault::UrlBlank,
            )
            &&& !text::is_blank(target) && timeout_secs == 0 ==> check_fault(ping) == Some(
                CheckFault::TimeoutZero,
            )
            &&& !text::is_blank(target) && timeout_secs > 0 ==> check_fault(ping) is None
            &&& !text::is_blank(target) && port == 0 ==> check_fault(tcp) == Some(
                CheckFault::PortZero,
            )
            &&& !text::is_blank(target) && port > 0 && timeout_secs == 0 ==> check_fault(tcp)
                == Some(CheckFault::TimeoutZero)
            &&& !text::is_blank(target) && port > 0 && timeout_secs > 0 ==> check_fault(tcp) is None
            &&& !text::is_blank(target) && !url::has_http_scheme(target) ==> check_fault(page)
                == Some(CheckFault::UrlNotHttp)
            &&& url::has_http_scheme(target) && timeout_secs == 0 ==> check_fault(page) == Some(
                CheckFault::TimeoutZero,
            )
            &&& url::has_http_scheme(target) && timeout_secs > 0 ==> check_fault(page) is None
        }),
{
    if url::has_http_scheme(target) {
        url::scheme_goes_by_its_letters(target);
        assert(!text::is_whitespace(target[0]));
    }
}

/// A check is valid exactly where nothing is wrong with it.
pub proof fn valid_check_has_no_fault(c: HealthCheckView)
    ensures
        c.valid() <==> check_fault(c) is None,
{
}

/// The first thing wrong with a configuration: the general section comes first, field by field,
/// then the primary check, then the checks that follow a reconnect.
pub proof fn faults_come_in_order(c: AppConfigView)
    ensures
        ({
            let g = c.general;
            let fault = config_fault(c);
            &&& g.interval_secs == 0 ==> fault == Some(ConfigErrorView::IntervalZero)
            &&& g.interval_secs > 0 && g.failure_threshold == 0 ==> fault == Some(
                ConfigErrorView::ThresholdZero,
            )
            &&& g.interval_secs > 0 && g.failure_threshold > 0 && text::is_blank(g.shell) ==> fault
                == Some(ConfigErrorView::ShellBlank)
            &&& g.interval_secs > 0 && g.failure_threshold > 0 && !text::is_blank(g.shell)
                && text::is_blank(g.log_file) ==> fault == Some(ConfigErrorView::LogFileBlank)
            &&& g.interval_secs > 0 && g.failure_threshold > 0 && !text::is_blank(g.shell)
                && !text::is_blank(g.log_file) ==> match check_fault(c.monitor.primary_check) {
                Some(f) => fault == Some(
                    ConfigErrorView::Check { path: "monitor.primary_check"@, fault: f },
                ),
                None => fault == verify_fault(c.reconnect_verify.checks, 0),
            }
        }),
{
}

/// Nothing but these fields is asked for: the client, the commands, the interface, the cooldown and
/// the level of the log may be anything.
pub proof fn other_fields_do_not_matter(c: AppConfigView, d: AppConfigView)
    requires
        c.general.interval_secs == d.general.interval_secs,
        c.general.failure_threshold == d.general.failure_threshold,
        c.general.shell == d.general.shell,
        c.general.log_file == d.general.log_file,
        c.monitor.primary_check == d.monitor.primary_check,
        c.reconnect_verify == d.reconnect_verify,
    ensures
        config_fault(c) == config_fault(d),
{
}

/// Checks that follow a reconnect are without fault where each is, and the path of the one at fault
/// tells its place in the list.
pub proof fn faulty_check_is_told_by_its_place(checks: Seq<HealthCheckView>, i: nat)
    ensures
        (forall|k: int| 0 <= k < checks.len() ==> check_fault(#[trigger] checks[k]) is None)
            ==> verify_fault(checks, 0) is None,
        i < checks.len() && check_fault(checks[i as int]) is Some && (forall|k: int|
            0 <= k < i ==> check_fault(#[trigger] checks[k]) is None) ==> verify_fault(checks, 0)
            == Some(
            ConfigErrorView::Check {
                path: "reconnect_verify.checks["@ + number::decimal(i) + "]"@,
                fault: check_fault(checks[i as int])->0,
            },
        ),
{
    lemma_verify_fault(checks, 0);
    if forall|k: int| 0 <= k < checks.len() ==> check_fault(#[trigger] checks[k]) is None {
        assert forall|k: int| 0 <= k < checks.len() implies (#[trigger] checks[k]).valid() by {
            assert(check_fault(checks[k]) is None);
        }
    }
    if i < checks.len() && check_fault(checks[i as int]) is Some && (forall|k: int|
        0 <= k < i ==> check_fault(#[trigger] checks[k]) is None) {
        assert forall|k: int| 0 <= k < i implies (#[trigger] checks[k]).valid() by {
            assert(check_fault(checks[k]) is None);
        }
        first_faulty_check_is_named(checks, i);
    }
}

/// The text of an error tells the field, behind the path of the check where it is one of a check.
pub proof fn config_errors_are_told(path: Seq<char>)
    ensures
        ConfigErrorView::IntervalZero.message() == "`general.interval_secs` 必须大于 0"@,
        ConfigErrorView::ThresholdZero.message() == "`general.failure_threshold` 必须大于 0"@,
        ConfigErrorView::ShellBlank.message() == "`general.shell` 不能为空"@,
        ConfigErrorView::LogFileBlank.message() == "`general.log_file` 不能为空"@,
        (ConfigErrorView::Check { path, fault: CheckFault::TargetBlank }).message() == "`"@ + path
            + ".target` 不能为空"@,
        (ConfigErrorView::Check { path, fault: CheckFault::PortZero }).message() == "`"@ + path
            + ".port` 必须大于 0"@,
        (ConfigErrorView::Check { path, fault: CheckFault::UrlBlank }).message() == "`"@ + path
            + ".url` 不能为空"@,
        (ConfigErrorView::Check { path, fault: CheckFault::UrlNotHttp }).message() == "`"@ + path
            + ".url` 仅支持 http://"@,
        (ConfigErrorView::Check { path, fault: CheckFault::TimeoutZero }).message() == "`"@ + path
            + ".timeout_secs` 必须大于 0"@,
{
}

/// What is used where the user says nothing.
pub proof fn defaults_are()
    ensures
        ({
            let c = default_config();
            &&& c.general.interval_secs == 2
            &&& c.general.failure_threshold == 3
            &&& c.general.reconnect_cooldown_secs == 2
            &&& c.general.shell == "/bin/bash"@
            &&& c.general.log_level == LogLevel::Info
            &&& c.general.log_file == "/var/log/warp-keeper.log"@
            &&& c.reconnect.warp_client is None
            &&& c.reconnect.commands.len() == 0
            &&& c.monitor.interface_name is None
            &&& c.monitor.primary_check == (HealthCheckView::Ping {
                target: "1.1.1.1"@,
                timeout_secs: 1,
            })
            &&& c.reconnect_verify.checks == seq![
                HealthCheckView::Http {
                    url: "http://www.apple.com/library/test/success.html"@,
                    timeout_secs: 3,
                    expect_status: Some(200),
                    expect_contains: Some("Success"@),
                },
                HealthCheckView::Tcp { target: "1.1.1.1"@, port: 80, timeout_secs: 3 },
            ]
        }),
{
}

/// A check holds what it is made of.
pub proof fn checks_hold_their_parts(
    target: String,
    port: u16,
    timeout_secs: u64,
    expect_status: Option<u16>,
    expect_contains: Option<String>,
)
    ensures
        (HealthCheck::Ping { target, timeout_secs })@ == (HealthCheckView::Ping {
            target: target@,
            timeout_secs,
        }),
        (HealthCheck::Tcp { target, port, timeout_secs })@ == (HealthCheckView::Tcp {
            target: target@,
            port,
            timeout_secs,
        }),
        (HealthCheck::Http { url: target, timeout_secs, expect_status, expect_contains })@ == (
        HealthCheckView::Http {
            url: target@,
            timeout_secs,
            expect_status,
            expect_contains: text::opt_text(expect_contains),
        }),
{
}

/// A configuration, and an error of it, hold what they are made of.
pub proof fn config_holds_its_parts(c: AppConfig, path: String, fault: CheckFault)
    ensures
        c@.general.interval_secs == c.general.interval_secs,
        c@.general.failure_threshold == c.general.failure_threshold,
        c@.general.reconnect_cooldown_secs == c.general.reconnect_cooldown_secs,
        c@.general.shell == c.general.shell@,
        c@.general.log_level == c.general.log_level,
        c@.general.log_file == c.general.log_file@,
        c@.reconnect.warp_client == c.reconnect.warp_client,
        c@.reconnect.commands.len() == c.reconnect.commands@.len(),
        forall|i: int|
            0 <= i < c.reconnect.commands@.len() ==> #[trigger] c@.reconnect.commands[i]
                == c.reconnect.commands@[i]@,
        c@.monitor.interface_name == text::opt_text(c.monitor.interface_name),
        c@.monitor.primary_check == c.monitor.primary_check@,
        c@.reconnect_verify.checks.len() == c.reconnect_verify.checks@.len(),
        forall|i: int|
            0 <= i < c.reconnect_verify.checks@.len() ==> #[trigger] c@.reconnect_verify.checks[i]
                == c.reconnect_verify.checks@[i]@,
        ConfigError::IntervalZero@ is IntervalZero,
        ConfigError::ThresholdZero@ is ThresholdZero,
        ConfigError::ShellBlank@ is ShellBlank,
        ConfigError::LogFileBlank@ is LogFileBlank,
        (ConfigError::Check { path, fault })@ == (ConfigErrorView::Check { path: path@, fault }),
        fault_view(Ok(())) is None,
        fault_view(Err(ConfigError::Check { path, fault })) == Some(
            ConfigErrorView::Check { path: path@, fault },
        ),
{
}

} // verus!
