use warp_keeper::check::{CheckAction, CheckOutcome, TcpOutcome};
use warp_keeper::command::CommandOutcome;
use warp_keeper::logging::{level_name, log_line, terminal_only_warning};
use warp_keeper::monitor::{
    advance, log_report, log_single_check, run_check, start, CheckStep, MonitorAction,
    MonitorEvent, MonitorPhase, MonitorStep,
};
use warp_keeper::net::{
    address_command, connect_tcp_via_interface, query_interface_ipv4, AttemptOutcome, ConnectError,
    ConnectStep, Ipv4, RemoteAddr,
};
use warp_keeper::reconnect::{ReconnectError, ReconnectStep};
use warp_keeper::{
    execute_reconnect, plan_primary_check, AppConfig, CheckReport, HealthCheck, LogLevel,
    SingleCheckResult,
};

fn result(success: bool) -> SingleCheckResult {
    SingleCheckResult { name: "n".to_string(), success, detail: "d".to_string() }
}

fn config() -> AppConfig {
    let mut config = AppConfig::default();
    config.general.interval_secs = 7;
    config.general.reconnect_cooldown_secs = 5;
    config.reconnect.commands = vec!["one".to_string(), "two".to_string()];
    config
}

fn messages(step: &MonitorStep) -> Vec<&str> {
    step.log.iter().map(|r| r.message.as_str()).collect()
}

/// Checks once and lets the pause pass.
fn round(config: &AppConfig, step: MonitorStep, success: bool) -> MonitorStep {
    let step = advance(config, step.state, MonitorEvent::Checked(result(success)));
    assert_eq!(step.action, MonitorAction::Sleep(7));
    let step = advance(config, step.state, MonitorEvent::Paused);
    assert_eq!(step.action, MonitorAction::Check);
    step
}

#[test]
fn the_watch_begins_with_a_check() {
    let step = start("warp".to_string());
    assert_eq!(step.action, MonitorAction::Check);
    assert_eq!(step.state.interface, "warp");
    assert_eq!(messages(&step), vec!["使用 WARP 网卡: warp", "开始监控循环"]);
}

#[test]
fn the_connection_is_renewed_at_the_threshold() {
    let config = config();
    let mut step = start("warp".to_string());
    step = round(&config, step, false);
    step = round(&config, step, false);
    assert_eq!(step.state.consecutive_failures, 2);
    let step = advance(&config, step.state, MonitorEvent::Checked(result(false)));
    assert_eq!(step.action, MonitorAction::Reconnect);
    assert_eq!(step.state.phase, MonitorPhase::Reconnecting);
    assert_eq!(
        messages(&step),
        vec!["[FAIL] n -> d", "连续失败次数: 3/3", "开始执行重连命令序列"]
    );
}

#[test]
fn a_success_starts_the_count_anew() {
    let config = config();
    let mut step = start("warp".to_string());
    for success in [false, false, true, false, false] {
        step = round(&config, step, success);
    }
    assert_eq!(step.state.consecutive_failures, 2);
    step = round(&config, step, true);
    assert_eq!(step.state.consecutive_failures, 0);
}

#[test]
fn without_commands_there_is_an_error_and_a_new_count() {
    let mut config = config();
    config.reconnect.commands.clear();
    config.general.failure_threshold = 1;
    let step = start("warp".to_string());
    let step = advance(&config, step.state, MonitorEvent::Checked(result(false)));
    assert_eq!(step.action, MonitorAction::Sleep(7));
    assert_eq!(step.state.consecutive_failures, 0);
    assert_eq!(step.log[2].level, LogLevel::Error);
    assert_eq!(
        step.log[2].message,
        "reconnect.commands 为空，无法重连。请先执行 detect 或手动填写命令。"
    );
}

#[test]
fn a_reconnect_is_followed_by_its_checks() {
    let mut config = config();
    config.general.failure_threshold = 1;
    let step = start("warp".to_string());
    let step = advance(&config, step.state, MonitorEvent::Checked(result(false)));
    let step = advance(&config, step.state, MonitorEvent::Reconnected);
    assert_eq!(step.action, MonitorAction::Sleep(5));
    assert_eq!(messages(&step), vec!["重连命令执行完成"]);
    let step = advance(&config, step.state, MonitorEvent::CooledDown);
    assert_eq!(step.action, MonitorAction::Search);
    let found = Some("warp1".to_string());
    let step = advance(&config, step.state, MonitorEvent::Searched(found));
    assert_eq!(step.action, MonitorAction::Verify);
    assert_eq!(step.state.interface, "warp1");
    assert_eq!(messages(&step), vec!["重连后更新网卡为: warp1"]);
    let report = CheckReport { all_success: false, checks: vec![result(true), result(false)] };
    let step = advance(&config, step.state, MonitorEvent::Verified(report));
    assert_eq!(step.action, MonitorAction::Sleep(7));
    assert_eq!(step.state.consecutive_failures, 0);
    assert_eq!(
        messages(&step),
        vec!["[OK] n -> d", "[FAIL] n -> d", "重连后检测有失败，将继续主循环检测"]
    );
}

#[test]
fn a_reconnect_without_a_pause_and_without_a_new_interface() {
    let mut config = config();
    config.general.failure_threshold = 1;
    config.general.reconnect_cooldown_secs = 0;
    let step = start("warp".to_string());
    let step = advance(&config, step.state, MonitorEvent::Checked(result(false)));
    let step = advance(&config, step.state, MonitorEvent::Reconnected);
    assert_eq!(step.action, MonitorAction::Search);
    let same = advance(
        &config,
        step.state.clone(),
        MonitorEvent::Searched(Some("warp".to_string())),
    );
    let step = advance(&config, step.state, MonitorEvent::Searched(None));
    assert_eq!(same, step);
    assert!(step.log.is_empty());
    assert_eq!(step.state.interface, "warp");
    let report = CheckReport { all_success: true, checks: vec![] };
    let step = advance(&config, step.state, MonitorEvent::Verified(report));
    assert_eq!(messages(&step), vec!["重连后检测全部成功，恢复主检测循环"]);
}

#[test]
fn a_reconnect_that_fails_starts_the_count_anew() {
    let mut config = config();
    config.general.failure_threshold = 1;
    let step = start("warp".to_string());
    let step = advance(&config, step.state, MonitorEvent::Checked(result(false)));
    let e = ReconnectError::NonZero { number: 2, command: "two".to_string() };
    let step = advance(&config, step.state, MonitorEvent::ReconnectFailed(e));
    assert_eq!(step.action, MonitorAction::Sleep(7));
    assert_eq!(step.state.consecutive_failures, 0);
    assert_eq!(step.log[0].level, LogLevel::Error);
    assert_eq!(messages(&step), vec!["重连执行失败: 第 2 条重连命令返回非 0 退出码: `two`"]);
}

#[test]
fn results_are_logged() {
    let record = log_single_check(&result(true));
    assert_eq!((record.level, record.message.as_str()), (LogLevel::Info, "[OK] n -> d"));
    let record = log_single_check(&result(false));
    assert_eq!((record.level, record.message.as_str()), (LogLevel::Warn, "[FAIL] n -> d"));
    let report = CheckReport { all_success: false, checks: vec![result(false)] };
    assert_eq!(log_report(&report), vec![record]);
}

#[test]
fn a_single_check_is_the_primary_one() {
    let config = AppConfig::default();
    let ask = run_check(&config, "warp", &None);
    assert_eq!(ask, CheckStep::Ask(plan_primary_check(&config, "warp")));
    match &ask {
        CheckStep::Ask(CheckAction::Run(line)) => {
            assert_eq!(line.program, "ping");
            assert_eq!(line.args, vec!["-c", "1", "-W", "1", "-I", "warp", "1.1.1.1"]);
        }
        other => panic!("{:?}", other),
    }
    let end = |outcome| match run_check(&config, "warp", &Some(outcome)) {
        CheckStep::End { record, exit_code } => (record.level, record.message, exit_code),
        other => panic!("{:?}", other),
    };
    assert_eq!(
        end(CheckOutcome::Ping(CommandOutcome::Exited(true))),
        (LogLevel::Info, "[OK] ping(1.1.1.1@warp) -> 连通".to_string(), 0)
    );
    assert_eq!(
        end(CheckOutcome::Ping(CommandOutcome::Exited(false))),
        (LogLevel::Warn, "[FAIL] ping(1.1.1.1@warp) -> 失败".to_string(), 1)
    );
    assert_eq!(end(CheckOutcome::Ping(CommandOutcome::Failed("no".to_string()))).2, 1);
}

#[test]
fn a_single_check_has_the_configured_method() {
    let mut config = AppConfig::default();
    config.monitor.primary_check =
        HealthCheck::Tcp { target: "h".to_string(), port: 9, timeout_secs: 4 };
    assert_eq!(
        run_check(&config, "w", &None),
        CheckStep::Ask(CheckAction::Connect { host: "h".to_string(), port: 9, timeout_secs: 4 })
    );
    match run_check(&config, "w", &Some(CheckOutcome::Tcp(TcpOutcome::Connected))) {
        CheckStep::End { exit_code, .. } => assert_eq!(exit_code, 0),
        other => panic!("{:?}", other),
    }
}

#[test]
fn a_log_without_a_file_is_told() {
    assert_eq!(
        terminal_only_warning("/x/y.log", "denied"),
        "[WARN] 初始化日志文件 `/x/y.log` 失败，后续仅输出到终端，不写入磁盘: denied"
    );
}

#[test]
fn the_count_follows_any_history() {
    let mut config = config();
    config.general.failure_threshold = 2;
    let mut step = round(&config, start("warp".to_string()), false);
    step = round(&config, step, true);
    step = round(&config, step, false);
    step = advance(&config, step.state, MonitorEvent::Checked(result(false)));
    assert_eq!(step.action, MonitorAction::Reconnect);
    step = advance(&config, step.state, MonitorEvent::ReconnectFailed(ReconnectError::NoCommands));
    step = advance(&config, step.state, MonitorEvent::Paused);
    step = round(&config, step, false);
    step = advance(&config, step.state, MonitorEvent::Checked(result(false)));
    assert_eq!(step.action, MonitorAction::Reconnect);
    config.reconnect.commands.clear();
    let mut step = start("warp".to_string());
    for count in [1, 0, 1, 0] {
        step = round(&config, step, false);
        assert_eq!(step.state.consecutive_failures, count);
    }
}

#[test]
fn levels_allow_what_is_at_least_as_grave() {
    let levels = [LogLevel::Error, LogLevel::Warn, LogLevel::Info, LogLevel::Debug];
    for (i, a) in levels.iter().enumerate() {
        for (j, b) in levels.iter().enumerate() {
            assert_eq!(a.allows(*b), j <= i);
            assert_eq!(log_line(*a, *b, 0, "m").is_some(), j <= i);
        }
    }
    assert_eq!(LogLevel::default(), LogLevel::Info);
    assert_eq!(levels.map(level_name), ["ERROR", "WARN", "INFO", "DEBUG"]);
}

#[test]
fn lines_of_the_log_tell_time_and_level() {
    let line = log_line(LogLevel::Info, LogLevel::Warn, 1700000000, "坏").unwrap();
    assert_eq!(line.text, "[1700000000][WARN] 坏");
    assert!(!line.to_stderr);
    assert!(log_line(LogLevel::Error, LogLevel::Error, 1, "x").unwrap().to_stderr);
}

#[test]
fn commands_run_in_order_up_to_the_first_failure() {
    let config = config();
    let ok = || CommandOutcome::Exited(true);
    let run = |command: &str| match execute_reconnect(&config, &vec![ok(); 0]) {
        ReconnectStep::Run(mut line) => {
            line.args[1] = command.to_string();
            ReconnectStep::Run(line)
        }
        other => panic!("{:?}", other),
    };
    match execute_reconnect(&config, &vec![]) {
        ReconnectStep::Run(line) => {
            assert_eq!(line.program, "/bin/bash");
            assert_eq!(line.args, vec!["-lc", "one"]);
        }
        other => panic!("{:?}", other),
    }
    assert_eq!(execute_reconnect(&config, &vec![ok()]), run("two"));
    assert_eq!(execute_reconnect(&config, &vec![ok(), ok()]), ReconnectStep::Finished);
    assert_eq!(
        execute_reconnect(&config, &vec![CommandOutcome::Exited(false)]),
        ReconnectStep::Failed(ReconnectError::NonZero {
            number: 1,
            command: "one".to_string()
        })
    );
    assert_eq!(
        execute_reconnect(&config, &vec![ok(), CommandOutcome::Failed("gone".to_string())]),
        ReconnectStep::Failed(ReconnectError::NotRun {
            number: 2,
            command: "two".to_string(),
            cause: "gone".to_string()
        })
    );
    assert_eq!(
        execute_reconnect(&AppConfig::default(), &vec![]),
        ReconnectStep::Failed(ReconnectError::NoCommands)
    );
}

#[test]
fn errors_of_a_reconnect_are_told() {
    assert_eq!(ReconnectError::NoCommands.message(), "`reconnect.commands` 为空，无法执行重连");
    let e = ReconnectError::NotRun {
        number: 12,
        command: "c".to_string(),
        cause: "gone".to_string(),
    };
    assert_eq!(e.message(), "执行第 12 条重连命令失败: `c`: gone");
}

fn ip(d: u8) -> Ipv4 {
    Ipv4 { a: 10, b: 0, c: 0, d }
}

#[test]
fn every_local_address_is_tried_with_a_remote_one() {
    let remotes = Some(Ok(vec![
        RemoteAddr::V6,
        RemoteAddr::V4 { ip: ip(1), port: 80 },
        RemoteAddr::V6,
        RemoteAddr::V4 { ip: ip(2), port: 81 },
    ]));
    let locals = Some(Ok(vec![ip(7), ip(8)]));
    let mut attempts = Vec::new();
    for (remote, port, local) in
        [(ip(1), 80, ip(7)), (ip(1), 80, ip(8)), (ip(2), 81, ip(7)), (ip(2), 81, ip(8))]
    {
        assert_eq!(
            connect_tcp_via_interface("w", &remotes, &locals, &attempts),
            ConnectStep::Try { remote, port, local }
        );
        attempts.push(AttemptOutcome::Refused(format!("r{}", attempts.len())));
    }
    assert_eq!(
        connect_tcp_via_interface("w", &remotes, &locals, &attempts),
        ConnectStep::Failed(ConnectError::Outside("r3".to_string()))
    );
    attempts[2] = AttemptOutcome::Connected;
    assert_eq!(
        connect_tcp_via_interface("w", &remotes, &locals, &attempts[..3].to_vec()),
        ConnectStep::Connected
    );
    attempts[0] = AttemptOutcome::Unusable("u".to_string());
    assert_eq!(
        connect_tcp_via_interface("w", &remotes, &locals, &attempts[..1].to_vec()),
        ConnectStep::Failed(ConnectError::Outside("u".to_string()))
    );
}

#[test]
fn a_connection_needs_addresses() {
    let no = || Err("no".to_string());
    let some = Some(Ok(vec![RemoteAddr::V6]));
    let locals = Some(Ok(vec![ip(7)]));
    let step = |r: &Option<Result<Vec<RemoteAddr>, String>>,
                l: &Option<Result<Vec<Ipv4>, String>>| {
        connect_tcp_via_interface("w", r, l, &vec![])
    };
    assert_eq!(step(&None, &None), ConnectStep::Resolve);
    assert_eq!(step(&some, &None), ConnectStep::QueryInterface);
    let told = |s: ConnectStep| match s {
        ConnectStep::Failed(e) => e.message(),
        other => panic!("{:?}", other),
    };
    assert_eq!(told(step(&Some(no()), &None)), "no");
    assert_eq!(told(step(&Some(Ok(vec![])), &None)), "目标地址解析为空");
    assert_eq!(told(step(&some, &Some(Err("no".to_string())))), "no");
    assert_eq!(told(step(&some, &Some(Ok(vec![])))), "网卡 `w` 未找到 IPv4 地址");
    assert_eq!(told(step(&some, &locals)), "全部地址连接失败");
}

#[test]
fn the_addresses_of_an_interface_are_listed_by_a_command() {
    let line = address_command("warp");
    assert_eq!(line.program, "ip");
    assert_eq!(line.args, vec!["-4", "-o", "addr", "show", "dev", "warp"]);
    let listing = b"5: warp\xff inet 10.0.0.7/32 scope\n";
    assert_eq!(query_interface_ipv4(true, listing), vec![ip(7)]);
    assert_eq!(query_interface_ipv4(false, listing), vec![]);
}
