use warp_keeper::config::{validate_check, CheckFault, ConfigError};
use warp_keeper::interface::{
    interface_path, missing_interface_log, pick_warp_interface, resolve_interface_or_fail,
};
use warp_keeper::store::{ConfigExists, LoadedConfig};
use warp_keeper::{
    find_warp_interface, init_config, load_or_create_config, read_config, render_config,
    write_config, AppConfig, HealthCheck, LogLevel,
};

fn ping(target: &str, timeout_secs: u64) -> HealthCheck {
    HealthCheck::Ping { target: target.to_string(), timeout_secs }
}

fn tcp(target: &str, port: u16, timeout_secs: u64) -> HealthCheck {
    HealthCheck::Tcp { target: target.to_string(), port, timeout_secs }
}

fn page(url: &str, timeout_secs: u64) -> HealthCheck {
    HealthCheck::Http {
        url: url.to_string(),
        timeout_secs,
        expect_status: None,
        expect_contains: None,
    }
}

fn fault(check: HealthCheck) -> Option<CheckFault> {
    match validate_check(&check, "p") {
        Ok(()) => None,
        Err(ConfigError::Check { path, fault }) => {
            assert_eq!(path, "p");
            Some(fault)
        }
        Err(other) => panic!("{:?}", other),
    }
}

fn strings(v: &[&str]) -> Vec<String> {
    v.iter().map(|s| s.to_string()).collect()
}

#[test]
fn the_default_is_as_documented_and_valid() {
    let config = AppConfig::default();
    assert_eq!(config.validate(), Ok(()));
    assert_eq!(config.general.interval_secs, 2);
    assert_eq!(config.general.failure_threshold, 3);
    assert_eq!(config.general.reconnect_cooldown_secs, 2);
    assert_eq!(config.general.shell, "/bin/bash");
    assert_eq!(config.general.log_level, LogLevel::Info);
    assert_eq!(config.general.log_file, "/var/log/warp-keeper.log");
    assert_eq!(config.reconnect.warp_client, None);
    assert!(config.reconnect.commands.is_empty());
    assert_eq!(config.monitor.interface_name, None);
    match &config.monitor.primary_check {
        HealthCheck::Ping { target, timeout_secs } => {
            assert_eq!((target.as_str(), *timeout_secs), ("1.1.1.1", 1))
        }
        _ => panic!("默认主检测应为 ping"),
    }
    match &config.reconnect_verify.checks[0] {
        HealthCheck::Http { url, timeout_secs, expect_status, expect_contains } => {
            assert_eq!(url, "http://www.apple.com/library/test/success.html");
            assert_eq!((*timeout_secs, *expect_status), (3, Some(200)));
            assert_eq!(expect_contains.as_deref(), Some("Success"));
        }
        _ => panic!("{:?}", config),
    }
    match &config.reconnect_verify.checks[1] {
        HealthCheck::Tcp { target, port, timeout_secs } => {
            assert_eq!((target.as_str(), *port, *timeout_secs), ("1.1.1.1", 80, 3))
        }
        _ => panic!("{:?}", config),
    }
    assert_eq!(config.reconnect_verify.checks.len(), 2);
}

#[test]
fn faults_of_the_general_section_are_told_in_order() {
    let mut config = AppConfig::default();
    config.reconnect_verify.checks.push(ping("", 1));
    config.monitor.primary_check = ping("x", 0);
    config.general.log_file = "\u{3000}\t".to_string();
    config.general.shell = String::new();
    config.general.failure_threshold = 0;
    config.general.interval_secs = 0;
    assert_eq!(config.validate(), Err(ConfigError::IntervalZero));
    config.general.interval_secs = 1;
    assert_eq!(config.validate(), Err(ConfigError::ThresholdZero));
    config.general.failure_threshold = 1;
    assert_eq!(config.validate(), Err(ConfigError::ShellBlank));
    config.general.shell = "sh".to_string();
    assert_eq!(config.validate(), Err(ConfigError::LogFileBlank));
    config.general.log_file = "log".to_string();
    assert_eq!(
        config.validate().unwrap_err().message(),
        "`monitor.primary_check.timeout_secs` 必须大于 0"
    );
    config.monitor.primary_check = ping("x", 1);
    assert_eq!(
        config.validate().unwrap_err().message(),
        "`reconnect_verify.checks[2].target` 不能为空"
    );
    config.reconnect_verify.checks.pop();
    assert_eq!(config.validate(), Ok(()));
}

#[test]
fn the_first_faulty_check_is_named() {
    let mut config = AppConfig::default();
    config.reconnect_verify.checks = (0..12).map(|_| ping("x", 1)).collect();
    config.reconnect_verify.checks[10] = tcp("x", 0, 1);
    config.reconnect_verify.checks[11] = tcp("", 0, 1);
    assert_eq!(
        config.validate(),
        Err(ConfigError::Check {
            path: "reconnect_verify.checks[10]".to_string(),
            fault: CheckFault::PortZero,
        })
    );
}

#[test]
fn faults_of_checks_are_told() {
    assert_eq!(fault(ping("1.1.1.1", 1)), None);
    assert_eq!(fault(ping(" \n", 0)), Some(CheckFault::TargetBlank));
    assert_eq!(fault(ping("x", 0)), Some(CheckFault::TimeoutZero));
    assert_eq!(fault(tcp("x", 1, 1)), None);
    assert_eq!(fault(tcp("", 0, 0)), Some(CheckFault::TargetBlank));
    assert_eq!(fault(tcp("x", 0, 0)), Some(CheckFault::PortZero));
    assert_eq!(fault(tcp("x", 1, 0)), Some(CheckFault::TimeoutZero));
    assert_eq!(fault(page("HTTP://", 1)), None);
    assert_eq!(fault(page(" ", 0)), Some(CheckFault::UrlBlank));
    assert_eq!(fault(page("https://x", 0)), Some(CheckFault::UrlNotHttp));
    assert_eq!(fault(page(" http://x", 0)), Some(CheckFault::UrlNotHttp));
    assert_eq!(fault(page("http://x", 0)), Some(CheckFault::TimeoutZero));
}

#[test]
fn errors_of_the_configuration_are_told() {
    let told = |fault: CheckFault| {
        ConfigError::Check { path: "a.b".to_string(), fault }.message()
    };
    assert_eq!(ConfigError::IntervalZero.message(), "`general.interval_secs` 必须大于 0");
    assert_eq!(ConfigError::ThresholdZero.message(), "`general.failure_threshold` 必须大于 0");
    assert_eq!(ConfigError::ShellBlank.message(), "`general.shell` 不能为空");
    assert_eq!(ConfigError::LogFileBlank.message(), "`general.log_file` 不能为空");
    assert_eq!(told(CheckFault::TargetBlank), "`a.b.target` 不能为空");
    assert_eq!(told(CheckFault::PortZero), "`a.b.port` 必须大于 0");
    assert_eq!(told(CheckFault::UrlBlank), "`a.b.url` 不能为空");
    assert_eq!(told(CheckFault::UrlNotHttp), "`a.b.url` 仅支持 http://");
    assert_eq!(told(CheckFault::TimeoutZero), "`a.b.timeout_secs` 必须大于 0");
}

#[test]
fn files_have_a_header() {
    let file = render_config("[general]\n");
    assert!(file.starts_with("# warp-keeper 配置文件\n# 说明：\n# 1) "));
    assert!(file.ends_with("（ping/tcp/http）\n\n[general]\n"));
    assert_eq!(file.lines().filter(|l| l.starts_with('#')).count(), 6);
    let lines: Vec<&str> = file.lines().collect();
    assert_eq!(lines.len(), 8);
    assert_eq!(lines[6], "");
    assert_eq!(lines[7], "[general]");
}

#[test]
fn a_reader_of_toml_passes_over_the_header() {
    let body = "[reconnect]\nwarp_client = \"warp-go\"\ncommands = [\"warp-go o\"]\n";
    let form: toml::Table = toml::from_str(body).unwrap();
    let file: toml::Table = toml::from_str(&render_config(body)).unwrap();
    assert_eq!(file, form);
    assert_eq!(file["reconnect"]["warp_client"].as_str(), Some("warp-go"));
}

#[test]
fn what_is_created_is_read_next() {
    let created = match load_or_create_config(None) {
        Ok(LoadedConfig::Created(c)) => c,
        other => panic!("{:?}", other),
    };
    assert_eq!(write_config(&created, "x"), Ok(render_config("x")));
    match load_or_create_config(Some(created.clone())) {
        Ok(LoadedConfig::Read(c)) => assert_eq!(format!("{:?}", c), format!("{:?}", created)),
        other => panic!("{:?}", other),
    }
}

#[test]
fn a_configuration_without_checks_stays_without_checks() {
    let mut config = AppConfig::default();
    config.reconnect_verify.checks.clear();
    assert!(write_config(&config, "x").is_ok());
    assert!(read_config(config).unwrap().reconnect_verify.checks.is_empty());
}

#[test]
fn only_valid_configurations_are_read_and_written() {
    let good = AppConfig::default();
    let mut bad = AppConfig::default();
    bad.general.interval_secs = 0;
    assert_eq!(write_config(&good, "x"), Ok(render_config("x")));
    assert_eq!(write_config(&bad, "x"), Err(ConfigError::IntervalZero));
    assert!(read_config(good).is_ok());
    assert_eq!(read_config(bad).unwrap_err(), ConfigError::IntervalZero);
}

#[test]
fn a_missing_file_is_created_and_an_existing_one_is_kept() {
    match load_or_create_config(None) {
        Ok(LoadedConfig::Created(c)) => assert_eq!(c.validate(), Ok(())),
        other => panic!("{:?}", other),
    }
    let mut mine = AppConfig::default();
    mine.general.interval_secs = 77;
    match load_or_create_config(Some(mine)) {
        Ok(LoadedConfig::Read(c)) => assert_eq!(c.general.interval_secs, 77),
        other => panic!("{:?}", other),
    }
    let mut bad = AppConfig::default();
    bad.general.failure_threshold = 0;
    assert_eq!(load_or_create_config(Some(bad)).unwrap_err(), ConfigError::ThresholdZero);
}

#[test]
fn a_file_is_replaced_only_by_force() {
    assert!(init_config("c", false, false).is_ok());
    assert!(init_config("c", false, true).is_ok());
    assert!(init_config("c", true, true).is_ok());
    let e = init_config("c.toml", true, false).unwrap_err();
    assert_eq!(e, ConfigExists { path: "c.toml".to_string() });
    assert_eq!(e.message(), "配置文件已存在: c.toml（如需覆盖请使用 --force）");
}

#[test]
fn the_interface_of_warp_is_picked() {
    let pick = |v: &[&str]| pick_warp_interface(&strings(v));
    assert_eq!(pick(&[]), None);
    assert_eq!(pick(&["eth0", "lo", "wrap"]), None);
    assert_eq!(pick(&["wg-warp", "a-WaRp1", "eth0"]).as_deref(), Some("a-WaRp1"));
    assert_eq!(pick(&["a-warp", "warp"]).as_deref(), Some("warp"));
    assert_eq!(pick(&["warp", "Warp", "wArp"]).as_deref(), Some("Warp"));
    assert_eq!(pick(&["wArp", "warp", "Warp"]).as_deref(), Some("Warp"));
    assert_eq!(pick(&["xwarp", "Zwarp"]).as_deref(), Some("Zwarp"));
}

#[test]
fn the_configured_interface_comes_first_where_it_exists() {
    let mut config = AppConfig::default();
    let listing = || Ok::<_, String>(strings(&["warp", "eth0"]));
    assert_eq!(find_warp_interface(&config, true, listing()), Ok(Some("warp".to_string())));
    config.monitor.interface_name = Some("eth0".to_string());
    assert_eq!(find_warp_interface(&config, true, listing()), Ok(Some("eth0".to_string())));
    assert_eq!(find_warp_interface(&config, false, listing()), Ok(Some("warp".to_string())));
    assert_eq!(
        find_warp_interface(&config, true, Err("no".to_string())),
        Ok(Some("eth0".to_string()))
    );
    assert_eq!(
        find_warp_interface(&config, false, Err("no".to_string())),
        Err("no".to_string())
    );
    assert_eq!(interface_path("eth0"), "/sys/class/net/eth0");
}

#[test]
fn a_missing_interface_is_told() {
    assert_eq!(resolve_interface_or_fail(Some("w".to_string())), Ok("w".to_string()));
    assert_eq!(
        resolve_interface_or_fail(None),
        Err("请确认 WARP 已连接，或在 `monitor.interface_name` 手动指定网卡名".to_string())
    );
    assert_eq!(missing_interface_log(), "未找到名称包含 `warp` 的网卡（不区分大小写）");
}
