use std::cell::RefCell;
use std::collections::BTreeSet;

use warp_keeper::client::default_reconnect_commands;
use warp_keeper::command::CommandOutcome;
use warp_keeper::config::ConfigError;
use warp_keeper::detect::{apply_detection, client_from_answers, config_probe, detection_record};
use warp_keeper::{
    detect_client_builtin, detect_client_now, AppConfig, CommandProbe, LogLevel,
    SystemCommandProbe, WarpClient,
};

struct FakeProbe {
    ok_set: BTreeSet<String>,
}

impl CommandProbe for FakeProbe {
    fn command_ok(&self, command: &str) -> bool {
        self.ok_set.contains(command)
    }
}

struct RecordingProbe {
    ok: &'static str,
    asked: RefCell<Vec<String>>,
}

impl CommandProbe for RecordingProbe {
    fn command_ok(&self, command: &str) -> bool {
        self.asked.borrow_mut().push(command.to_string());
        command == self.ok
    }
}

const ALL: [&str; 8] = [
    "systemctl is-active --quiet warp-svc",
    "warp-cli --accept-tos status 2>/dev/null | grep -qi Connected",
    "command -v warp >/dev/null 2>&1",
    "systemctl is-active --quiet wg-quick@warp",
    "wg show warp >/dev/null 2>&1",
    "command -v warp-go >/dev/null 2>&1",
    "systemctl is-active --quiet warp-go",
    "pgrep -x warp-go >/dev/null 2>&1",
];

#[test]
fn detect_order_should_prefer_official_over_others() {
    let probe = FakeProbe {
        ok_set: [
            "systemctl is-active --quiet warp-svc".to_string(),
            "command -v warp >/dev/null 2>&1".to_string(),
            "command -v warp-go >/dev/null 2>&1".to_string(),
        ]
        .into_iter()
        .collect(),
    };
    let client = detect_client_builtin(&probe);
    assert_eq!(client, Some(WarpClient::WarpOfficial));
}

#[test]
fn detect_order_should_prefer_warp_wg_over_warp_go() {
    let probe = FakeProbe {
        ok_set: [
            "command -v warp >/dev/null 2>&1".to_string(),
            "command -v warp-go >/dev/null 2>&1".to_string(),
        ]
        .into_iter()
        .collect(),
    };
    let client = detect_client_builtin(&probe);
    assert_eq!(client, Some(WarpClient::WarpWg));
}

#[test]
fn every_command_tells_its_client_and_ends_the_asking() {
    for (i, command) in ALL.iter().enumerate() {
        let probe = RecordingProbe { ok: command, asked: RefCell::new(Vec::new()) };
        let expected = match i {
            0 | 1 => WarpClient::WarpOfficial,
            2 | 3 | 4 => WarpClient::WarpWg,
            _ => WarpClient::WarpGo,
        };
        assert_eq!(detect_client_builtin(&probe), Some(expected));
        assert_eq!(*probe.asked.borrow(), ALL[..i + 1].to_vec());
    }
}

#[test]
fn no_command_tells_no_client() {
    let probe = RecordingProbe { ok: "", asked: RefCell::new(Vec::new()) };
    let object: &dyn CommandProbe = &probe;
    assert_eq!(detect_client_builtin(object), None);
    assert_eq!(*probe.asked.borrow(), ALL.to_vec());
}

#[test]
fn answers_tell_the_client_of_the_first_success() {
    assert_eq!(client_from_answers(&vec![]), None);
    assert_eq!(client_from_answers(&vec![false; 8]), None);
    let mut answers = vec![false; 8];
    answers[7] = true;
    assert_eq!(client_from_answers(&answers), Some(WarpClient::WarpGo));
    answers[4] = true;
    assert_eq!(client_from_answers(&answers), Some(WarpClient::WarpWg));
    answers[1] = true;
    assert_eq!(client_from_answers(&answers), Some(WarpClient::WarpOfficial));
}

#[test]
fn detection_is_written_down() {
    let mut config = AppConfig::default();
    config.reconnect.commands = vec!["old".to_string()];
    let probe = RecordingProbe { ok: ALL[6], asked: RefCell::new(Vec::new()) };
    assert_eq!(detect_client_now(|_| probe, &mut config), Ok(Some(WarpClient::WarpGo)));
    assert_eq!(config.reconnect.warp_client, Some(WarpClient::WarpGo));
    assert_eq!(config.reconnect.commands, vec!["warp-go o", "warp-go o"]);
    assert_eq!(config.general.interval_secs, 2);
    let nothing = RecordingProbe { ok: "", asked: RefCell::new(Vec::new()) };
    assert_eq!(detect_client_now(|_| nothing, &mut config), Ok(None));
    assert_eq!(config.reconnect.warp_client, None);
    assert!(config.reconnect.commands.is_empty());
}

#[test]
fn detection_in_an_invalid_configuration_is_an_error() {
    let mut config = AppConfig::default();
    config.general.shell = " ".to_string();
    let probe = RecordingProbe { ok: ALL[0], asked: RefCell::new(Vec::new()) };
    assert_eq!(detect_client_now(|_| probe, &mut config), Err(ConfigError::ShellBlank));
    assert_eq!(config.reconnect.warp_client, Some(WarpClient::WarpOfficial));
}

/// Succeeds with the command lines of one shell.
struct OneShell {
    system: SystemCommandProbe,
    shell: &'static str,
}

impl CommandProbe for OneShell {
    fn command_ok(&self, command: &str) -> bool {
        self.system.command_line(command).program == self.shell
    }
}

#[test]
fn detection_uses_the_shell_of_the_configuration() {
    let mut config = AppConfig::default();
    config.general.shell = "/bin/zsh".to_string();
    assert_eq!(config_probe(&config).command_line("x").program, "/bin/zsh");
    let zsh = |system| OneShell { system, shell: "/bin/zsh" };
    assert_eq!(detect_client_now(zsh, &mut config), Ok(Some(WarpClient::WarpOfficial)));
    let bash = |system| OneShell { system, shell: "/bin/bash" };
    assert_eq!(detect_client_now(bash, &mut config), Ok(None));
    assert_eq!(config.general.shell, "/bin/zsh");
}

#[test]
fn detection_written_twice_is_as_written_once() {
    let mut config = AppConfig::default();
    apply_detection(&mut config, Some(WarpClient::WarpWg));
    apply_detection(&mut config, Some(WarpClient::WarpOfficial));
    assert_eq!(config.reconnect.warp_client, Some(WarpClient::WarpOfficial));
    assert_eq!(
        config.reconnect.commands,
        vec!["warp-cli --accept-tos disconnect", "warp-cli --accept-tos connect"]
    );
}

#[test]
fn clients_have_names_and_commands() {
    assert_eq!(WarpClient::WarpOfficial.to_string(), "warp-official");
    assert_eq!(WarpClient::WarpWg.to_string(), "warp-wg");
    assert_eq!(WarpClient::WarpGo.to_string(), "warp-go");
    assert_eq!(default_reconnect_commands(WarpClient::WarpWg), vec!["warp o", "warp o"]);
}

#[test]
fn system_probe_has_its_shell_run_the_command() {
    let line = SystemCommandProbe::new("/bin/sh".to_string()).command_line("true | false");
    assert_eq!(line.program, "/bin/sh");
    assert_eq!(line.args, vec!["-lc", "true | false"]);
    assert!(CommandOutcome::Exited(true).succeeded());
    assert!(!CommandOutcome::Exited(false).succeeded());
    assert!(!CommandOutcome::Failed("x".to_string()).succeeded());
}

#[test]
fn detection_is_logged() {
    let found = detection_record(Some(WarpClient::WarpGo));
    assert_eq!(found.level, LogLevel::Info);
    assert_eq!(found.message, "识别到客户端: warp-go，已写入 reconnect.commands");
    let none = detection_record(None);
    assert_eq!(none.level, LogLevel::Warn);
    assert_eq!(none.message, "未识别到客户端，已清空 reconnect.commands，请手动填写");
}
