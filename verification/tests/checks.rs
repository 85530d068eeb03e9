use warp_keeper::check::{
    plan_health_check, run_health_check, run_http_check, CheckAction, CheckOutcome, HttpOutcome,
    TcpOutcome,
};
use warp_keeper::command::CommandOutcome;
use warp_keeper::{
    run_primary_check, run_reconnect_verify_checks, AppConfig, HealthCheck, SingleCheckResult,
};

fn ping() -> HealthCheck {
    HealthCheck::Ping { target: "1.1.1.1".to_string(), timeout_secs: 12 }
}

fn tcp() -> HealthCheck {
    HealthCheck::Tcp { target: "a.b".to_string(), port: 443, timeout_secs: 3 }
}

fn page(url: &str) -> HealthCheck {
    HealthCheck::Http {
        url: url.to_string(),
        timeout_secs: 4,
        expect_status: Some(200),
        expect_contains: Some("ok".to_string()),
    }
}

fn result(name: &str, success: bool, detail: &str) -> SingleCheckResult {
    SingleCheckResult { name: name.to_string(), success, detail: detail.to_string() }
}

#[test]
fn a_ping_is_a_command() {
    match plan_health_check(&ping(), "warp0") {
        CheckAction::Run(line) => {
            assert_eq!(line.program, "ping");
            assert_eq!(line.args, vec!["-c", "1", "-W", "12", "-I", "warp0", "1.1.1.1"]);
        }
        other => panic!("{:?}", other),
    }
}

#[test]
fn connections_and_pages_are_asked_for() {
    assert_eq!(
        plan_health_check(&tcp(), "w"),
        CheckAction::Connect { host: "a.b".to_string(), port: 443, timeout_secs: 3 }
    );
    match plan_health_check(&page("http://a.b:8080/x"), "w") {
        CheckAction::Exchange { host, port, timeout_secs, request } => {
            assert_eq!((host.as_str(), port, timeout_secs), ("a.b", 8080, 4));
            assert!(request.starts_with("GET /x HTTP/1.1\r\nHost: a.b:8080\r\n"));
        }
        other => panic!("{:?}", other),
    }
    assert_eq!(plan_health_check(&page("https://a.b"), "w"), CheckAction::Nothing);
}

#[test]
fn pings_are_judged() {
    let judge = |o: CommandOutcome| run_health_check(&ping(), "w", &CheckOutcome::Ping(o));
    assert_eq!(judge(CommandOutcome::Exited(true)), result("ping(1.1.1.1@w)", true, "连通"));
    assert_eq!(judge(CommandOutcome::Exited(false)), result("ping(1.1.1.1@w)", false, "失败"));
    assert_eq!(
        judge(CommandOutcome::Failed("none".to_string())),
        result("ping(1.1.1.1@w)", false, "执行异常: none")
    );
}

#[test]
fn connections_are_judged() {
    let judge = |o: TcpOutcome| run_health_check(&tcp(), "w", &CheckOutcome::Tcp(o));
    assert_eq!(judge(TcpOutcome::Connected), result("tcp(a.b:443@w)", true, "连通"));
    assert_eq!(
        judge(TcpOutcome::Failed("no".to_string())),
        result("tcp(a.b:443@w)", false, "连接失败: no")
    );
}

#[test]
fn pages_are_judged() {
    let check = page("http://a.b/");
    let judge = |o: HttpOutcome| run_health_check(&check, "w", &CheckOutcome::Http(o));
    let name = "http(http://a.b/@w)";
    let e = || "no".to_string();
    assert_eq!(judge(HttpOutcome::ConnectFailed(e())), result(name, false, "连接失败: no"));
    assert_eq!(judge(HttpOutcome::SendFailed(e())), result(name, false, "发送请求失败: no"));
    assert_eq!(judge(HttpOutcome::TimeoutFailed(e())), result(name, false, "设置读取超时失败: no"));
    assert_eq!(judge(HttpOutcome::ReadFailed(e())), result(name, false, "读取响应失败: no"));
    assert_eq!(
        judge(HttpOutcome::Received(b"HTTP/1.1 200 OK\r\n\r\nok".to_vec())),
        result(name, true, "状态码 200")
    );
    assert_eq!(
        judge(HttpOutcome::Received(b"HTTP/1.1 200 OK\r\n\r\nOK".to_vec())),
        result(name, false, "响应体未命中关键字 `ok`")
    );
}

#[test]
fn a_page_without_an_address_fails() {
    assert_eq!(
        run_health_check(
            &page("https://a.b"),
            "w",
            &CheckOutcome::Http(HttpOutcome::NotStarted)
        ),
        result("http(https://a.b@w)", false, "URL 解析失败: 仅支持 http，不支持 https")
    );
    assert_eq!(
        run_http_check("http://a:x", None, &None, "w", &HttpOutcome::NotStarted).detail,
        "URL 解析失败: URL 端口解析失败: x"
    );
}

#[test]
fn bytes_that_are_no_text_are_replaced() {
    let raw = b"HTTP/1.1 200 OK\r\n\r\n\xffok\xe7\xbd\x91".to_vec();
    let judge = |keyword: &str| {
        run_http_check(
            "http://a.b",
            None,
            &Some(keyword.to_string()),
            "w",
            &HttpOutcome::Received(raw.clone()),
        )
        .success
    };
    assert!(judge("\u{fffd}ok网"));
    assert!(!judge("ÿok"));
}

#[test]
fn the_primary_check_is_the_configured_one() {
    let config = AppConfig::default();
    let outcome = CheckOutcome::Ping(CommandOutcome::Exited(true));
    assert_eq!(
        run_primary_check(&config, "warp", &outcome),
        result("ping(1.1.1.1@warp)", true, "连通")
    );
}

#[test]
fn a_reconnect_needs_every_check() {
    let config = AppConfig::default();
    let good = HttpOutcome::Received(b"HTTP/1.1 200 OK\r\n\r\n<TITLE>Success</TITLE>".to_vec());
    let all = run_reconnect_verify_checks(
        &config,
        "w",
        &vec![CheckOutcome::Http(good.clone()), CheckOutcome::Tcp(TcpOutcome::Connected)],
    );
    assert!(all.all_success);
    assert_eq!(all.checks.len(), 2);
    assert_eq!(all.checks[1], result("tcp(1.1.1.1:80@w)", true, "连通"));
    let some = run_reconnect_verify_checks(
        &config,
        "w",
        &vec![
            CheckOutcome::Http(good),
            CheckOutcome::Tcp(TcpOutcome::Failed("no".to_string())),
        ],
    );
    assert!(!some.all_success);
    assert!(some.checks[0].success && !some.checks[1].success);
    let other = HttpOutcome::Received(b"HTTP/1.1 200 OK\r\n\r\nsuccess".to_vec());
    let missed = run_reconnect_verify_checks(
        &config,
        "w",
        &vec![CheckOutcome::Http(other), CheckOutcome::Tcp(TcpOutcome::Connected)],
    );
    assert!(!missed.all_success);
    assert_eq!(missed.checks[0].detail, "响应体未命中关键字 `Success`");
    let mut none = AppConfig::default();
    none.reconnect_verify.checks.clear();
    assert!(run_reconnect_verify_checks(&none, "w", &vec![]).all_success);
}
