use warp_keeper::http::{
    build_request, first_line, judge_response, parse_http_status, response_body,
};
use warp_keeper::parse_http_url;
use warp_keeper::url::{parse_host_port, ParsedHttpUrl, UrlError};

fn parts(host: &str, port: u16, path: &str) -> ParsedHttpUrl {
    ParsedHttpUrl { host: host.to_string(), port, path: path.to_string() }
}

#[test]
fn parse_http_url_should_reject_https() {
    let result = parse_http_url("https://example.com");
    assert!(result.is_err());
}

#[test]
fn addresses_are_taken_apart() {
    assert_eq!(parse_http_url("http://a.b"), Ok(parts("a.b", 80, "/")));
    assert_eq!(parse_http_url("HTTP://a.b/"), Ok(parts("a.b", 80, "/")));
    assert_eq!(parse_http_url("hTtP://A.b:8080/x?y#z"), Ok(parts("A.b", 8080, "/x?y#z")));
    assert_eq!(parse_http_url("http://a:+81/"), Ok(parts("a", 81, "/")));
    assert_eq!(parse_http_url("http://a:0"), Ok(parts("a", 0, "/")));
    assert_eq!(parse_http_url("http://:8080/x"), Ok(parts(":8080", 80, "/x")));
    assert_eq!(parse_http_url("http://a:b:81/"), Ok(parts("a:b", 81, "/")));
    assert_eq!(parse_http_url("http://主机/路径"), Ok(parts("主机", 80, "/路径")));
}

#[test]
fn what_is_no_address_is_rejected() {
    assert_eq!(parse_http_url("HTTPS://a.b"), Err(UrlError::Https));
    assert_eq!(parse_http_url("ftp://a.b"), Err(UrlError::NotHttp));
    assert_eq!(parse_http_url(" http://a.b"), Err(UrlError::NotHttp));
    assert_eq!(parse_http_url("http:/"), Err(UrlError::NotHttp));
    assert_eq!(parse_http_url("http://"), Err(UrlError::EmptyHost));
    assert_eq!(parse_http_url("http:///x"), Err(UrlError::EmptyHost));
    assert_eq!(parse_http_url("http://[::1]:80/"), Err(UrlError::Ipv6Literal));
    assert_eq!(parse_http_url("http://a:x/"), Err(UrlError::BadPort("x".to_string())));
    assert_eq!(parse_http_url("http://a:/"), Err(UrlError::BadPort(String::new())));
    assert_eq!(parse_http_url("http://a:65536"), Err(UrlError::BadPort("65536".to_string())));
}

#[test]
fn errors_of_addresses_are_told() {
    assert_eq!(UrlError::Https.message(), "仅支持 http，不支持 https");
    assert_eq!(UrlError::NotHttp.message(), "URL 必须以 http:// 开头");
    assert_eq!(UrlError::EmptyHost.message(), "URL 主机不能为空");
    assert_eq!(UrlError::Ipv6Literal.message(), "当前版本不支持 IPv6 字面量 URL");
    assert_eq!(UrlError::BadPort("x".to_string()).message(), "URL 端口解析失败: x");
}

#[test]
fn a_written_address_reads_back() {
    let u = parse_http_url("http://a.b:8080/x/y").unwrap();
    let again = format!("http://{}:{}{}", u.host, u.port, u.path);
    assert_eq!(parse_http_url(&again), Ok(u));
    assert_eq!(parse_host_port("h:1"), Ok(("h".to_string(), 1)));
    assert_eq!(parse_host_port("h"), Ok(("h".to_string(), 80)));
}

#[test]
fn requests_name_path_and_host() {
    let tail = "\r\nUser-Agent: warp-keeper/0.1\r\nConnection: close\r\nAccept: */*\r\n\r\n";
    assert_eq!(
        build_request(&parts("a.b", 80, "/x")),
        format!("GET /x HTTP/1.1\r\nHost: a.b{}", tail)
    );
    assert_eq!(
        build_request(&parts("a.b", 8080, "/")),
        format!("GET / HTTP/1.1\r\nHost: a.b:8080{}", tail)
    );
}

#[test]
fn status_lines_tell_the_status() {
    assert_eq!(parse_http_status("HTTP/1.1 200 OK"), Some(200));
    assert_eq!(parse_http_status("  HTTP/1.1\t404"), Some(404));
    assert_eq!(parse_http_status("HTTP/1.1"), None);
    assert_eq!(parse_http_status(""), None);
    assert_eq!(parse_http_status("HTTP/1.1 abc"), None);
    assert_eq!(parse_http_status("HTTP/1.1 70000"), None);
}

#[test]
fn responses_are_taken_apart() {
    assert_eq!(first_line("a\r\nb"), "a");
    assert_eq!(first_line("a\r"), "a\r");
    assert_eq!(first_line("\nb"), "");
    assert_eq!(first_line(""), "");
    assert_eq!(response_body("h\r\n\r\nbody"), "body");
    assert_eq!(response_body("h\r\n\r\nbody\r\n\r\nmore"), "body");
    assert_eq!(response_body("h\r\n\r\n"), "");
    assert_eq!(response_body("h\r\nno body"), "");
    assert_eq!(response_body("h\n\nno body"), "");
    assert_eq!(response_body("\r\n\r\n\r\nx"), "\r\nx");
}

#[test]
fn responses_are_judged() {
    let page = "HTTP/1.1 200 OK\r\nServer: success\r\n\r\n<b>Success</b>";
    let keyword = |s: &str| Some(s.to_string());
    assert_eq!(judge_response(page, Some(200), &None), (true, "状态码 200".to_string()));
    assert_eq!(
        judge_response(page, Some(204), &keyword("absent")),
        (false, "状态码不匹配: 实际 200, 期望 204".to_string())
    );
    assert_eq!(
        judge_response(page, Some(200), &keyword("Success")),
        (true, "状态码 200".to_string())
    );
    assert_eq!(
        judge_response(page, Some(200), &keyword("success")),
        (false, "响应体未命中关键字 `success`".to_string())
    );
    assert_eq!(judge_response(page, None, &keyword("")), (true, "状态码 200".to_string()));
    assert_eq!(judge_response("garbage", None, &None), (true, "状态码 0".to_string()));
    assert_eq!(judge_response("", Some(0), &None), (true, "状态码 0".to_string()));
}
