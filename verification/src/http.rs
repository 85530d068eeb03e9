//! One request of HTTP, and what its response says.
use vstd::prelude::*;

use crate::number;
use crate::text;
use crate::url;
use crate::url::ParsedHttpUrl;

verus! {

/// What the header `Host` says: the host, and the port where it is not the usual one.
pub open spec fn host_header(u: url::ParsedHttpUrlView) -> Seq<char> {
    if u.port == url::DEFAULT_PORT {
        u.host
    } else {
        u.host + ":"@ + number::decimal(u.port as nat)
    }
}

/// The request for a page.
pub open spec fn request_text(u: url::ParsedHttpUrlView) -> Seq<char> {
    "GET "@ + u.path + " HTTP/1.1\r\nHost: "@ + host_header(u)
        + "\r\nUser-Agent: warp-keeper/0.1\r\nConnection: close\r\nAccept: */*\r\n\r\n"@
}

/// Writes the request for a page.
pub fn build_request(u: &ParsedHttpUrl) -> (r: String)
    ensures
        r@ == request_text(u@),
{
    let mut r: String = "GET ".to_owned();
    r.append(u.path.as_str());
    r.append(" HTTP/1.1\r\nHost: ");
    let mut host: String = u.host.clone();
    if u.port != url::DEFAULT_PORT {
        host.append(":");
        host.append(number::decimal_text(u.port as u64).as_str());
    }
    r.append(host.as_str());
    r.append("\r\nUser-Agent: warp-keeper/0.1\r\nConnection: close\r\nAccept: */*\r\n\r\n");
    r
}

/// The status that a status line tells: its second word, where that is a number.
pub open spec fn status_of(line: Seq<char>) -> Option<u16> {
    if text::words(line).len() < 2 {
        None
    } else {
        number::u16_of(text::words(line)[1])
    }
}

/// Reads the status in a status line.
pub fn parse_http_status(status_line: &str) -> (r: Option<u16>)
    ensures
        r == status_of(status_line@),
{
    let parts: Vec<String> = text::split_words(status_line);
    assert(text::texts(parts@).len() == parts@.len());
    if parts.len() < 2 {
        return None;
    }
    assert(text::texts(parts@)[1] == parts@[1]@);
    number::parse_u16(parts[1].as_str())
}

/// The first line of a text; empty where the text is.
pub open spec fn first_line_of(s: Seq<char>) -> Seq<char> {
    if s.len() == 0 {
        s
    } else {
        text::lines(s)[0]
    }
}

/// The first line of a text; empty where the text is.
pub fn first_line(s: &str) -> (r: String)
    ensures
        r@ == first_line_of(s@),
{
    let v: Vec<char> = text::chars_of(s);
    let end: usize = text::find_char(&v, '\n', 0);
    assert(s@.skip(0) =~= s@);
    if end >= v.len() {
        return s.to_owned();
    }
    let mut e: usize = end;
    if end > 0 && v[end - 1] == '\r' {
        e = end - 1;
    }
    let r: String = text::slice(s, 0, e);
    assert(end > 0 ==> s@.take(end as int).last() == v@[end - 1]);
    assert(r@ =~= text::without_cr(s@.take(end as int)));
    r
}

/// The status that a response tells in its first line; zero where it tells none.
pub open spec fn response_status(s: Seq<char>) -> u16 {
    match status_of(first_line_of(s)) {
        Some(status) => status,
        None => 0,
    }
}

/// The body of a response: what stands between its first blank line and the next, or the end;
/// empty where there is no blank line.
pub open spec fn body_of(s: Seq<char>) -> Seq<char> {
    match text::find_text(s, "\r\n\r\n"@, 0) {
        None => seq![],
        Some(i) => match text::find_text(s, "\r\n\r\n"@, i + 4) {
            Some(j) => s.subrange(i + 4, j),
            None => s.skip(i + 4),
        },
    }
}

/// The body of a response.
pub fn response_body(s: &str) -> (r: String)
    ensures
        r@ == body_of(s@),
{
    let v: Vec<char> = text::chars_of(s);
    let n: usize = v.len();
    let blank: Vec<char> = text::chars_of("\r\n\r\n");
    proof {
        reveal_strlit("\r\n\r\n");
        text::lemma_find_text(s@, "\r\n\r\n"@, 0);
    }
    match text::find(&v, &blank, 0) {
        None => {
            let r: String = String::new();
            assert(r@ =~= seq![]);
            r
        },
        Some(i) => {
            proof {
                text::lemma_find_text(s@, "\r\n\r\n"@, i + 4);
            }
            match text::find(&v, &blank, i + 4) {
                Some(j) => text::slice(s, i + 4, j),
                None => {
                    let r: String = text::slice(s, i + 4, n);
                    assert(r@ =~= s@.skip(i + 4));
                    r
                },
            }
        },
    }
}

/// A response has what is expected of it: the status where one is expected, and the keyword, as
/// it is written, in its body where one is expected.
pub open spec fn response_meets(
    s: Seq<char>,
    expect_status: Option<u16>,
    expect_contains: Option<Seq<char>>,
) -> bool {
    &&& expect_status matches Some(expected) ==> response_status(s) == expected
    &&& expect_contains matches Some(keyword) ==> text::contains_text(body_of(s), keyword)
}

/// What is told of a response: a wrong status first, then a missing keyword, else its status.
pub open spec fn response_detail(
    s: Seq<char>,
    expect_status: Option<u16>,
    expect_contains: Option<Seq<char>>,
) -> Seq<char> {
    if expect_status is Some && response_status(s) != expect_status->0 {
        "状态码不匹配: 实际 "@ + number::decimal(response_status(s) as nat) + ", 期望 "@
            + number::decimal(expect_status->0 as nat)
    } else if expect_contains is Some && !text::contains_text(body_of(s), expect_contains->0) {
        "响应体未命中关键字 `"@ + expect_contains->0 + "`"@
    } else {
        "状态码 "@ + number::decimal(response_status(s) as nat)
    }
}

/// Judges the text of a response: whether it has what is expected of it, and what is told of it.
pub fn judge_response(
    response: &str,
    expect_status: Option<u16>,
    expect_contains: &Option<String>,
) -> (r: (bool, String))
    ensures
        r.0 == response_meets(response@, expect_status, text::opt_text(*expect_contains)),
        r.1@ == response_detail(response@, expect_status, text::opt_text(*expect_contains)),
{
    let line: String = first_line(response);
    let status: u16 = match parse_http_status(line.as_str()) {
        Some(status) => status,
        None => 0,
    };
    if let Some(expected) = expect_status {
        if status != expected {
            let mut detail: String = "状态码不匹配: 实际 ".to_owned();
            detail.append(number::decimal_text(status as u64).as_str());
            detail.append(", 期望 ");
            detail.append(number::decimal_text(expected as u64).as_str());
            return (false, detail);
        }
    }
    if let Some(keyword) = expect_contains {
        let body: String = response_body(response);
        if !text::contains(body.as_str(), keyword.as_str()) {
            let mut detail: String = "响应体未命中关键字 `".to_owned();
            detail.append(keyword.as_str());
            detail.append("`");
            return (false, detail);
        }
    }
    let mut detail: String = "状态码 ".to_owned();
    detail.append(number::decimal_text(status as u64).as_str());
    (true, detail)
}

/// The host and port that the header `Host` of a request tells are those that are asked: wherever
/// it tells a port, and wherever the host holds no colon.
pub proof fn host_header_reads_back(u: url::ParsedHttpUrlView)
    requires
        u.host.len() > 0,
        u.host[0] != '[',
        u.port == url::DEFAULT_PORT ==> !u.host.contains(':'),
    ensures
        url::host_port_of(host_header(u)) == Ok::<(Seq<char>, u16), url::UrlErrorView>(
            (u.host, u.port),
        ),
{
    if u.port == url::DEFAULT_PORT {
        text::lemma_last_index(u.host, ':');
    } else {
        url::authority_reads_back(u.host, u.port);
    }
}

/// A response is taken apart at the blank line between its head and its body, where that is its
/// first blank line and the body holds none.
pub proof fn body_reads_back(head: Seq<char>, body: Seq<char>)
    requires
        text::find_text(head + "\r\n\r\n"@ + body, "\r\n\r\n"@, 0) == Some(head.len() as int),
        !text::contains_text(body, "\r\n\r\n"@),
    ensures
        body_of(head + "\r\n\r\n"@ + body) == body,
{
    let blank = "\r\n\r\n"@;
    let s = head + blank + body;
    reveal_strlit("\r\n\r\n");
    let from = head.len() as int + 4;
    text::lemma_find_text(s, blank, from);
    assert forall|k: int| from <= k implies !text::occurs_at(s, blank, k) by {
        if text::occurs_at(s, blank, k) {
            assert(body.subrange(k - from, k - from + 4) =~= s.subrange(k, k + 4));
            assert(text::occurs_at(body, blank, k - from));
        }
    }
    assert(s.skip(from) =~= body);
}

/// A response is accepted whatever it holds where nothing is expected of it.
pub proof fn nothing_expected_accepts_all(s: Seq<char>)
    ensures
        response_meets(s, None, None),
{
}

/// The header `Host` tells the host alone for port 80, and the port behind a colon for any other.
pub proof fn host_header_tells_unusual_ports(u: url::ParsedHttpUrlView)
    ensures
        u.port == 80 ==> host_header(u) == u.host,
        u.port != 80 ==> host_header(u) == u.host + seq![':'] + number::decimal(u.port as nat),
{
    reveal_strlit(":");
    assert(":"@ =~= seq![':']);
}

/// A request asks for the path as it is, of the host that the header tells, over a connection that
/// is closed behind the response; it ends with a blank line.
pub proof fn request_asks_for_the_path(u: url::ParsedHttpUrlView)
    ensures
        request_text(u) == "GET "@ + u.path + " HTTP/1.1\r\nHost: "@ + host_header(u)
            + "\r\nUser-Agent: warp-keeper/0.1\r\nConnection: close\r\nAccept: */*\r\n\r\n"@,
{
}

/// The status is the second word of a status line, whatever the first is and whatever stands
/// behind: a line of fewer words tells none.
pub proof fn second_word_tells_the_status(
    gap: Seq<char>,
    version: Seq<char>,
    space: Seq<char>,
    word: Seq<char>,
    rest: Seq<char>,
)
    requires
        text::is_blank(gap),
        text::is_word(version),
        text::is_blank(space),
        space.len() > 0,
        text::is_word(word),
        rest.len() == 0 || text::is_whitespace(rest[0]),
    ensures
        status_of(gap + version + (space + word + rest)) == number::u16_of(word),
        status_of(gap + version + space) is None,
        status_of(gap + version) is None,
        status_of(gap) is None,
{
    assert(text::is_whitespace(space[0]));
    assert((space + word + rest)[0] == space[0]);
    text::word_in_front(gap, version, space + word + rest);
    text::word_in_front(space, word, rest);
    text::word_in_front(gap, version, space);
    text::word_in_front(gap, version, seq![]);
    assert(gap + version + seq![] =~= gap + version);
    text::word_in_front(seq![], version, seq![]);
    assert(text::words(gap + version + (space + word + rest)) =~= seq![version] + (seq![word]
        + text::words(rest)));
}

proof fn lemma_decimal_is_word(n: nat)
    ensures
        text::is_word(number::decimal(n)),
{
    number::decimal_reads_back(n);
    assert forall|i: int| 0 <= i < number::decimal(n).len() implies !text::is_whitespace(
        #[trigger] number::decimal(n)[i],
    ) by {
        assert(number::is_digit(number::decimal(n)[i]));
    }
}

/// A status line written from a version, a status and a reason, of however many words, tells that
/// status; so does one without a reason.
pub proof fn status_line_reads_back(version: Seq<char>, n: u16, reason: Seq<char>)
    requires
        text::is_word(version),
    ensures
        status_of(version + " "@ + number::decimal(n as nat) + " "@ + reason) == Some(n),
        status_of(version + " "@ + number::decimal(n as nat)) == Some(n),
{
    reveal_strlit(" ");
    let word = number::decimal(n as nat);
    lemma_decimal_is_word(n as nat);
    number::u16_reads_back(n);
    assert(text::is_whitespace(" "@[0]));
    second_word_tells_the_status(seq![], version, " "@, word, " "@ + reason);
    second_word_tells_the_status(seq![], version, " "@, word, seq![]);
    assert(seq![] + version + (" "@ + word + (" "@ + reason)) =~= version + " "@ + word + " "@
        + reason);
    assert(seq![] + version + (" "@ + word + seq![]) =~= version + " "@ + word);
}

/// The first line of a text ends at its first line feed, and at a carriage return right before it;
/// a text without a line feed is its first line.
pub proof fn first_line_ends_at_the_line_feed(line: Seq<char>, rest: Seq<char>)
    requires
        !line.contains('\n'),
    ensures
        first_line_of(line + seq!['\n'] + rest) == if line.len() > 0 && line.last() == '\r' {
            line.drop_last()
        } else {
            line
        },
        first_line_of(line) == line,
{
    text::line_in_front(line, rest);
}

/// The status of a response is what its first line tells, and zero where that tells none.
pub proof fn response_status_is_that_of_the_first_line(s: Seq<char>)
    ensures
        status_of(first_line_of(s)) matches Some(n) ==> response_status(s) == n,
        status_of(first_line_of(s)) is None ==> response_status(s) == 0,
{
}

/// A response that starts with a status line written from a version, a status and a reason has
/// that status, whatever follows the line.
pub proof fn response_status_reads_back(
    version: Seq<char>,
    n: u16,
    reason: Seq<char>,
    rest: Seq<char>,
)
    requires
        text::is_word(version),
        !reason.contains('\n'),
    ensures
        response_status(
            version + " "@ + number::decimal(n as nat) + " "@ + reason + "\r\n"@ + rest,
        ) == n,
{
    reveal_strlit(" ");
    reveal_strlit("\r\n");
    let word = number::decimal(n as nat);
    let line = version + " "@ + word + " "@ + reason;
    let ended = line.push('\r');
    lemma_decimal_is_word(n as nat);
    assert forall|i: int| 0 <= i < ended.len() implies ended[i] != '\n' by {
        let (a, b) = (version.len() as int, word.len() as int);
        if i < a {
            assert(!text::is_whitespace(version[i]));
        } else if a < i < a + 1 + b {
            assert(!text::is_whitespace(word[i - a - 1]));
        } else if a + b + 2 <= i < line.len() {
            assert(reason.contains(reason[i - a - b - 2]));
        }
    }
    first_line_ends_at_the_line_feed(ended, rest);
    assert(ended.drop_last() =~= line);
    assert(line + "\r\n"@ + rest =~= ended + seq!['\n'] + rest);
    status_line_reads_back(version, n, reason);
}

proof fn lemma_first_blank_line(head: Seq<char>, rest: Seq<char>, from: Seq<char>)
    requires
        !text::contains_text(head + "\r\n\r"@, "\r\n\r\n"@),
    ensures
        text::find_text(from + head + "\r\n\r\n"@ + rest, "\r\n\r\n"@, from.len() as int) == Some(
            (from.len() + head.len()) as int,
        ),
{
    reveal_strlit("\r\n\r");
    reveal_strlit("\r\n\r\n");
    let blank = "\r\n\r\n"@;
    let s = from + head + blank + rest;
    let n = from.len() as int;
    let near = head + "\r\n\r"@;
    assert("\r\n\r"@ =~= blank.take(3));
    assert(s.subrange(n, n + near.len()) =~= near);
    assert forall|i: int| 0 <= i < near.len() implies near[i] == #[trigger] s[n + i] by {
        assert(s.subrange(n, n + near.len())[i] == near[i]);
    }
    text::lemma_find_text(s, blank, n);
    text::text_stands_where_it_was_put(from + head, blank, rest);
    assert((from + head).len() == n + head.len());
    assert forall|k: int| n <= k < n + head.len() implies !text::occurs_at(s, blank, k) by {
        if text::occurs_at(s, blank, k) {
            assert(near.subrange(k - n, k - n + 4) =~= s.subrange(k, k + 4));
            assert(text::occurs_at(near, blank, k - n));
        }
    }
}

/// The body of a response starts behind its first blank line and goes up to the next one, or to
/// the end where there is no other; a response without a blank line has none.
pub proof fn body_stands_between_blank_lines(head: Seq<char>, body: Seq<char>, rest: Seq<char>)
    requires
        !text::contains_text(head + "\r\n\r"@, "\r\n\r\n"@),
    ensures
        !text::contains_text(body + "\r\n\r"@, "\r\n\r\n"@) ==> body_of(
            head + "\r\n\r\n"@ + body + "\r\n\r\n"@ + rest,
        ) == body,
        !text::contains_text(body, "\r\n\r\n"@) ==> body_of(head + "\r\n\r\n"@ + body) == body,
        !text::contains_text(body, "\r\n\r\n"@) ==> body_of(body).len() == 0,
{
    reveal_strlit("\r\n\r\n");
    let blank = "\r\n\r\n"@;
    let none = Seq::<char>::empty();
    lemma_first_blank_line(head, body, none);
    assert(none + head + blank + body =~= head + blank + body);
    if !text::contains_text(body, blank) {
        body_reads_back(head, body);
        text::lemma_find_text(body, blank, 0);
    }
    if !text::contains_text(body + "\r\n\r"@, blank) {
        let s = head + blank + body + blank + rest;
        lemma_first_blank_line(head, body + blank + rest, none);
        assert(none + head + blank + (body + blank + rest) =~= s);
        lemma_first_blank_line(body, rest, head + blank);
        assert(head + blank + body + blank + rest =~= s);
        assert((head + blank).len() == head.len() + 4);
        assert(s.subrange(head.len() as int + 4, head.len() as int + 4 + body.len()) =~= body);
    }
}

/// What is expected of a response is expected of each thing on its own: the status must be the one
/// expected, and the body must be put together around the keyword, as it is written.
pub proof fn expectations_stand_on_their_own(
    s: Seq<char>,
    status: u16,
    keyword: Seq<char>,
    expect_status: Option<u16>,
    expect_contains: Option<Seq<char>>,
)
    ensures
        response_meets(s, expect_status, expect_contains) <==> response_meets(
            s,
            expect_status,
            None,
        ) && response_meets(s, None, expect_contains),
        response_meets(s, Some(status), None) <==> response_status(s) == status,
        response_meets(s, None, Some(keyword)) <==> exists|a: Seq<char>, b: Seq<char>|
            body_of(s) == #[trigger] (a + keyword + b),
        response_meets(s, None, None),
{
    let body = body_of(s);
    if text::contains_text(body, keyword) {
        text::text_within_parts_the_rest(body, keyword);
    }
    assert forall|a: Seq<char>, b: Seq<char>|
        body == #[trigger] (a + keyword + b) implies text::contains_text(body, keyword) by {
        text::text_stands_where_it_was_put(a, keyword, b);
    }
}

/// A response that meets what is expected is told by its status; one that does not, by its status
/// and the expected one where they differ, else by the keyword that it lacks.
pub proof fn judgement_is_told(s: Seq<char>, status: u16, keyword: Seq<char>)
    ensures
        forall|es: Option<u16>, ec: Option<Seq<char>>| #[trigger]
            response_meets(s, es, ec) ==> response_detail(s, es, ec) == "状态码 "@
                + number::decimal(response_status(s) as nat),
        forall|ec: Option<Seq<char>>|
            response_status(s) != status ==> #[trigger] response_detail(s, Some(status), ec)
                == "状态码不匹配: 实际 "@ + number::decimal(response_status(s) as nat) + ", 期望 "@
                + number::decimal(status as nat),
        forall|es: Option<u16>|
            #![trigger response_detail(s, es, Some(keyword))]
            response_meets(s, es, None) && !response_meets(s, es, Some(keyword))
                ==> response_detail(s, es, Some(keyword)) == "响应体未命中关键字 `"@ + keyword + "`"@,
{
}

proof fn lemma_ended_line(line: Seq<char>, rest: Seq<char>)
    requires
        !line.contains('\n'),
    ensures
        text::lines(line + seq!['\r', '\n'] + rest) == seq![line] + text::lines(rest),
{
    let ended = line.push('\r');
    assert forall|i: int| 0 <= i < ended.len() implies ended[i] != '\n' by {
        if i < line.len() {
            assert(line.contains(line[i]));
        }
    }
    text::line_in_front(ended, rest);
    assert(ended.drop_last() =~= line);
    assert(line + seq!['\r', '\n'] + rest =~= ended + seq!['\n'] + rest);
}

/// A request has six lines: what it asks for, of which host, by whom, that the connection is closed
/// behind the response, that any kind of page will do, and a blank one.
pub proof fn request_has_six_lines(u: url::ParsedHttpUrlView)
    requires
        !u.path.contains('\n'),
        !u.host.contains('\n'),
    ensures
        text::lines(request_text(u)) == seq![
            "GET "@ + u.path + " HTTP/1.1"@,
            "Host: "@ + host_header(u),
            "User-Agent: warp-keeper/0.1"@,
            "Connection: close"@,
            "Accept: */*"@,
            ""@,
        ],
{
    reveal_strlit("GET ");
    reveal_strlit(" HTTP/1.1");
    reveal_strlit(" HTTP/1.1\r\nHost: ");
    reveal_strlit("Host: ");
    reveal_strlit(":");
    reveal_strlit("User-Agent: warp-keeper/0.1");
    reveal_strlit("Connection: close");
    reveal_strlit("Accept: */*");
    reveal_strlit("");
    reveal_strlit("\r\nUser-Agent: warp-keeper/0.1\r\nConnection: close\r\nAccept: */*\r\n\r\n");
    let end = seq!['\r', '\n'];
    let a = "GET "@ + u.path + " HTTP/1.1"@;
    let b = "Host: "@ + host_header(u);
    let (c, d, e) = ("User-Agent: warp-keeper/0.1"@, "Connection: close"@, "Accept: */*"@);
    let none = Seq::<char>::empty();
    let f1 = ""@ + end + none;
    let e1 = e + end + f1;
    let d1 = d + end + e1;
    let c1 = c + end + d1;
    let b1 = b + end + c1;
    assert(" HTTP/1.1\r\nHost: "@ =~= " HTTP/1.1"@ + end + "Host: "@);
    assert("\r\nUser-Agent: warp-keeper/0.1\r\nConnection: close\r\nAccept: */*\r\n\r\n"@ =~= end
        + c1);
    assert(request_text(u) =~= a + end + b1);
    number::decimal_reads_back(u.port as nat);
    assert forall|i: int| 0 <= i < a.len() implies a[i] != '\n' by {
        if 4 <= i < 4 + u.path.len() {
            assert(u.path.contains(u.path[i - 4]));
        }
    }
    let h = host_header(u);
    assert forall|i: int| 0 <= i < h.len() implies h[i] != '\n' by {
        if i < u.host.len() {
            assert(u.host.contains(u.host[i]));
        } else if i > u.host.len() {
            assert(number::is_digit(number::decimal(u.port as nat)[i - u.host.len() - 1]));
        }
    }
    assert forall|i: int| 0 <= i < b.len() implies b[i] != '\n' by {
        if i >= 6 {
            assert(b[i] == h[i - 6]);
        }
    }
    lemma_ended_line(a, b1);
    lemma_ended_line(b, c1);
    lemma_ended_line(c, d1);
    lemma_ended_line(d, e1);
    lemma_ended_line(e, f1);
    lemma_ended_line(""@, none);
    assert(text::lines(none) =~= seq![]);
    assert(text::lines(request_text(u)) =~= seq![a, b, c, d, e, ""@]);
}

/// A page that is written out from a version, a status, a reason, headers and a body has what is
/// expected of it exactly where the status is the one expected and the body is put together around
/// the keyword.
pub proof fn written_page_is_judged(
    version: Seq<char>,
    n: u16,
    reason: Seq<char>,
    headers: Seq<char>,
    body: Seq<char>,
    status: u16,
    keyword: Seq<char>,
)
    requires
        text::is_word(version),
        !reason.contains('\n'),
        !text::contains_text(
            version + " "@ + number::decimal(n as nat) + " "@ + reason + "\r\n"@ + headers
                + "\r\n\r"@,
            "\r\n\r\n"@,
        ),
        !text::contains_text(body, "\r\n\r\n"@),
    ensures
        response_meets(
            version + " "@ + number::decimal(n as nat) + " "@ + reason + "\r\n"@ + headers
                + "\r\n\r\n"@ + body,
            Some(status),
            Some(keyword),
        ) <==> n == status && exists|a: Seq<char>, b: Seq<char>|
            body == #[trigger] (a + keyword + b),
{
    let line = version + " "@ + number::decimal(n as nat) + " "@ + reason + "\r\n"@;
    let s = line + headers + "\r\n\r\n"@ + body;
    response_status_reads_back(version, n, reason, headers + "\r\n\r\n"@ + body);
    assert(line + (headers + "\r\n\r\n"@ + body) =~= s);
    body_stands_between_blank_lines(line + headers, body, seq![]);
    expectations_stand_on_their_own(s, status, keyword, Some(status), Some(keyword));
}

} // verus!
