//! HTTP addresses.
use vstd::prelude::*;

use crate::number;
use crate::text;

verus! {

/// The port of an address that names none.
pub const DEFAULT_PORT: u16 = 80;

/// The parts of an HTTP address.
#[derive(Debug, Clone, PartialEq, Eq)]
pub struct ParsedHttpUrl {
    pub host: String,
    pub port: u16,
    pub path: String,
}

/// What a `ParsedHttpUrl` holds.
pub struct ParsedHttpUrlView {
    pub host: Seq<char>,
    pub port: u16,
    pub path: Seq<char>,
}

impl View for ParsedHttpUrl {
    type V = ParsedHttpUrlView;

    open spec fn view(&self) -> ParsedHttpUrlView {
        ParsedHttpUrlView { host: self.host@, port: self.port, path: self.path@ }
    }
}

/// Why a text is no HTTP address.
#[derive(Debug, Clone, PartialEq, Eq)]
pub enum UrlError {
    /// It is an HTTPS address.
    Https,
    /// It does not start with the HTTP scheme.
    NotHttp,
    /// It names no host.
    EmptyHost,
    /// Its host is an IPv6 literal.
    Ipv6Literal,
    /// What stands where the port should is no port.
    BadPort(String),
}

/// What a `UrlError` holds.
pub enum UrlErrorView {
    Https,
    NotHttp,
    EmptyHost,
    Ipv6Literal,
    BadPort(Seq<char>),
}

impl View for UrlError {
    type V = UrlErrorView;

    open spec fn view(&self) -> UrlErrorView {
        match self {
            UrlError::Https => UrlErrorView::Https,
            UrlError::NotHttp => UrlErrorView::NotHttp,
            UrlError::EmptyHost => UrlErrorView::EmptyHost,
            UrlError::Ipv6Literal => UrlErrorView::Ipv6Literal,
            UrlError::BadPort(p) => UrlErrorView::BadPort(p@),
        }
    }
}

impl UrlErrorView {
    /// The text that tells a user of the error.
    pub open spec fn message(self) -> Seq<char> {
        match self {
            UrlErrorView::Https => "仅支持 http，不支持 https"@,
            UrlErrorView::NotHttp => "URL 必须以 http:// 开头"@,
            UrlErrorView::EmptyHost => "URL 主机不能为空"@,
            UrlErrorView::Ipv6Literal => "当前版本不支持 IPv6 字面量 URL"@,
            UrlErrorView::BadPort(p) => "URL 端口解析失败: "@ + p,
        }
    }
}

impl UrlError {
    /// The text that tells a user of the error.
    pub fn message(&self) -> (r: String)
        ensures
            r@ == self@.message(),
    {
        match self {
            UrlError::Https => "仅支持 http，不支持 https".to_owned(),
            UrlError::NotHttp => "URL 必须以 http:// 开头".to_owned(),
            UrlError::EmptyHost => "URL 主机不能为空".to_owned(),
            UrlError::Ipv6Literal => "当前版本不支持 IPv6 字面量 URL".to_owned(),
            UrlError::BadPort(p) => {
                let mut s: String = "URL 端口解析失败: ".to_owned();
                s.append(p.as_str());
                s
            },
        }
    }
}

/// The text starts with the HTTP scheme, in any case of its letters.
pub open spec fn has_http_scheme(url: Seq<char>) -> bool {
    "http://"@.is_prefix_of(text::lower_text(url))
}

/// The text starts with the HTTPS scheme, in any case of its letters.
pub open spec fn has_https_scheme(url: Seq<char>) -> bool {
    "https://"@.is_prefix_of(text::lower_text(url))
}

/// The host and the port that the authority of an address names: the port stands behind the last
/// colon, unless nothing stands before that colon.
pub open spec fn host_port_of(authority: Seq<char>) -> Result<(Seq<char>, u16), UrlErrorView> {
    if authority.len() > 0 && authority[0] == '[' {
        Err(UrlErrorView::Ipv6Literal)
    } else {
        match text::last_index(authority, ':') {
            Some(i) => if i > 0 {
                match number::u16_of(authority.skip(i + 1)) {
                    Some(port) => Ok((authority.take(i), port)),
                    None => Err(UrlErrorView::BadPort(authority.skip(i + 1))),
                }
            } else {
                Ok((authority, DEFAULT_PORT))
            },
            None => Ok((authority, DEFAULT_PORT)),
        }
    }
}

/// The authority of an address: what stands between the scheme and the next slash.
pub open spec fn authority_of(url: Seq<char>) -> Seq<char> {
    url.skip(7).take(text::before(url.skip(7), '/') as int)
}

/// The path of an address: what stands from the first slash behind the scheme on, or a slash.
pub open spec fn path_of(url: Seq<char>) -> Seq<char> {
    let rest = url.skip(7);
    let n = text::before(rest, '/');
    if n < rest.len() {
        rest.skip(n as int)
    } else {
        "/"@
    }
}

/// The parts of an HTTP address, or why the text is none.
pub open spec fn url_of(url: Seq<char>) -> Result<ParsedHttpUrlView, UrlErrorView> {
    if has_https_scheme(url) {
        Err(UrlErrorView::Https)
    } else if !has_http_scheme(url) {
        Err(UrlErrorView::NotHttp)
    } else if authority_of(url).len() == 0 {
        Err(UrlErrorView::EmptyHost)
    } else {
        match host_port_of(authority_of(url)) {
            Ok((host, port)) => Ok(ParsedHttpUrlView { host, port, path: path_of(url) }),
            Err(e) => Err(e),
        }
    }
}

/// What the result of `parse_host_port` holds.
pub open spec fn host_port_view(r: Result<(String, u16), UrlError>) -> Result<
    (Seq<char>, u16),
    UrlErrorView,
> {
    match r {
        Ok((host, port)) => Ok((host@, port)),
        Err(e) => Err(e@),
    }
}

/// What the result of `parse_http_url` holds.
pub open spec fn url_view(r: Result<ParsedHttpUrl, UrlError>) -> Result<
    ParsedHttpUrlView,
    UrlErrorView,
> {
    match r {
        Ok(u) => Ok(u@),
        Err(e) => Err(e@),
    }
}

/// Splits the authority of an address into host and port.
pub fn parse_host_port(authority: &str) -> (r: Result<(String, u16), UrlError>)
    ensures
        host_port_view(r) == host_port_of(authority@),
{
    let v: Vec<char> = text::chars_of(authority);
    if v.len() > 0 && v[0] == '[' {
        return Err(UrlError::Ipv6Literal);
    }
    if let Some(i) = text::find_last_char(&v, ':') {
        proof {
            text::lemma_last_index(authority@, ':');
        }
        if i > 0 {
            let port_text: String = text::slice(authority, i + 1, v.len());
            assert(port_text@ =~= authority@.skip(i + 1));
            return match number::parse_u16(port_text.as_str()) {
                Some(port) => {
                    let host: String = text::slice(authority, 0, i);
                    assert(host@ =~= authority@.take(i as int));
                    Ok((host, port))
                },
                None => Err(UrlError::BadPort(port_text)),
            };
        }
    }
    Ok((authority.to_owned(), DEFAULT_PORT))
}

/// Reads an HTTP address.
pub fn parse_http_url(url: &str) -> (r: Result<ParsedHttpUrl, UrlError>)
    ensures
        url_view(r) == url_of(url@),
{
    if text::starts_with_lowered(url, "https://") {
        return Err(UrlError::Https);
    }
    if !text::starts_with_lowered(url, "http://") {
        return Err(UrlError::NotHttp);
    }
    proof {
        reveal_strlit("http://");
    }
    let v: Vec<char> = text::chars_of(url);
    let slash: usize = text::find_char(&v, '/', 7);
    let authority: String = text::slice(url, 7, slash);
    let path: String = if slash < v.len() {
        text::slice(url, slash, v.len())
    } else {
        "/".to_owned()
    };
    proof {
        let n = text::before(url@.skip(7), '/') as int;
        assert(authority@ =~= url@.skip(7).take(n));
        assert(slash < v@.len() ==> path@ =~= url@.skip(7).skip(n));
    }
    if authority.as_str().is_empty() {
        return Err(UrlError::EmptyHost);
    }
    match parse_host_port(authority.as_str()) {
        Ok((host, port)) => Ok(ParsedHttpUrl { host, port, path }),
        Err(e) => Err(e),
    }
}

/// An HTTPS address is never accepted.
pub proof fn https_is_rejected(url: Seq<char>)
    requires
        has_https_scheme(url),
    ensures
        url_of(url) == Err::<ParsedHttpUrlView, UrlErrorView>(UrlErrorView::Https),
        !has_http_scheme(url),
{
    reveal_strlit("http://");
    reveal_strlit("https://");
    let l = text::lower_text(url);
    assert(l[4] == "https://"@[4]);
    if has_http_scheme(url) {
        assert(l[4] == "http://"@[4]);
    }
}

/// What an accepted address is made of: it has the HTTP scheme; its host is not empty, holds no
/// slash and is no IPv6 literal; its path starts with a slash.
pub proof fn accepted_url_is_sound(url: Seq<char>)
    requires
        url_of(url) is Ok,
    ensures
        has_http_scheme(url),
        url_of(url)->Ok_0.host.len() > 0,
        url_of(url)->Ok_0.host[0] != '[',
        !url_of(url)->Ok_0.host.contains('/'),
        url_of(url)->Ok_0.path.len() > 0,
        url_of(url)->Ok_0.path[0] == '/',
{
    reveal_strlit("/");
    text::lemma_before(url.skip(7), '/');
    text::lemma_last_index(authority_of(url), ':');
}

/// An address written from a host, a port and a path reads back as these.
pub proof fn url_reads_back(host: Seq<char>, port: u16, path: Seq<char>)
    requires
        host.len() > 0,
        host[0] != '[',
        !host.contains('/'),
        path.len() > 0,
        path[0] == '/',
    ensures
        url_of("http://"@ + host + ":"@ + number::decimal(port as nat) + path) == Ok::<
            ParsedHttpUrlView,
            UrlErrorView,
        >(ParsedHttpUrlView { host, port, path }),
{
    let url = "http://"@ + host + ":"@ + number::decimal(port as nat) + path;
    let digits = number::decimal(port as nat);
    let authority = host + ":"@ + digits;
    reveal_strlit("http://");
    reveal_strlit("https://");
    reveal_strlit(":");
    let l = text::lower_text(url);
    assert(forall|i: int| 0 <= i < 7 ==> l[i] == "http://"@[i]);
    assert(l[4] != "https://"@[4]);
    number::decimal_reads_back(port as nat);
    let rest = url.skip(7);
    assert(rest =~= authority + path);
    assert forall|i: int| 0 <= i < authority.len() implies rest[i] != '/' by {
        if i < host.len() {
            assert(host.contains(host[i]));
        } else if i > host.len() {
            assert(number::is_digit(digits[i - host.len() - 1]));
        }
    }
    text::lemma_before_is(rest, '/', authority.len() as int);
    assert(authority_of(url) =~= authority);
    assert(path_of(url) =~= path);
    authority_reads_back(host, port);
}

/// An authority written from a host and a port reads back as these.
pub proof fn authority_reads_back(host: Seq<char>, port: u16)
    requires
        host.len() > 0,
        host[0] != '[',
    ensures
        host_port_of(host + ":"@ + number::decimal(port as nat)) == Ok::<
            (Seq<char>, u16),
            UrlErrorView,
        >((host, port)),
{
    let digits = number::decimal(port as nat);
    let authority = host + ":"@ + digits;
    reveal_strlit(":");
    number::decimal_reads_back(port as nat);
    number::u16_reads_back(port);
    text::lemma_last_index(authority, ':');
    assert(authority[host.len() as int] == ':');
    assert forall|k: int| host.len() < k < authority.len() implies authority[k] != ':' by {
        assert(number::is_digit(digits[k - host.len() - 1]));
    }
    assert(text::last_index(authority, ':') == Some(host.len() as int));
    assert(authority.skip(host.len() as int + 1) =~= digits);
    assert(authority.take(host.len() as int) =~= host);
}

/// The scheme goes by its letters, each in either case, and by nothing behind it.
pub proof fn scheme_goes_by_its_letters(url: Seq<char>)
    ensures
        has_http_scheme(url) <==> {
            &&& url.len() >= 7
            &&& url[0] == 'h' || url[0] == 'H'
            &&& url[1] == 't' || url[1] == 'T'
            &&& url[2] == 't' || url[2] == 'T'
            &&& url[3] == 'p' || url[3] == 'P'
            &&& url[4] == ':' && url[5] == '/' && url[6] == '/'
        },
        has_https_scheme(url) <==> {
            &&& url.len() >= 8
            &&& url[0] == 'h' || url[0] == 'H'
            &&& url[1] == 't' || url[1] == 'T'
            &&& url[2] == 't' || url[2] == 'T'
            &&& url[3] == 'p' || url[3] == 'P'
            &&& url[4] == 's' || url[4] == 'S'
            &&& url[5] == ':' && url[6] == '/' && url[7] == '/'
        },
{
    reveal_strlit("http://");
    reveal_strlit("https://");
    let l = text::lower_text(url);
    let (p, q) = ("http://"@, "https://"@);
    assert(l.len() == url.len());
    assert(forall|i: int| 0 <= i < url.len() ==> #[trigger] l[i] == text::ascii_lower(url[i]));
    if has_http_scheme(url) {
        assert(forall|i: int| 0 <= i < 7 ==> #[trigger] p[i] == l[i]);
        assert(p[0] == l[0] && p[1] == l[1] && p[2] == l[2] && p[3] == l[3] && p[4] == l[4] && p[5]
            == l[5] && p[6] == l[6]);
    } else if url.len() >= 7 {
        assert(!(p =~= l.subrange(0, 7)));
        assert(!(p[0] == l[0] && p[1] == l[1] && p[2] == l[2] && p[3] == l[3] && p[4] == l[4]
            && p[5] == l[5] && p[6] == l[6]));
    }
    if has_https_scheme(url) {
        assert(forall|i: int| 0 <= i < 8 ==> #[trigger] q[i] == l[i]);
        assert(q[0] == l[0] && q[1] == l[1] && q[2] == l[2] && q[3] == l[3] && q[4] == l[4] && q[5]
            == l[5] && q[6] == l[6] && q[7] == l[7]);
    } else if url.len() >= 8 {
        assert(!(q =~= l.subrange(0, 8)));
        assert(!(q[0] == l[0] && q[1] == l[1] && q[2] == l[2] && q[3] == l[3] && q[4] == l[4]
            && q[5] == l[5] && q[6] == l[6] && q[7] == l[7]));
    }
}

/// An authority with a colon that has something before it is split at its last colon: what stands
/// before is the host, and what stands behind must be a port.
pub proof fn last_colon_parts_the_port(host: Seq<char>, port: Seq<char>)
    requires
        host.len() > 0,
        host[0] != '[',
        !port.contains(':'),
    ensures
        number::u16_of(port) matches Some(n) ==> host_port_of(host + seq![':'] + port) == Ok::<
            (Seq<char>, u16),
            UrlErrorView,
        >((host, n)),
        number::u16_of(port) is None ==> host_port_of(host + seq![':'] + port) == Err::<
            (Seq<char>, u16),
            UrlErrorView,
        >(UrlErrorView::BadPort(port)),
{
    let authority = host + seq![':'] + port;
    text::lemma_last_index(authority, ':');
    assert(authority[host.len() as int] == ':');
    assert forall|k: int| host.len() < k < authority.len() implies authority[k] != ':' by {
        assert(port.contains(port[k - host.len() - 1]));
    }
    assert(text::last_index(authority, ':') == Some(host.len() as int));
    assert(authority.skip(host.len() as int + 1) =~= port);
    assert(authority.take(host.len() as int) =~= host);
}

/// An authority without a colon, or with its only colon in front, is all host, and its port is 80;
/// one that starts with a bracket is an IPv6 literal, whatever follows.
pub proof fn authority_without_a_port(host: Seq<char>)
    ensures
        !host.contains(':') && (host.len() == 0 || host[0] != '[') ==> host_port_of(host) == Ok::<
            (Seq<char>, u16),
            UrlErrorView,
        >((host, 80)),
        !host.contains(':') ==> host_port_of(seq![':'] + host) == Ok::<
            (Seq<char>, u16),
            UrlErrorView,
        >((seq![':'] + host, 80)),
        host_port_of(seq!['['] + host) == Err::<(Seq<char>, u16), UrlErrorView>(
            UrlErrorView::Ipv6Literal,
        ),
{
    text::lemma_last_index(host, ':');
    let led = seq![':'] + host;
    text::lemma_last_index(led, ':');
    if !host.contains(':') {
        assert(led[0] == ':');
        assert forall|k: int| 0 < k < led.len() implies led[k] != ':' by {
            assert(host.contains(host[k - 1]));
        }
        assert(text::last_index(led, ':') == Some(0int));
    }
}

/// An address is its scheme, its authority and its path: the authority ends at the first slash
/// behind the scheme, and the path is all that stands from there on, or a slash where nothing
/// does. What the authority names, or what is wrong with it, does not depend on the path.
pub proof fn address_is_taken_apart(scheme: Seq<char>, authority: Seq<char>, path: Seq<char>)
    requires
        scheme.len() == 7,
        has_http_scheme(scheme),
        !authority.contains('/'),
        path.len() == 0 || path[0] == '/',
    ensures
        authority.len() == 0 ==> url_of(scheme + authority + path) == Err::<
            ParsedHttpUrlView,
            UrlErrorView,
        >(UrlErrorView::EmptyHost),
        authority.len() > 0 ==> match host_port_of(authority) {
            Ok((host, port)) => url_of(scheme + authority + path) == Ok::<
                ParsedHttpUrlView,
                UrlErrorView,
            >(
                ParsedHttpUrlView {
                    host,
                    port,
                    path: if path.len() == 0 {
                        seq!['/']
                    } else {
                        path
                    },
                },
            ),
            Err(e) => url_of(scheme + authority + path) == Err::<ParsedHttpUrlView, UrlErrorView>(
                e,
            ),
        },
{
    let url = scheme + authority + path;
    let rest = url.skip(7);
    scheme_goes_by_its_letters(scheme);
    scheme_goes_by_its_letters(url);
    assert(forall|i: int| 0 <= i < 7 ==> url[i] == scheme[i]);
    assert(has_http_scheme(url));
    assert(!has_https_scheme(url));
    assert(rest =~= authority + path);
    assert forall|i: int| 0 <= i < authority.len() implies rest[i] != '/' by {
        assert(authority.contains(authority[i]));
    }
    text::lemma_before_is(rest, '/', authority.len() as int);
    assert(authority_of(url) =~= authority);
    assert(rest.skip(authority.len() as int) =~= path);
    reveal_strlit("/");
    assert("/"@ =~= seq!['/']);
}

/// An address that starts with neither scheme is refused for that.
pub proof fn other_schemes_are_refused(url: Seq<char>)
    requires
        !has_http_scheme(url),
        !has_https_scheme(url),
    ensures
        url_of(url) == Err::<ParsedHttpUrlView, UrlErrorView>(UrlErrorView::NotHttp),
{
}

/// An address written without a port reads back with the usual one, and one written without a path
/// reads back with a slash.
pub proof fn url_without_a_port_reads_back(host: Seq<char>, path: Seq<char>)
    requires
        host.len() > 0,
        host[0] != '[',
        !host.contains('/'),
        !host.contains(':'),
        path.len() > 0,
        path[0] == '/',
    ensures
        url_of("http://"@ + host + path) == Ok::<ParsedHttpUrlView, UrlErrorView>(
            ParsedHttpUrlView { host, port: 80, path },
        ),
        url_of("http://"@ + host) == Ok::<ParsedHttpUrlView, UrlErrorView>(
            ParsedHttpUrlView { host, port: 80, path: "/"@ },
        ),
{
    reveal_strlit("http://");
    reveal_strlit("/");
    scheme_goes_by_its_letters("http://"@);
    authority_without_a_port(host);
    address_is_taken_apart("http://"@, host, path);
    address_is_taken_apart("http://"@, host, seq![]);
    assert("http://"@ + host + seq![] =~= "http://"@ + host);
    assert("/"@ =~= seq!['/']);
}

/// Each error of an address has a text of its own; that of a port tells what stands in its place.
pub proof fn url_errors_are_told(p: Seq<char>)
    ensures
        UrlErrorView::Https.message() == "仅支持 http，不支持 https"@,
        UrlErrorView::NotHttp.message() == "URL 必须以 http:// 开头"@,
        UrlErrorView::EmptyHost.message() == "URL 主机不能为空"@,
        UrlErrorView::Ipv6Literal.message() == "当前版本不支持 IPv6 字面量 URL"@,
        UrlErrorView::BadPort(p).message() == "URL 端口解析失败: "@ + p,
{
}

/// An address, an error of one, and what is read hold what they are made of.
pub proof fn url_values_hold_their_parts(u: ParsedHttpUrl, s: String, n: u16, e: UrlError)
    ensures
        u@.host == u.host@,
        u@.port == u.port,
        u@.path == u.path@,
        UrlError::Https@ is Https,
        UrlError::NotHttp@ is NotHttp,
        UrlError::EmptyHost@ is EmptyHost,
        UrlError::Ipv6Literal@ is Ipv6Literal,
        UrlError::BadPort(s)@ == UrlErrorView::BadPort(s@),
        host_port_view(Ok((s, n))) == Ok::<(Seq<char>, u16), UrlErrorView>((s@, n)),
        host_port_view(Err(e)) == Err::<(Seq<char>, u16), UrlErrorView>(e@),
        url_view(Ok(u)) == Ok::<ParsedHttpUrlView, UrlErrorView>(u@),
        url_view(Err(e)) == Err::<ParsedHttpUrlView, UrlErrorView>(e@),
{
}

} // verus!
