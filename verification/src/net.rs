//! Addresses of an interface, and connections that leave through it.
use vstd::prelude::*;

use crate::command;
use crate::command::CommandLine;
use crate::decode;
use crate::number;
use crate::text;

verus! {

// ---------------------------------------------------------------------------------------------
// Addresses

/// An IPv4 address: its four bytes.
#[derive(Debug, Clone, Copy, PartialEq, Eq, Structural)]
pub struct Ipv4 {
    pub a: u8,
    pub b: u8,
    pub c: u8,
    pub d: u8,
}

/// The address that a text in dotted form stands for: four bytes, a dot between one and the next.
pub open spec fn ipv4_of(s: Seq<char>) -> Option<Ipv4> {
    let p = text::parts(s, '.');
    if p.len() == 4 && number::octet_of(p[0]) is Some && number::octet_of(p[1]) is Some
        && number::octet_of(p[2]) is Some && number::octet_of(p[3]) is Some {
        Some(
            Ipv4 {
                a: number::octet_of(p[0])->0,
                b: number::octet_of(p[1])->0,
                c: number::octet_of(p[2])->0,
                d: number::octet_of(p[3])->0,
            },
        )
    } else {
        None
    }
}

/// An address in dotted form.
pub open spec fn dotted(ip: Ipv4) -> Seq<char> {
    number::decimal(ip.a as nat) + "."@ + (number::decimal(ip.b as nat) + "."@ + (number::decimal(
        ip.c as nat,
    ) + "."@ + number::decimal(ip.d as nat)))
}

/// Reads an address in dotted form.
pub fn parse_ipv4(s: &str) -> (r: Option<Ipv4>)
    ensures
        r == ipv4_of(s@),
{
    let p: Vec<String> = text::split_parts(s, '.');
    assert(text::texts(p@).len() == p@.len());
    if p.len() != 4 {
        return None;
    }
    assert(forall|i: int| 0 <= i < 4 ==> #[trigger] text::texts(p@)[i] == p@[i]@);
    let a: Option<u8> = number::parse_octet(p[0].as_str());
    let b: Option<u8> = number::parse_octet(p[1].as_str());
    let c: Option<u8> = number::parse_octet(p[2].as_str());
    let d: Option<u8> = number::parse_octet(p[3].as_str());
    match (a, b, c, d) {
        (Some(a), Some(b), Some(c), Some(d)) => Some(Ipv4 { a, b, c, d }),
        _ => None,
    }
}

/// The field behind the first field that is `word`.
pub open spec fn field_after(fields: Seq<Seq<char>>, word: Seq<char>) -> Option<Seq<char>>
    decreases fields.len(),
{
    if fields.len() == 0 {
        None
    } else if fields[0] == word {
        if fields.len() > 1 {
            Some(fields[1])
        } else {
            None
        }
    } else {
        field_after(fields.drop_first(), word)
    }
}

/// The address that one line of a listing of addresses tells: the one behind the word `inet`, up
/// to the slash that starts the length of its prefix.
pub open spec fn line_address(line: Seq<char>) -> Option<Ipv4> {
    match field_after(text::words(line), "inet"@) {
        Some(cidr) => ipv4_of(cidr.take(text::before(cidr, '/') as int)),
        None => None,
    }
}

/// The addresses that the lines of a listing tell, in order.
pub open spec fn addresses(lines: Seq<Seq<char>>) -> Seq<Ipv4>
    decreases lines.len(),
{
    if lines.len() == 0 {
        seq![]
    } else {
        match line_address(lines.last()) {
            Some(ip) => addresses(lines.drop_last()).push(ip),
            None => addresses(lines.drop_last()),
        }
    }
}

/// Reads the address that one line of a listing tells.
fn address_in_line(line: &str) -> (r: Option<Ipv4>)
    ensures
        r == line_address(line@),
{
    let fields: Vec<String> = text::split_words(line);
    let ghost all = text::texts(fields@);
    assert(all.skip(0) =~= all);
    let mut i: usize = 0;
    while i < fields.len()
        invariant
            i <= fields@.len(),
            all == text::texts(fields@),
            all == text::words(line@),
            field_after(all, "inet"@) == field_after(all.skip(i as int), "inet"@),
        decreases fields.len() - i,
    {
        let ghost rest = all.skip(i as int);
        assert(rest[0] == fields@[i as int]@);
        if text::same(fields[i].as_str(), "inet") {
            if i + 1 >= fields.len() {
                return None;
            }
            assert(rest[1] == fields@[i + 1]@);
            let cidr: &str = fields[i + 1].as_str();
            let v: Vec<char> = text::chars_of(cidr);
            let slash: usize = text::find_char(&v, '/', 0);
            assert(cidr@.skip(0) =~= cidr@);
            let address: String = text::slice(cidr, 0, slash);
            assert(address@ =~= cidr@.take(slash as int));
            return parse_ipv4(address.as_str());
        }
        assert(rest.drop_first() =~= all.skip(i + 1));
        i = i + 1;
    }
    None
}

/// Reads the addresses that a listing tells.
pub fn listed_addresses(listing: &str) -> (r: Vec<Ipv4>)
    ensures
        r@ == addresses(text::lines(listing@)),
{
    let lines: Vec<String> = text::split_lines(listing);
    let ghost all = text::texts(lines@);
    let mut ips: Vec<Ipv4> = Vec::new();
    let mut i: usize = 0;
    assert(all.take(0) =~= seq![]);
    while i < lines.len()
        invariant
            i <= lines@.len(),
            all == text::texts(lines@),
            ips@ == addresses(all.take(i as int)),
        decreases lines.len() - i,
    {
        assert(all.take(i + 1).drop_last() =~= all.take(i as int));
        assert(all.take(i + 1).last() == lines@[i as int]@);
        if let Some(ip) = address_in_line(lines[i].as_str()) {
            ips.push(ip);
        }
        i = i + 1;
    }
    assert(all.take(i as int) =~= all);
    ips
}

/// The command line that lists the IPv4 addresses of an interface, one to a line.
pub open spec fn address_line(interface: Seq<char>) -> command::CommandLineView {
    command::CommandLineView {
        program: "ip"@,
        args: seq!["-4"@, "-o"@, "addr"@, "show"@, "dev"@, interface],
    }
}

/// The command line that lists the IPv4 addresses of an interface.
pub fn address_command(interface: &str) -> (r: CommandLine)
    ensures
        r@ == address_line(interface@),
{
    let r = CommandLine {
        program: "ip".to_owned(),
        args: vec![
            "-4".to_owned(),
            "-o".to_owned(),
            "addr".to_owned(),
            "show".to_owned(),
            "dev".to_owned(),
            interface.to_owned(),
        ],
    };
    assert(r@.args =~= address_line(interface@).args);
    r
}

/// The addresses of an interface, from how the command that lists them ended and what it printed:
/// none where it failed.
pub fn query_interface_ipv4(succeeded: bool, stdout: &[u8]) -> (r: Vec<Ipv4>)
    ensures
        succeeded ==> r@ == addresses(text::lines(decode::utf8_lossy(stdout@))),
        !succeeded ==> r@.len() == 0,
{
    if !succeeded {
        return Vec::new();
    }
    let listing: String = decode::decode_lossy(stdout);
    listed_addresses(listing.as_str())
}

// ---------------------------------------------------------------------------------------------
// Connections

/// An address that a name stands for.
#[derive(Debug, Clone, Copy, PartialEq, Eq, Structural)]
pub enum RemoteAddr {
    V4 { ip: Ipv4, port: u16 },
    /// An IPv6 address. None is ever connected to.
    V6,
}

/// How one attempt to connect went.
#[derive(Debug, Clone, PartialEq, Eq)]
pub enum AttemptOutcome {
    Connected,
    /// The connection was not made.
    Refused(String),
    /// There was no socket to connect with.
    Unusable(String),
}

/// Why there is no connection.
#[derive(Debug, Clone, PartialEq, Eq)]
pub enum ConnectError {
    /// What the outside says.
    Outside(String),
    /// The name stands for no address.
    NoRemote,
    /// The interface has no IPv4 address.
    NoLocal(String),
    /// There was nothing to try.
    AllFailed,
}

/// What a `ConnectError` holds.
pub enum ConnectErrorView {
    Outside(Seq<char>),
    NoRemote,
    NoLocal(Seq<char>),
    AllFailed,
}

impl View for ConnectError {
    type V = ConnectErrorView;

    open spec fn view(&self) -> ConnectErrorView {
        match self {
            ConnectError::Outside(e) => ConnectErrorView::Outside(e@),
            ConnectError::NoRemote => ConnectErrorView::NoRemote,
            ConnectError::NoLocal(i) => ConnectErrorView::NoLocal(i@),
            ConnectError::AllFailed => ConnectErrorView::AllFailed,
        }
    }
}

impl ConnectErrorView {
    /// The text that tells a user of the error.
    pub open spec fn message(self) -> Seq<char> {
        match self {
            ConnectErrorView::Outside(e) => e,
            ConnectErrorView::NoRemote => "目标地址解析为空"@,
            ConnectErrorView::NoLocal(i) => "网卡 `"@ + i + "` 未找到 IPv4 地址"@,
            ConnectErrorView::AllFailed => "全部地址连接失败"@,
        }
    }
}

impl ConnectError {
    /// The text that tells a user of the error.
    pub fn message(&self) -> (r: String)
        ensures
            r@ == self@.message(),
    {
        match self {
            ConnectError::Outside(e) => e.clone(),
            ConnectError::NoRemote => "目标地址解析为空".to_owned(),
            ConnectError::NoLocal(i) => {
                let mut s: String = "网卡 `".to_owned();
                s.append(i.as_str());
                s.append("` 未找到 IPv4 地址");
                s
            },
            ConnectError::AllFailed => "全部地址连接失败".to_owned(),
        }
    }
}

/// What is next on the way to a connection.
#[derive(Debug, Clone, PartialEq, Eq)]
pub enum ConnectStep {
    /// Look up the addresses that the name of the target stands for.
    Resolve,
    /// Look up the addresses of the interface.
    QueryInterface,
    /// Connect to `remote` from `local`.
    Try { remote: Ipv4, port: u16, local: Ipv4 },
    /// The last attempt made the connection.
    Connected,
    /// There is no connection.
    Failed(ConnectError),
}

/// What a `ConnectStep` holds.
pub enum ConnectStepView {
    Resolve,
    QueryInterface,
    Try { remote: Ipv4, port: u16, local: Ipv4 },
    Connected,
    Failed(ConnectErrorView),
}

impl View for ConnectStep {
    type V = ConnectStepView;

    open spec fn view(&self) -> ConnectStepView {
        match self {
            ConnectStep::Resolve => ConnectStepView::Resolve,
            ConnectStep::QueryInterface => ConnectStepView::QueryInterface,
            ConnectStep::Try { remote, port, local } => ConnectStepView::Try {
                remote: *remote,
                port: *port,
                local: *local,
            },
            ConnectStep::Connected => ConnectStepView::Connected,
            ConnectStep::Failed(e) => ConnectStepView::Failed(e@),
        }
    }
}

/// The IPv4 addresses among those that a name stands for, in order.
pub open spec fn ipv4_remotes(remotes: Seq<RemoteAddr>) -> Seq<(Ipv4, u16)>
    decreases remotes.len(),
{
    if remotes.len() == 0 {
        seq![]
    } else {
        match remotes.last() {
            RemoteAddr::V4 { ip, port } => ipv4_remotes(remotes.drop_last()).push((ip, port)),
            RemoteAddr::V6 => ipv4_remotes(remotes.drop_last()),
        }
    }
}

/// What the first attempt that was not refused came to.
pub open spec fn settled(attempts: Seq<AttemptOutcome>) -> Option<ConnectStepView>
    decreases attempts.len(),
{
    if attempts.len() == 0 {
        None
    } else {
        match attempts[0] {
            AttemptOutcome::Connected => Some(ConnectStepView::Connected),
            AttemptOutcome::Unusable(e) => Some(
                ConnectStepView::Failed(ConnectErrorView::Outside(e@)),
            ),
            AttemptOutcome::Refused(_) => settled(attempts.drop_first()),
        }
    }
}

/// What the last attempt was refused with.
pub open spec fn last_refusal(attempts: Seq<AttemptOutcome>) -> ConnectErrorView {
    if attempts.len() > 0 && attempts.last() is Refused {
        ConnectErrorView::Outside(attempts.last()->Refused_0@)
    } else {
        ConnectErrorView::AllFailed
    }
}

/// Attempt number `k`: each local address is tried with one remote address before the next remote
/// address is.
pub open spec fn attempt(
    remotes: Seq<(Ipv4, u16)>,
    locals: Seq<Ipv4>,
    k: int,
) -> ConnectStepView {
    let remote = remotes[k / (locals.len() as int)];
    ConnectStepView::Try {
        remote: remote.0,
        port: remote.1,
        local: locals[k % (locals.len() as int)],
    }
}

/// What follows the attempts made so far.
pub open spec fn next_attempt(
    remotes: Seq<(Ipv4, u16)>,
    locals: Seq<Ipv4>,
    attempts: Seq<AttemptOutcome>,
) -> ConnectStepView {
    match settled(attempts) {
        Some(step) => step,
        None => if attempts.len() as int / (locals.len() as int) < remotes.len() {
            attempt(remotes, locals, attempts.len() as int)
        } else {
            ConnectStepView::Failed(last_refusal(attempts))
        },
    }
}

/// What is next on the way to a connection through an interface, from what is known so far: the
/// addresses of the target and of the interface, where they were looked up, and how the attempts
/// made went.
pub open spec fn connect_step(
    interface: Seq<char>,
    resolved: Option<Result<Vec<RemoteAddr>, String>>,
    locals: Option<Result<Vec<Ipv4>, String>>,
    attempts: Seq<AttemptOutcome>,
) -> ConnectStepView {
    match resolved {
        None => ConnectStepView::Resolve,
        Some(Err(e)) => ConnectStepView::Failed(ConnectErrorView::Outside(e@)),
        Some(Ok(remotes)) => if remotes@.len() == 0 {
            ConnectStepView::Failed(ConnectErrorView::NoRemote)
        } else {
            match locals {
                None => ConnectStepView::QueryInterface,
                Some(Err(e)) => ConnectStepView::Failed(ConnectErrorView::Outside(e@)),
                Some(Ok(ips)) => if ips@.len() == 0 {
                    ConnectStepView::Failed(ConnectErrorView::NoLocal(interface))
                } else {
                    next_attempt(ipv4_remotes(remotes@), ips@, attempts)
                },
            }
        },
    }
}

fn only_ipv4(remotes: &Vec<RemoteAddr>) -> (r: Vec<(Ipv4, u16)>)
    ensures
        r@ == ipv4_remotes(remotes@),
{
    let mut out: Vec<(Ipv4, u16)> = Vec::new();
    let mut i: usize = 0;
    assert(remotes@.take(0) =~= seq![]);
    while i < remotes.len()
        invariant
            i <= remotes@.len(),
            out@ == ipv4_remotes(remotes@.take(i as int)),
        decreases remotes.len() - i,
    {
        assert(remotes@.take(i + 1).drop_last() =~= remotes@.take(i as int));
        if let RemoteAddr::V4 { ip, port } = remotes[i] {
            out.push((ip, port));
        }
        i = i + 1;
    }
    assert(remotes@.take(i as int) =~= remotes@);
    out
}

fn follow_attempts(
    remotes: &Vec<(Ipv4, u16)>,
    locals: &Vec<Ipv4>,
    attempts: &Vec<AttemptOutcome>,
) -> (r: ConnectStep)
    requires
        locals@.len() > 0,
    ensures
        r@ == next_attempt(remotes@, locals@, attempts@),
{
    let mut i: usize = 0;
    assert(attempts@.skip(0) =~= attempts@);
    while i < attempts.len()
        invariant
            i <= attempts@.len(),
            settled(attempts@) == settled(attempts@.skip(i as int)),
            forall|k: int| 0 <= k < i ==> (#[trigger] attempts@[k]) is Refused,
        decreases attempts.len() - i,
    {
        let ghost rest = attempts@.skip(i as int);
        assert(rest[0] == attempts@[i as int]);
        match &attempts[i] {
            AttemptOutcome::Connected => {
                return ConnectStep::Connected;
            },
            AttemptOutcome::Unusable(e) => {
                return ConnectStep::Failed(ConnectError::Outside(e.clone()));
            },
            AttemptOutcome::Refused(_) => {},
        }
        assert(rest.drop_first() =~= attempts@.skip(i + 1));
        i = i + 1;
    }
    let n: usize = attempts.len();
    if n / locals.len() < remotes.len() {
        let (remote, port) = remotes[n / locals.len()];
        return ConnectStep::Try { remote, port, local: locals[n % locals.len()] };
    }
    if n > 0 {
        if let AttemptOutcome::Refused(e) = &attempts[n - 1] {
            return ConnectStep::Failed(ConnectError::Outside(e.clone()));
        }
    }
    ConnectStep::Failed(ConnectError::AllFailed)
}

/// Tells what is next on the way to a connection through an interface, from what is known so far:
/// the addresses of the target and of the interface, where they were looked up, and how the
/// attempts made went.
pub fn connect_tcp_via_interface(
    interface: &str,
    resolved: &Option<Result<Vec<RemoteAddr>, String>>,
    locals: &Option<Result<Vec<Ipv4>, String>>,
    attempts: &Vec<AttemptOutcome>,
) -> (r: ConnectStep)
    ensures
        r@ == connect_step(interface@, *resolved, *locals, attempts@),
{
    match resolved {
        None => ConnectStep::Resolve,
        Some(Err(e)) => ConnectStep::Failed(ConnectError::Outside(e.clone())),
        Some(Ok(remotes)) => {
            if remotes.len() == 0 {
                return ConnectStep::Failed(ConnectError::NoRemote);
            }
            match locals {
                None => ConnectStep::QueryInterface,
                Some(Err(e)) => ConnectStep::Failed(ConnectError::Outside(e.clone())),
                Some(Ok(ips)) => {
                    if ips.len() == 0 {
                        return ConnectStep::Failed(ConnectError::NoLocal(interface.to_owned()));
                    }
                    let targets: Vec<(Ipv4, u16)> = only_ipv4(remotes);
                    follow_attempts(&targets, ips, attempts)
                },
            }
        },
    }
}

// ---------------------------------------------------------------------------------------------
// Laws

proof fn lemma_parts_of_joined(head: Seq<char>, tail: Seq<char>)
    requires
        forall|i: int| 0 <= i < head.len() ==> head[i] != '.',
    ensures
        text::parts(head + "."@ + tail, '.') == seq![head] + text::parts(tail, '.'),
{
    reveal_strlit(".");
    let s = head + "."@ + tail;
    text::lemma_before_is(s, '.', head.len() as int);
    assert(s.take(head.len() as int) =~= head);
    assert(s.skip(head.len() as int + 1) =~= tail);
}

proof fn lemma_octet_reads_back(n: u8)
    ensures
        number::octet_of(number::decimal(n as nat)) == Some(n),
        forall|i: int|
            0 <= i < number::decimal(n as nat).len() ==> number::decimal(n as nat)[i] != '.',
{
    let s = number::decimal(n as nat);
    number::decimal_reads_back(n as nat);
    reveal_with_fuel(number::decimal, 3);
    assert forall|i: int| 0 <= i < s.len() implies s[i] != '.' by {
        assert(number::is_digit(s[i]));
    }
}

/// An address written in dotted form reads back as itself.
pub proof fn address_reads_back(ip: Ipv4)
    ensures
        ipv4_of(dotted(ip)) == Some(ip),
{
    let (a, b) = (number::decimal(ip.a as nat), number::decimal(ip.b as nat));
    let (c, d) = (number::decimal(ip.c as nat), number::decimal(ip.d as nat));
    lemma_octet_reads_back(ip.a);
    lemma_octet_reads_back(ip.b);
    lemma_octet_reads_back(ip.c);
    lemma_octet_reads_back(ip.d);
    lemma_parts_of_joined(a, b + "."@ + (c + "."@ + d));
    lemma_parts_of_joined(b, c + "."@ + d);
    lemma_parts_of_joined(c, d);
    text::lemma_before_is(d, '.', d.len() as int);
    assert(text::parts(d, '.') =~= seq![d]);
    assert(text::parts(dotted(ip), '.') =~= seq![a, b, c, d]);
}

/// Every local address is tried with a remote address, in order, before the next remote address
/// is tried.
pub proof fn attempts_follow_the_lists(
    remotes: Seq<(Ipv4, u16)>,
    locals: Seq<Ipv4>,
    i: int,
    j: int,
)
    requires
        0 <= i < remotes.len(),
        0 <= j < locals.len(),
    ensures
        attempt(remotes, locals, i * locals.len() + j) == (ConnectStepView::Try {
            remote: remotes[i].0,
            port: remotes[i].1,
            local: locals[j],
        }),
{
    vstd::arithmetic::div_mod::lemma_fundamental_div_mod_converse(
        i * locals.len() + j,
        locals.len() as int,
        i,
        j,
    );
}

proof fn lemma_all_refused(attempts: Seq<AttemptOutcome>)
    requires
        forall|k: int| 0 <= k < attempts.len() ==> (#[trigger] attempts[k]) is Refused,
    ensures
        settled(attempts) is None,
    decreases attempts.len(),
{
    if attempts.len() > 0 {
        assert(attempts[0] is Refused);
        assert forall|k: int| 0 <= k < attempts.drop_first().len() implies (
        #[trigger] attempts.drop_first()[k]) is Refused by {
            assert(attempts[k + 1] is Refused);
        }
        lemma_all_refused(attempts.drop_first());
    }
}

/// While every attempt is refused, the next one is made; once each pair of addresses was tried,
/// the connection fails with the last refusal.
pub proof fn refusals_lead_on(
    remotes: Seq<(Ipv4, u16)>,
    locals: Seq<Ipv4>,
    attempts: Seq<AttemptOutcome>,
)
    requires
        locals.len() > 0,
        attempts.len() <= remotes.len() * locals.len(),
        forall|k: int| 0 <= k < attempts.len() ==> (#[trigger] attempts[k]) is Refused,
    ensures
        next_attempt(remotes, locals, attempts) == if attempts.len() < remotes.len() * locals.len() {
            attempt(remotes, locals, attempts.len() as int)
        } else {
            ConnectStepView::Failed(last_refusal(attempts))
        },
{
    lemma_all_refused(attempts);
    let (k, m, n) = (attempts.len() as int, remotes.len() as int, locals.len() as int);
    if k < m * n {
        assert(k / n < m) by (nonlinear_arith)
            requires
                0 <= k < m * n,
                n > 0,
        ;
    } else {
        assert(k / n >= m) by (nonlinear_arith)
            requires
                k >= m * n,
                n > 0,
        ;
    }
}

/// An attempt that makes the connection ends the search, and so does one without a socket: what
/// came before was refused, and nothing behind it matters.
pub proof fn first_answer_settles(attempts: Seq<AttemptOutcome>, k: int)
    requires
        0 <= k < attempts.len(),
        !(attempts[k] is Refused),
        forall|i: int| 0 <= i < k ==> (#[trigger] attempts[i]) is Refused,
    ensures
        attempts[k] is Connected ==> settled(attempts) == Some(ConnectStepView::Connected),
        attempts[k] matches AttemptOutcome::Unusable(e) ==> settled(attempts) == Some(
            ConnectStepView::Failed(ConnectErrorView::Outside(e@)),
        ),
    decreases k,
{
    if k > 0 {
        assert(attempts[0] is Refused);
        assert forall|i: int| 0 <= i < k - 1 implies (
        #[trigger] attempts.drop_first()[i]) is Refused by {
            assert(attempts[i + 1] is Refused);
        }
        assert(attempts.drop_first()[k - 1] == attempts[k]);
        first_answer_settles(attempts.drop_first(), k - 1);
    }
}

proof fn lemma_first_part(s: Seq<char>, sep: char)
    ensures
        text::parts(s, sep).len() > 0,
        text::parts(s, sep).len() == 1 ==> s == text::parts(s, sep)[0],
        text::parts(s, sep).len() > 1 ==> {
            let rest = s.skip(text::before(s, sep) as int + 1);
            &&& s == text::parts(s, sep)[0] + seq![sep] + rest
            &&& text::parts(rest, sep) == text::parts(s, sep).skip(1)
        },
{
    text::lemma_before(s, sep);
    let n = text::before(s, sep) as int;
    if n < s.len() {
        let rest = s.skip(n + 1);
        assert(s =~= s.take(n) + seq![sep] + rest);
        assert(text::parts(rest, sep).len() > 0);
        assert((seq![s.take(n)] + text::parts(rest, sep)).skip(1) =~= text::parts(rest, sep));
    }
}

/// A text is read as an address exactly where it is its four bytes in decimal digits, without
/// leading zeros, a dot between one and the next.
pub proof fn address_has_one_form(s: Seq<char>, ip: Ipv4)
    ensures
        ipv4_of(s) == Some(ip) <==> s == number::decimal(ip.a as nat) + seq!['.']
            + number::decimal(ip.b as nat) + seq!['.'] + number::decimal(ip.c as nat) + seq!['.']
            + number::decimal(ip.d as nat),
{
    let (a, b) = (number::decimal(ip.a as nat), number::decimal(ip.b as nat));
    let (c, d) = (number::decimal(ip.c as nat), number::decimal(ip.d as nat));
    let form = a + seq!['.'] + b + seq!['.'] + c + seq!['.'] + d;
    reveal_strlit(".");
    assert("."@ =~= seq!['.']);
    assert(dotted(ip) =~= form);
    address_reads_back(ip);
    if ipv4_of(s) == Some(ip) {
        let p = text::parts(s, '.');
        number::byte_has_one_form(p[0], ip.a);
        number::byte_has_one_form(p[1], ip.b);
        number::byte_has_one_form(p[2], ip.c);
        number::byte_has_one_form(p[3], ip.d);
        lemma_first_part(s, '.');
        let s1 = s.skip(text::before(s, '.') as int + 1);
        lemma_first_part(s1, '.');
        let s2 = s1.skip(text::before(s1, '.') as int + 1);
        lemma_first_part(s2, '.');
        let s3 = s2.skip(text::before(s2, '.') as int + 1);
        lemma_first_part(s3, '.');
        assert(s3 == d);
        assert(s2 == c + seq!['.'] + d);
        assert(s1 == b + seq!['.'] + s2);
        assert(s =~= form);
    }
}

/// The field that is found is the one right behind the first field that is the word; there is none
/// where the word stands last, or nowhere.
pub proof fn field_stands_behind_the_word(
    front: Seq<Seq<char>>,
    word: Seq<char>,
    field: Seq<char>,
    rest: Seq<Seq<char>>,
)
    requires
        !front.contains(word),
    ensures
        field_after(front + seq![word, field] + rest, word) == Some(field),
        field_after(front + seq![word], word) is None,
        field_after(front, word) is None,
    decreases front.len(),
{
    let (all, cut) = (front + seq![word, field] + rest, front + seq![word]);
    if front.len() == 0 {
        assert(all[0] == word && all[1] == field);
        assert(cut[0] == word);
    } else {
        let less = front.drop_first();
        assert(front.contains(front[0]));
        assert forall|i: int| 0 <= i < less.len() implies less[i] != word by {
            assert(front.contains(front[i + 1]));
        }
        field_stands_behind_the_word(less, word, field, rest);
        assert(all.drop_first() =~= less + seq![word, field] + rest);
        assert(cut.drop_first() =~= less + seq![word]);
    }
}

/// The address that a line tells is what stands behind its first word `inet`, up to a slash where
/// there is one; a line without that word tells none.
pub proof fn line_tells_the_address_behind_inet(
    line: Seq<char>,
    front: Seq<Seq<char>>,
    address: Seq<char>,
    prefix: Seq<char>,
    rest: Seq<Seq<char>>,
)
    requires
        !front.contains("inet"@),
        !address.contains('/'),
    ensures
        text::words(line) == front + seq!["inet"@, address + seq!['/'] + prefix] + rest
            ==> line_address(line) == ipv4_of(address),
        text::words(line) == front + seq!["inet"@, address] + rest ==> line_address(line)
            == ipv4_of(address),
        text::words(line) == front + seq!["inet"@] ==> line_address(line) is None,
        text::words(line) == front ==> line_address(line) is None,
{
    let cidr = address + seq!['/'] + prefix;
    field_stands_behind_the_word(front, "inet"@, cidr, rest);
    field_stands_behind_the_word(front, "inet"@, address, rest);
    assert forall|i: int| 0 <= i < address.len() implies address[i] != '/' by {
        assert(address.contains(address[i]));
    }
    text::lemma_before_is(cidr, '/', address.len() as int);
    text::lemma_before_is(address, '/', address.len() as int);
    assert(cidr.take(address.len() as int) =~= address);
    assert(address.take(address.len() as int) =~= address);
}

/// A line of a listing that is written from an address tells that address, whatever stands in
/// front of the word `inet`, but for another such word, and whatever stands behind the address.
pub proof fn listed_address_reads_back(
    front: Seq<char>,
    ip: Ipv4,
    prefix: nat,
    rest: Seq<char>,
)
    requires
        !text::words(front).contains("inet"@),
    ensures
        line_address(
            front + " inet "@ + dotted(ip) + "/"@ + number::decimal(prefix) + " "@ + rest,
        ) == Some(ip),
{
    reveal_strlit(" ");
    reveal_strlit("/");
    reveal_strlit(".");
    reveal_strlit("inet");
    reveal_strlit(" inet ");
    let digits = number::decimal(prefix);
    let cidr = dotted(ip) + seq!['/'] + digits;
    let behind = " "@ + rest;
    let line = front + " inet "@ + dotted(ip) + "/"@ + digits + " "@ + rest;
    address_reads_back(ip);
    number::decimal_reads_back(prefix);
    number::decimal_reads_back(ip.a as nat);
    number::decimal_reads_back(ip.b as nat);
    number::decimal_reads_back(ip.c as nat);
    number::decimal_reads_back(ip.d as nat);
    lemma_dotted_characters(ip);
    assert forall|i: int| 0 <= i < cidr.len() implies !text::is_whitespace(#[trigger] cidr[i]) by {
        if i < dotted(ip).len() {
            assert(number::is_digit(dotted(ip)[i]) || dotted(ip)[i] == '.');
        } else if i > dotted(ip).len() {
            assert(number::is_digit(digits[i - dotted(ip).len() - 1]));
        }
    }
    assert forall|i: int| 0 <= i < dotted(ip).len() implies dotted(ip)[i] != '/' by {
        assert(number::is_digit(dotted(ip)[i]) || dotted(ip)[i] == '.');
    }
    let tail = " "@ + "inet"@ + (" "@ + cidr + behind);
    assert(" inet "@ =~= " "@ + "inet"@ + " "@);
    assert("/"@ =~= seq!['/']);
    assert(line =~= front + tail);
    assert(tail[0] == ' ');
    text::white_space_parts_words(front, tail);
    assert(forall|i: int| 0 <= i < 4 ==> !text::is_whitespace(#[trigger] "inet"@[i]));
    assert((" "@ + cidr + behind)[0] == ' ');
    assert(behind[0] == ' ');
    text::word_in_front(" "@, "inet"@, " "@ + cidr + behind);
    text::word_in_front(" "@, cidr, behind);
    assert(text::words(line) =~= text::words(front) + seq!["inet"@, cidr] + text::words(behind));
    line_tells_the_address_behind_inet(
        line,
        text::words(front),
        dotted(ip),
        digits,
        text::words(behind),
    );
}

proof fn lemma_dotted_characters(ip: Ipv4)
    ensures
        forall|i: int|
            0 <= i < dotted(ip).len() ==> number::is_digit(#[trigger] dotted(ip)[i]) || dotted(
                ip,
            )[i] == '.',
{
    reveal_strlit(".");
    let (a, b) = (number::decimal(ip.a as nat), number::decimal(ip.b as nat));
    let (c, d) = (number::decimal(ip.c as nat), number::decimal(ip.d as nat));
    number::decimal_reads_back(ip.a as nat);
    number::decimal_reads_back(ip.b as nat);
    number::decimal_reads_back(ip.c as nat);
    number::decimal_reads_back(ip.d as nat);
    let s = dotted(ip);
    let (m, n, o) = (
        a.len() as int,
        a.len() as int + b.len() + 1,
        a.len() as int + b.len() + c.len() + 2,
    );
    assert forall|i: int| 0 <= i < s.len() implies number::is_digit(#[trigger] s[i]) || s[i]
        == '.' by {
        if i < m {
            assert(s[i] == a[i]);
        } else if i > m && i < n {
            assert(s[i] == b[i - m - 1]);
        } else if i > n && i < o {
            assert(s[i] == c[i - n - 1]);
        } else if i > o {
            assert(s[i] == d[i - o - 1]);
        }
    }
}

/// The addresses of a listing are those that its lines tell, one by one and in order; a line that
/// tells none adds none.
pub proof fn each_line_tells_its_address(a: Seq<Seq<char>>, b: Seq<Seq<char>>, line: Seq<char>)
    ensures
        addresses(a + b) == addresses(a) + addresses(b),
        line_address(line) matches Some(ip) ==> addresses(seq![line]) == seq![ip],
        line_address(line) is None ==> addresses(seq![line]) == Seq::<Ipv4>::empty(),
        addresses(seq![]) == Seq::<Ipv4>::empty(),
    decreases b.len(),
{
    assert(seq![line].drop_last() =~= seq![]);
    assert(addresses(seq![line].drop_last()) =~= seq![]);
    if b.len() == 0 {
        assert(a + b =~= a);
        assert(addresses(a) + addresses(b) =~= addresses(a));
    } else {
        each_line_tells_its_address(a, b.drop_last(), line);
        assert((a + b).drop_last() =~= a + b.drop_last());
        assert((a + b).last() == b.last());
        assert(addresses(a + b) =~= addresses(a) + addresses(b));
    }
}

/// The command line that lists addresses names the interface, as it is, and asks for IPv4 alone,
/// one address to a line.
pub proof fn listing_is_asked_of_the_interface(interface: Seq<char>)
    ensures
        address_line(interface).program == "ip"@,
        address_line(interface).args == seq![
            "-4"@,
            "-o"@,
            "addr"@,
            "show"@,
            "dev"@,
            interface,
        ],
{
}

/// Every IPv4 address that a name stands for is kept with its port, in order, and nothing else is;
/// so a list of IPv4 addresses alone keeps its length.
pub proof fn every_ipv4_remote_is_kept(
    a: Seq<RemoteAddr>,
    b: Seq<RemoteAddr>,
    ip: Ipv4,
    port: u16,
)
    ensures
        ipv4_remotes(a + b) == ipv4_remotes(a) + ipv4_remotes(b),
        ipv4_remotes(seq![RemoteAddr::V4 { ip, port }]) == seq![(ip, port)],
        ipv4_remotes(seq![RemoteAddr::V6]) == Seq::<(Ipv4, u16)>::empty(),
        ipv4_remotes(seq![]) == Seq::<(Ipv4, u16)>::empty(),
        (forall|i: int| 0 <= i < b.len() ==> (#[trigger] b[i]) is V4) ==> ipv4_remotes(b).len()
            == b.len(),
    decreases b.len(),
{
    assert(seq![RemoteAddr::V6].drop_last() =~= seq![]);
    assert(seq![RemoteAddr::V4 { ip, port }].drop_last() =~= seq![]);
    assert(ipv4_remotes(seq![]) =~= seq![]);
    assert(ipv4_remotes(seq![RemoteAddr::V4 { ip, port }]) =~= seq![(ip, port)]);
    if b.len() == 0 {
        assert(a + b =~= a);
        assert(ipv4_remotes(a) + ipv4_remotes(b) =~= ipv4_remotes(a));
    } else {
        every_ipv4_remote_is_kept(a, b.drop_last(), ip, port);
        assert((a + b).drop_last() =~= a + b.drop_last());
        assert((a + b).last() == b.last());
        assert(ipv4_remotes(a + b) =~= ipv4_remotes(a) + ipv4_remotes(b));
        if forall|i: int| 0 <= i < b.len() ==> (#[trigger] b[i]) is V4 {
            assert forall|i: int| 0 <= i < b.drop_last().len() implies (
            #[trigger] b.drop_last()[i]) is V4 by {
                assert(b[i] is V4);
            }
            assert(b[b.len() - 1] is V4);
        }
    }
}

/// Before anything is tried, the addresses of the target are looked up, then those of the
/// interface; where either cannot be had, or there are none, that is the error.
pub proof fn lookups_come_first(
    interface: Seq<char>,
    remotes: Vec<RemoteAddr>,
    e: String,
    resolved: Option<Result<Vec<RemoteAddr>, String>>,
    locals: Option<Result<Vec<Ipv4>, String>>,
    ips: Vec<Ipv4>,
    attempts: Seq<AttemptOutcome>,
)
    ensures
        connect_step(interface, None, locals, attempts) is Resolve,
        connect_step(interface, Some(Err(e)), locals, attempts) == ConnectStepView::Failed(
            ConnectErrorView::Outside(e@),
        ),
        remotes@.len() == 0 ==> connect_step(interface, Some(Ok(remotes)), locals, attempts)
            == ConnectStepView::Failed(ConnectErrorView::NoRemote),
        remotes@.len() > 0 ==> connect_step(
            interface,
            Some(Ok(remotes)),
            None,
            attempts,
        ) is QueryInterface,
        remotes@.len() > 0 ==> connect_step(interface, Some(Ok(remotes)), Some(Err(e)), attempts)
            == ConnectStepView::Failed(ConnectErrorView::Outside(e@)),
        remotes@.len() > 0 && ips@.len() == 0 ==> connect_step(
            interface,
            Some(Ok(remotes)),
            Some(Ok(ips)),
            attempts,
        ) == ConnectStepView::Failed(ConnectErrorView::NoLocal(interface)),
{
}

/// While every attempt is refused, IPv4 address number `i` of the target is tried from address
/// number `j` of the interface once all before it were tried from each and it was tried from those
/// before; once all were, the connection fails with the last refusal, or for want of an address.
pub proof fn each_pair_of_addresses_is_tried(
    interface: Seq<char>,
    remotes: Vec<RemoteAddr>,
    ips: Vec<Ipv4>,
    attempts: Seq<AttemptOutcome>,
    i: int,
    j: int,
)
    requires
        remotes@.len() > 0,
        ips@.len() > 0,
        forall|k: int| 0 <= k < attempts.len() ==> (#[trigger] attempts[k]) is Refused,
    ensures
        ({
            let v4 = ipv4_remotes(remotes@);
            let next = connect_step(interface, Some(Ok(remotes)), Some(Ok(ips)), attempts);
            &&& 0 <= i < v4.len() && 0 <= j < ips@.len() && attempts.len() == i * ips@.len() + j
                ==> next == (ConnectStepView::Try {
                remote: v4[i].0,
                port: v4[i].1,
                local: ips@[j],
            })
            &&& attempts.len() >= v4.len() * ips@.len() && attempts.len() > 0 ==> next
                == ConnectStepView::Failed(
                ConnectErrorView::Outside(attempts.last()->Refused_0@),
            )
            &&& attempts.len() == 0 && v4.len() == 0 ==> next == ConnectStepView::Failed(
                ConnectErrorView::AllFailed,
            )
        }),
{
    let v4 = ipv4_remotes(remotes@);
    let n = ips@.len() as int;
    if attempts.len() == 0 && v4.len() == 0 {
        refusals_lead_on(v4, ips@, attempts);
    }
    if attempts.len() >= v4.len() * ips@.len() && attempts.len() > 0 {
        let (k, m) = (attempts.len() as int, v4.len() as int);
        lemma_all_refused(attempts);
        assert(k / n >= m) by (nonlinear_arith)
            requires
                k >= m * n,
                n > 0,
        ;
        assert(attempts[attempts.len() - 1] is Refused);
    }
    if 0 <= i < v4.len() && 0 <= j < n && attempts.len() == i * ips@.len() + j {
        assert(i * n + j < v4.len() * n) by (nonlinear_arith)
            requires
                0 <= i < v4.len(),
                0 <= j < n,
        ;
        refusals_lead_on(v4, ips@, attempts);
        attempts_follow_the_lists(v4, ips@, i, j);
    }
}

/// The first attempt that is not refused ends the search, whatever the addresses are and whatever
/// follows it: with the connection, or with the error of an attempt that had no socket.
pub proof fn first_answer_ends_the_search(
    interface: Seq<char>,
    remotes: Vec<RemoteAddr>,
    ips: Vec<Ipv4>,
    attempts: Seq<AttemptOutcome>,
    k: int,
)
    requires
        remotes@.len() > 0,
        ips@.len() > 0,
        0 <= k < attempts.len(),
        forall|i: int| 0 <= i < k ==> (#[trigger] attempts[i]) is Refused,
    ensures
        attempts[k] is Connected ==> connect_step(
            interface,
            Some(Ok(remotes)),
            Some(Ok(ips)),
            attempts,
        ) is Connected,
        attempts[k] matches AttemptOutcome::Unusable(e) ==> connect_step(
            interface,
            Some(Ok(remotes)),
            Some(Ok(ips)),
            attempts,
        ) == ConnectStepView::Failed(ConnectErrorView::Outside(e@)),
{
    if !(attempts[k] is Refused) {
        first_answer_settles(attempts, k);
    }
}

/// The text of an error tells what the outside says, or the interface, as it is.
pub proof fn connect_errors_are_told(s: Seq<char>)
    ensures
        ConnectErrorView::Outside(s).message() == s,
        ConnectErrorView::NoRemote.message() == "目标地址解析为空"@,
        ConnectErrorView::NoLocal(s).message() == "网卡 `"@ + s + "` 未找到 IPv4 地址"@,
        ConnectErrorView::AllFailed.message() == "全部地址连接失败"@,
{
}

/// An error of a connection, and a step towards one, hold what they are made of.
pub proof fn connect_values_hold_their_parts(
    s: String,
    e: ConnectError,
    remote: Ipv4,
    port: u16,
    local: Ipv4,
)
    ensures
        ConnectError::Outside(s)@ == ConnectErrorView::Outside(s@),
        ConnectError::NoRemote@ is NoRemote,
        ConnectError::NoLocal(s)@ == ConnectErrorView::NoLocal(s@),
        ConnectError::AllFailed@ is AllFailed,
        ConnectStep::Resolve@ is Resolve,
        ConnectStep::QueryInterface@ is QueryInterface,
        (ConnectStep::Try { remote, port, local })@ == (ConnectStepView::Try {
            remote,
            port,
            local,
        }),
        ConnectStep::Connected@ is Connected,
        ConnectStep::Failed(e)@ == ConnectStepView::Failed(e@),
{
}

} // verus!
