//! How the server starts: which command it was given, where it binds and
//! whether it serves TLS, where its HTTPS credentials come from, and which
//! log files a log record goes to.
use vstd::prelude::*;
use vstd::string::StrSliceExecFns;
use crate::bearer::pattern_views;

verus! {

/// An IP address: version 4 or 6, as a number.
#[derive(Clone, Copy, Debug, PartialEq, Eq)]
pub enum IpAddress {
    V4(u32),
    V6(u128),
}

/// An IP address and a port; for version 6 also the flow label and the
/// scope id that a `SocketAddrV6` carries. A version 4 address has neither,
/// and the two fields are 0 there.
#[derive(Clone, Copy, Debug, PartialEq, Eq)]
pub struct SocketAddress {
    pub ip: IpAddress,
    pub port: u16,
    pub flowinfo: u32,
    pub scope_id: u32,
}

/// The address `ip` on `port`, as `SocketAddr::new` makes it: no flow
/// label and no scope.
pub open spec fn on_port(ip: IpAddress, port: u16) -> SocketAddress {
    SocketAddress { ip, port, flowinfo: 0, scope_id: 0 }
}

/// The same address on another port, as `SocketAddr::set_port` leaves it.
pub open spec fn with_port(addr: SocketAddress, port: u16) -> SocketAddress {
    SocketAddress { ip: addr.ip, port, flowinfo: addr.flowinfo, scope_id: addr.scope_id }
}

/// Where the configuration says to serve: a local socket path, an IP
/// address on the default ports, or a full socket address.
pub enum BindAddress {
    Local(String),
    HTTP(IpAddress),
    Network(SocketAddress),
}

/// How the server listens.
pub enum ServePlan {
    /// On the local socket at this path.
    Local(String),
    /// Plain HTTP at this address.
    Plain(SocketAddress),
    /// HTTPS at this address.
    Tls(SocketAddress),
}

/// A plan and whether to warn that HTTPS is served off port 443.
pub open spec fn serve_plan_of(bind: BindAddress, has_identity: bool) -> (ServePlan, bool) {
    match bind {
        BindAddress::Local(path) => (ServePlan::Local(path), false),
        BindAddress::Network(addr) => if has_identity {
            (ServePlan::Tls(addr), addr.port != 443)
        } else {
            (ServePlan::Plain(addr), false)
        },
        BindAddress::HTTP(ip) => if has_identity {
            (ServePlan::Tls(on_port(ip, 443)), false)
        } else {
            (ServePlan::Plain(on_port(ip, 80)), false)
        },
    }
}

/// Where and how to serve, given the bind address and whether HTTPS
/// credentials were loaded; and whether to warn that HTTPS is served off
/// port 443. A bare IP address is served on 443 with credentials, else 80.
pub fn serve_plan(bind: BindAddress, has_identity: bool) -> (r: (ServePlan, bool))
    ensures
        r == serve_plan_of(bind, has_identity),
{
    match bind {
        BindAddress::Local(path) => (ServePlan::Local(path), false),
        BindAddress::Network(addr) => if has_identity {
            (ServePlan::Tls(addr), addr.port != 443)
        } else {
            (ServePlan::Plain(addr), false)
        },
        BindAddress::HTTP(ip) => if has_identity {
            (ServePlan::Tls(SocketAddress { ip, port: 443, flowinfo: 0, scope_id: 0 }), false)
        } else {
            (ServePlan::Plain(SocketAddress { ip, port: 80, flowinfo: 0, scope_id: 0 }), false)
        },
    }
}

/// Where the HTTPS credentials come from.
#[derive(Clone, Copy, Debug, PartialEq, Eq)]
pub enum CredentialsPlan {
    /// Use the certificates read from disk.
    Load,
    /// Obtain certificates, answering the ACME challenge at this address.
    Obtain(SocketAddress),
    /// No certificates, and none can be obtained: the server binds locally.
    Fail,
}

/// Where the credentials come from, given whether the certificate file
/// was empty or missing: certificates on disk are used; missing ones are
/// obtained through an ACME challenge on port 80 of a network address, and
/// cannot be otherwise.
pub fn credentials_plan(certs_missing: bool, bind: &BindAddress) -> (r: CredentialsPlan)
    ensures
        !certs_missing ==> r == CredentialsPlan::Load,
        certs_missing ==> r == (match bind {
            BindAddress::Network(addr) => CredentialsPlan::Obtain(with_port(*addr, 80)),
            _ => CredentialsPlan::Fail,
        }),
{
    if !certs_missing {
        return CredentialsPlan::Load;
    }
    match bind {
        BindAddress::Network(addr) => CredentialsPlan::Obtain(
            SocketAddress { ip: addr.ip, port: 80, flowinfo: addr.flowinfo, scope_id: addr.scope_id },
        ),
        _ => CredentialsPlan::Fail,
    }
}

/// Whether to serve HTTPS: a configuration that asks for it must name the
/// domain the certificates are for.
pub fn https_wanted(https: bool, https_domain: &str) -> (r: Result<bool, &'static str>)
    ensures
        !https ==> r == Ok::<bool, &'static str>(false),
        https && https_domain@.len() > 0 ==> r == Ok::<bool, &'static str>(true),
        https && https_domain@.len() == 0 ==> (r matches Err(m) && m@
            == "https is true, but https_domain is empty"@),
{
    if !https {
        Ok(false)
    } else if https_domain.unicode_len() == 0 {
        Err("https is true, but https_domain is empty")
    } else {
        Ok(true)
    }
}

/// What the command line asked for.
pub enum CommandMatch {
    /// Start the server.
    Start,
    /// Another subcommand, for the program to handle.
    Unmatched(String),
    /// No subcommand: the program stops with an error.
    NoCommand,
}

/// Sorts the subcommand given on the command line.
pub fn match_command(subcommand: Option<&str>) -> (r: CommandMatch)
    ensures
        match subcommand {
            None => r is NoCommand,
            Some(name) => if name@ == "start"@ {
                r is Start
            } else {
                r matches CommandMatch::Unmatched(n) && n@ == name@
            },
        },
{
    match subcommand {
        None => CommandMatch::NoCommand,
        Some(name) => {
            if crate::bytes::str_is(name, "start") {
                CommandMatch::Start
            } else {
                CommandMatch::Unmatched(name.to_owned())
            }
        },
    }
}

/// Whether `start` may go on: not while another server answers on the
/// control socket; then the refusal is the given message, or else "A
/// server may be active".
pub fn start_check(server_active: bool, on_active_msg: Option<String>) -> (r: Result<(), String>)
    ensures
        !server_active ==> r is Ok,
        server_active ==> (r matches Err(m) && m@ == (match on_active_msg {
            Some(msg) => msg@,
            None => "A server may be active"@,
        })),
{
    if !server_active {
        return Ok(());
    }
    match on_active_msg {
        Some(msg) => Err(msg),
        None => Err(String::from_str("A server may be active")),
    }
}

/// The control socket's name: the one from the environment, else the
/// default.
pub fn pipe_name(from_env: Option<String>, default_pipe_name: &str) -> (r: String)
    ensures
        r@ == (match from_env {
            Some(n) => n@,
            None => default_pipe_name@,
        }),
{
    match from_env {
        Some(n) => n,
        None => default_pipe_name.to_owned(),
    }
}

/// The pattern of log targets that go to the routing log.
pub const ROUTING_REGEX_RAW: &'static str = "^(tower_http::trace|hyper::proto|mio|tracing|routing)";

/// The log target of suspicious security events.
pub const SECURITY_TARGET: &'static str = "suspicious_security";

pub open spec fn is_prefix(p: Seq<char>, s: Seq<char>) -> bool {
    p.len() <= s.len() && s.subrange(0, p.len() as int) == p
}

/// The prefixes that `ROUTING_REGEX_RAW` accepts.
pub open spec fn routing_prefixes() -> Seq<Seq<char>> {
    seq!["tower_http::trace"@, "hyper::proto"@, "mio"@, "tracing"@, "routing"@]
}

/// A target of the routing log.
pub open spec fn is_routing_target(t: Seq<char>) -> bool {
    exists|i: int| 0 <= i < routing_prefixes().len() && is_prefix(#[trigger] routing_prefixes()[i], t)
}

/// A target of the security log.
pub open spec fn is_security_target(t: Seq<char>) -> bool {
    is_prefix("suspicious_security"@, t)
}

/// The pattern of security targets in the set of non-stderr patterns.
pub open spec fn security_pattern() -> Seq<char> {
    "^suspicious_security"@
}

/// The patterns that keep a record off standard error.
pub open spec fn non_stderr_pattern_list() -> Seq<Seq<char>> {
    seq![ROUTING_REGEX_RAW@, security_pattern()]
}

/// The log filters: `ROUTING_REGEX_RAW`, and the set of it and
/// `^suspicious_security`, each with the compiled form next to it.
pub struct LogFilters {
    routing_pattern: String,
    non_stderr_patterns: Vec<String>,
    routing: regex::Regex,
    non_stderr: regex::RegexSet,
}

impl LogFilters {
    /// The pattern the routing regex was compiled from.
    pub closed spec fn routing_pattern(&self) -> Seq<char> {
        self.routing_pattern@
    }

    /// The patterns the non-stderr set was compiled from.
    pub closed spec fn non_stderr_patterns(&self) -> Seq<Seq<char>> {
        pattern_views(self.non_stderr_patterns@)
    }

    #[verifier::type_invariant]
    closed spec fn compiled_from_the_log_patterns(self) -> bool {
        &&& self.routing_pattern@ == ROUTING_REGEX_RAW@
        &&& pattern_views(self.non_stderr_patterns@) == non_stderr_pattern_list()
    }
}

#[verifier::external_type_specification]
#[verifier::external_body]
pub struct ExRegex(regex::Regex);

/// Calls `Regex::new` on `ROUTING_REGEX_RAW`; that pattern is valid, so it
/// does not fail.
#[verifier::external_body]
fn compile_routing_regex(pattern: &str) -> (r: regex::Regex)
    requires
        pattern@ == ROUTING_REGEX_RAW@,
{
    regex::Regex::new(pattern).unwrap()
}

/// Calls `RegexSet::new` on `ROUTING_REGEX_RAW` and `^suspicious_security`;
/// both are valid, so it does not fail.
#[verifier::external_body]
fn compile_non_stderr_set(patterns: &Vec<String>) -> (r: regex::RegexSet)
    requires
        pattern_views(patterns@) == non_stderr_pattern_list(),
{
    regex::RegexSet::new(patterns).unwrap()
}

/// Calls `Regex::is_match` with the routing regex, compiled from the
/// filters' routing pattern; compiled from `ROUTING_REGEX_RAW`, it matches
/// a string that starts with one of its alternatives.
#[verifier::external_body]
fn routing_regex_matches(filters: &LogFilters, target: &str) -> (r: bool)
    ensures
        filters.routing_pattern() == ROUTING_REGEX_RAW@ ==> r == is_routing_target(target@),
{
    filters.routing.is_match(target)
}

/// Calls `RegexSet::is_match` with the set compiled from the filters'
/// non-stderr patterns; compiled from `ROUTING_REGEX_RAW` and
/// `^suspicious_security`, one of them matches exactly when the target is a
/// routing or a security target.
#[verifier::external_body]
fn non_stderr_matches(filters: &LogFilters, target: &str) -> (r: bool)
    ensures
        filters.non_stderr_patterns() == non_stderr_pattern_list() ==> r == (is_routing_target(
            target@,
        ) || is_security_target(target@)),
{
    filters.non_stderr.is_match(target)
}

/// A log record's level, most severe first.
#[derive(Clone, Copy, Debug, PartialEq, Eq)]
pub enum LogLevel {
    Error,
    Warn,
    Info,
    Debug,
    Trace,
}

/// A log sink's threshold: `Off` lets nothing through.
#[derive(Clone, Copy, Debug, PartialEq, Eq)]
pub enum LogLevelFilter {
    Off,
    Error,
    Warn,
    Info,
    Debug,
    Trace,
}

pub open spec fn level_rank(l: LogLevel) -> nat {
    match l {
        LogLevel::Error => 1,
        LogLevel::Warn => 2,
        LogLevel::Info => 3,
        LogLevel::Debug => 4,
        LogLevel::Trace => 5,
    }
}

pub open spec fn filter_rank(f: LogLevelFilter) -> nat {
    match f {
        LogLevelFilter::Off => 0,
        LogLevelFilter::Error => 1,
        LogLevelFilter::Warn => 2,
        LogLevelFilter::Info => 3,
        LogLevelFilter::Debug => 4,
        LogLevelFilter::Trace => 5,
    }
}

/// Whether a sink with threshold `f` takes a record of level `l`.
pub open spec fn passes(l: LogLevel, f: LogLevelFilter) -> bool {
    level_rank(l) <= filter_rank(f)
}

fn level_passes(l: LogLevel, f: LogLevelFilter) -> (r: bool)
    ensures
        r == passes(l, f),
{
    let lr: u8 = match l {
        LogLevel::Error => 1,
        LogLevel::Warn => 2,
        LogLevel::Info => 3,
        LogLevel::Debug => 4,
        LogLevel::Trace => 5,
    };
    let fr: u8 = match f {
        LogLevelFilter::Off => 0,
        LogLevelFilter::Error => 1,
        LogLevelFilter::Warn => 2,
        LogLevelFilter::Info => 3,
        LogLevelFilter::Debug => 4,
        LogLevelFilter::Trace => 5,
    };
    lr <= fr
}

/// The thresholds of the three sinks that have one.
#[derive(Clone, Copy, Debug)]
pub struct LogLevels {
    pub critical: LogLevelFilter,
    pub stderr: LogLevelFilter,
    pub routing: LogLevelFilter,
}

/// The sinks a log record goes to.
#[derive(Clone, Copy, Debug, PartialEq, Eq)]
pub struct LogRoutes {
    /// The terminal's standard error.
    pub stderr: bool,
    /// The general log file.
    pub stderr_file: bool,
    /// The routing log file.
    pub routing_file: bool,
    /// The security log file.
    pub security_file: bool,
}

/// Routing and security records stay off standard error and the general
/// log; those take other records up to their thresholds. The routing log
/// takes routing records up to its threshold, the security log every
/// security record.
pub open spec fn routes_of(target: Seq<char>, level: LogLevel, levels: LogLevels) -> LogRoutes {
    let special = is_routing_target(target) || is_security_target(target);
    LogRoutes {
        stderr: !special && passes(level, levels.critical),
        stderr_file: !special && passes(level, levels.stderr),
        routing_file: is_routing_target(target) && passes(level, levels.routing),
        security_file: is_security_target(target),
    }
}

fn starts_with(s: &str, prefix: &str) -> (r: bool)
    ensures
        r == is_prefix(prefix@, s@),
{
    let n = s.unicode_len();
    let m = prefix.unicode_len();
    if m > n {
        return false;
    }
    let mut i: usize = 0;
    while i < m
        invariant
            m == prefix@.len(),
            n == s@.len(),
            m <= n,
            i <= m,
            forall|k: int| 0 <= k < i ==> s@[k] == prefix@[k],
        decreases m - i,
    {
        if s.get_char(i) != prefix.get_char(i) {
            assert(s@.subrange(0, m as int)[i as int] != prefix@[i as int]);
            return false;
        }
        i = i + 1;
    }
    assert(s@.subrange(0, m as int) =~= prefix@);
    true
}

impl LogFilters {
    /// The filters, compiled from `ROUTING_REGEX_RAW` and, for the
    /// non-stderr set, from it and `^suspicious_security`.
    pub fn new() -> (r: LogFilters)
        ensures
            r.routing_pattern() == ROUTING_REGEX_RAW@,
            r.non_stderr_patterns() == non_stderr_pattern_list(),
    {
        let routing_pattern = String::from_str(ROUTING_REGEX_RAW);
        let mut non_stderr_patterns: Vec<String> = Vec::new();
        non_stderr_patterns.push(String::from_str(ROUTING_REGEX_RAW));
        non_stderr_patterns.push(String::from_str("^suspicious_security"));
        assert(pattern_views(non_stderr_patterns@) =~= non_stderr_pattern_list());
        let routing = compile_routing_regex(routing_pattern.as_str());
        let non_stderr = compile_non_stderr_set(&non_stderr_patterns);
        LogFilters { routing_pattern, non_stderr_patterns, routing, non_stderr }
    }

    /// The sinks a record with this target and level goes to.
    pub fn routes(&self, target: &str, level: LogLevel, levels: LogLevels) -> (r: LogRoutes)
        ensures
            r == routes_of(target@, level, levels),
    {
        proof {
            use_type_invariant(self);
        }
        let special = non_stderr_matches(self, target);
        let routing = routing_regex_matches(self, target);
        let security = starts_with(target, SECURITY_TARGET);
        proof {
            reveal_strlit("suspicious_security");
        }
        LogRoutes {
            stderr: !special && level_passes(level, levels.critical),
            stderr_file: !special && level_passes(level, levels.stderr),
            routing_file: routing && level_passes(level, levels.routing),
            security_file: security,
        }
    }
}

} // verus!
