//! Health checks: what a probe is sent to, how a reply is judged, and how many
//! probes may run at once.

use crate::clock::{duration_nanos, NANOS_PER_SEC};
use crate::text::{begins_with, decimal, has_char, has_prefix, push_decimal};
use std::sync::Arc;
use std::time::Duration;
use tokio::sync::Semaphore;
use vstd::prelude::*;
use vstd::string::*;

verus! {

/// What a probe found.
#[derive(Debug, Clone, Copy, PartialEq, Eq, Structural)]
pub enum CheckResult {
    Up,
    Down,
}

/// The kinds of input and output failure that are told apart.
#[derive(Debug, Clone, Copy, PartialEq, Eq, Structural)]
pub enum IoErrorKind {
    NotFound,
    InvalidInput,
    Other,
}

/// A failure of input or output, with the words that describe it.
#[derive(Debug)]
pub struct IoError {
    pub kind: IoErrorKind,
    pub message: String,
}

/// Why a probe could not be made.
#[derive(Debug)]
pub enum CheckError {
    Io(IoError),
    InvalidAddress(String),
    Http(String),
}

impl CheckError {
    /// The message of the error.
    pub open spec fn text(self) -> Seq<char> {
        match self {
            CheckError::Io(e) => "I/O error: "@ + e.message@,
            CheckError::InvalidAddress(address) => "invalid address: "@ + address@,
            CheckError::Http(reason) => "HTTP error: "@ + reason@,
        }
    }

    /// Writes the message of the error.
    pub fn message(&self) -> (message: String)
        ensures
            message@ == self.text(),
            match *self {
                CheckError::Io(e) => message@ == "I/O error: "@ + e.message@,
                CheckError::InvalidAddress(address) => message@ == "invalid address: "@ + address@,
                CheckError::Http(reason) => message@ == "HTTP error: "@ + reason@,
            },
    {
        match self {
            CheckError::Io(e) => "I/O error: ".to_owned().concat(e.message.as_str()),
            CheckError::InvalidAddress(address) => "invalid address: ".to_owned().concat(
                address.as_str(),
            ),
            CheckError::Http(reason) => "HTTP error: ".to_owned().concat(reason.as_str()),
        }
    }
}

// ------------------------------------------------------------ ping and connect

/// How a ping or an attempt to connect ended.
#[derive(Debug, Clone, Copy, PartialEq, Eq, Structural)]
pub enum ProbeReply {
    Answered,
    Failed,
    TimedOut,
}

/// Only what answers in time is up.
pub open spec fn probe_verdict(reply: ProbeReply) -> CheckResult {
    if reply == ProbeReply::Answered {
        CheckResult::Up
    } else {
        CheckResult::Down
    }
}

/// Judges a ping or an attempt to connect.
pub fn judge_probe(reply: ProbeReply) -> (result: CheckResult)
    ensures
        result == probe_verdict(reply),
        result == CheckResult::Up <==> reply == ProbeReply::Answered,
{
    match reply {
        ProbeReply::Answered => CheckResult::Up,
        ProbeReply::Failed => CheckResult::Down,
        ProbeReply::TimedOut => CheckResult::Down,
    }
}

/// How long a ping may take, in seconds.
pub const PING_TIMEOUT_SECS: u64 = 10;

/// The identifier that echo requests carry.
pub const PING_IDENTIFIER: u16 = 0x1234;

/// The sequence number that echo requests carry.
pub const PING_SEQUENCE: u16 = 0;

/// What has become known while a host is pinged. `T` is an IP address.
pub enum PingEvent<T> {
    /// The configured address was read as an IP address, or was none.
    Parsed(Option<T>),
    /// The configured address was looked up: what it resolves to, or why not.
    Resolved(Result<Vec<T>, String>),
    /// No socket could be opened.
    SocketFailed(String),
    /// The echo request ended.
    Replied(ProbeReply),
}

/// What is to be done next while a host is pinged.
pub enum PingStep<T> {
    LookUp,
    Send(T),
    Done(Result<CheckResult, CheckError>),
}

/// Takes a ping one step further. An address that is an IP address is pinged
/// as it is; another is looked up, and the first address found is pinged.
pub fn ping_host<T: Copy>(address: &str, event: PingEvent<T>) -> (step: PingStep<T>)
    ensures
        match event {
            PingEvent::Parsed(Some(ip)) => step == PingStep::Send(ip),
            PingEvent::Parsed(None) => step == PingStep::<T>::LookUp,
            PingEvent::Resolved(Ok(found)) => if found@.len() > 0 {
                step == PingStep::Send(found@[0])
            } else {
                step matches PingStep::Done(Err(CheckError::InvalidAddress(why))) && why@
                    == address@ + ": no addresses found"@
            },
            PingEvent::Resolved(Err(reason)) => step matches PingStep::Done(
                Err(CheckError::InvalidAddress(why)),
            ) && why@ == address@ + ": "@ + reason@,
            PingEvent::SocketFailed(reason) => step matches PingStep::Done(Err(CheckError::Io(e)))
                && e.kind == IoErrorKind::Other && e.message == reason,
            PingEvent::Replied(reply) => step == PingStep::<T>::Done(Ok(probe_verdict(reply))),
        },
        event == PingEvent::<T>::Replied(ProbeReply::Answered) ==> step == PingStep::<T>::Done(
            Ok(CheckResult::Up),
        ),
        event == PingEvent::<T>::Replied(ProbeReply::Failed) ==> step == PingStep::<T>::Done(
            Ok(CheckResult::Down),
        ),
        event == PingEvent::<T>::Replied(ProbeReply::TimedOut) ==> step == PingStep::<T>::Done(
            Ok(CheckResult::Down),
        ),
{
    match event {
        PingEvent::Parsed(Some(ip)) => PingStep::Send(ip),
        PingEvent::Parsed(None) => PingStep::LookUp,
        PingEvent::Resolved(Ok(found)) => {
            if found.len() > 0 {
                PingStep::Send(found[0])
            } else {
                PingStep::Done(
                    Err(
                        CheckError::InvalidAddress(
                            address.to_owned().concat(": no addresses found"),
                        ),
                    ),
                )
            }
        },
        PingEvent::Resolved(Err(reason)) => PingStep::Done(
            Err(
                CheckError::InvalidAddress(
                    address.to_owned().concat(": ").concat(reason.as_str()),
                ),
            ),
        ),
        PingEvent::SocketFailed(reason) => PingStep::Done(
            Err(CheckError::Io(IoError { kind: IoErrorKind::Other, message: reason })),
        ),
        PingEvent::Replied(reply) => PingStep::Done(Ok(judge_probe(reply))),
    }
}

/// Where a TCP connection to `port` at `address` is made to.
pub open spec fn endpoint_text(address: Seq<char>, port: nat) -> Seq<char> {
    address + ":"@ + decimal(port)
}

/// Writes the address that a TCP check connects to.
pub fn endpoint(address: &str, port: u16) -> (text: String)
    ensures
        text@ == endpoint_text(address@, port as nat),
{
    let mut text: String = address.to_owned().concat(":");
    push_decimal(&mut text, port as u64);
    text
}

// ------------------------------------------------------------------------ HTTP

/// The host part of a URL: an IPv6 address is put in brackets unless it has them.
pub open spec fn url_host(address: Seq<char>) -> Seq<char> {
    if address.contains(':') && !begins_with(address, "["@) {
        "["@ + address + "]"@
    } else {
        address
    }
}

/// The URL that an HTTP check asks for.
pub open spec fn url_text(
    address: Seq<char>,
    port: nat,
    path: Seq<char>,
    use_tls: bool,
) -> Seq<char> {
    (if use_tls {
        "https"@
    } else {
        "http"@
    }) + "://"@ + url_host(address) + ":"@ + decimal(port) + path
}

/// A request that an HTTP check sends.
#[derive(Debug)]
pub struct HttpRequest {
    pub url: String,
    pub headers: Vec<(String, String)>,
    pub timeout: Duration,
}

/// The headers of a request as characters.
pub open spec fn header_texts(headers: Seq<(String, String)>) -> Seq<(Seq<char>, Seq<char>)> {
    headers.map_values(|h: (String, String)| (h.0@, h.1@))
}

/// The headers that an HTTP check sends: who asks, and the host that is asked
/// for where it is not the one in the URL.
pub open spec fn check_headers(hostname_override: Option<Seq<char>>) -> Seq<
    (Seq<char>, Seq<char>),
> {
    let agent = seq![("User-Agent"@, "tmonitor/0.1.0"@)];
    match hostname_override {
        Some(hostname) => agent.push(("Host"@, hostname)),
        None => agent,
    }
}

/// The characters of an optional text.
pub open spec fn option_text(s: Option<&str>) -> Option<Seq<char>> {
    match s {
        Some(t) => Some(t@),
        None => None,
    }
}

/// Makes up the request of an HTTP check.
pub fn http_request(
    address: &str,
    port: u16,
    path: &str,
    use_tls: bool,
    timeout: Duration,
    hostname_override: Option<&str>,
) -> (request: HttpRequest)
    ensures
        request.url@ == url_text(address@, port as nat, path@, use_tls),
        header_texts(request.headers@) == check_headers(option_text(hostname_override)),
        request.timeout == timeout,
        request.headers@.len() == if hostname_override is Some {
            2nat
        } else {
            1
        },
        request.headers@[0].0@ == "User-Agent"@ && request.headers@[0].1@ == "tmonitor/0.1.0"@,
        hostname_override matches Some(hostname) ==> request.headers@[1].0@ == "Host"@
            && request.headers@[1].1@ == hostname@,
{
    let mut url: String = if use_tls {
        "https".to_owned()
    } else {
        "http".to_owned()
    };
    url.append("://");
    if has_char(address, ':') && !has_prefix(address, "[") {
        url.append("[");
        url.append(address);
        url.append("]");
    } else {
        url.append(address);
    }
    url.append(":");
    push_decimal(&mut url, port as u64);
    url.append(path);
    assert(url@ =~= url_text(address@, port as nat, path@, use_tls));

    let mut headers: Vec<(String, String)> = Vec::new();
    headers.push(("User-Agent".to_owned(), "tmonitor/0.1.0".to_owned()));
    if let Some(hostname) = hostname_override {
        headers.push(("Host".to_owned(), hostname.to_owned()));
    }
    assert(header_texts(headers@) =~= check_headers(option_text(hostname_override)));
    HttpRequest { url, headers, timeout }
}

/// How an HTTP check ended.
#[derive(Debug, Clone, Copy, PartialEq, Eq, Structural)]
pub enum HttpReply {
    Status(u16),
    Failed,
    TimedOut,
}

/// A service that answers is up when the status is the one that is expected,
/// or, where none is, one of success or redirection.
pub open spec fn http_verdict(reply: HttpReply, expected_status: Option<u16>) -> CheckResult {
    let good = match (reply, expected_status) {
        (HttpReply::Status(status), Some(expected)) => status == expected,
        (HttpReply::Status(status), None) => 200 <= status < 400,
        _ => false,
    };
    if good {
        CheckResult::Up
    } else {
        CheckResult::Down
    }
}

/// Judges how an HTTP check ended.
pub fn judge_http(reply: HttpReply, expected_status: Option<u16>) -> (result: CheckResult)
    ensures
        result == http_verdict(reply, expected_status),
        match (reply, expected_status) {
            (HttpReply::Status(status), Some(expected)) => result == CheckResult::Up <==> status
                == expected,
            (HttpReply::Status(status), None) => result == CheckResult::Up <==> 200 <= status
                < 400,
            (HttpReply::Failed, _) => result == CheckResult::Down,
            (HttpReply::TimedOut, _) => result == CheckResult::Down,
        },
{
    match reply {
        HttpReply::Status(status) => match expected_status {
            Some(expected) => if status == expected {
                CheckResult::Up
            } else {
                CheckResult::Down
            },
            None => if 200 <= status && status < 400 {
                CheckResult::Up
            } else {
                CheckResult::Down
            },
        },
        HttpReply::Failed => CheckResult::Down,
        HttpReply::TimedOut => CheckResult::Down,
    }
}

/// How the HTTP client is set up.
#[derive(Debug, Clone, Copy)]
pub struct ClientOptions {
    pub no_proxy: bool,
    pub http1_only: bool,
    pub tcp_keepalive: Duration,
    pub connect_timeout: Duration,
    pub timeout: Duration,
    pub idle_connections_per_host: usize,
    pub idle_timeout: Duration,
    pub redirect_limit: usize,
    pub accept_invalid_certs: bool,
}

/// `reqwest::Client`: an HTTP client.
#[verifier::external_type_specification]
#[verifier::external_body]
pub struct ExClient(reqwest::Client);

/// The options that a client was built with by `reqwest::ClientBuilder::build`.
pub uninterp spec fn client_options(client: reqwest::Client) -> ClientOptions;

/// `reqwest::ClientBuilder::build`, for a client that asks directly, not through a
/// proxy, and speaks HTTP/1 only: a client made with the options, or the words of
/// the error. Whether it succeeds is up to the TLS library, and is left open.
#[verifier::external_body]
fn build_client(options: ClientOptions) -> (built: Result<reqwest::Client, String>)
    requires
        options.no_proxy,
        options.http1_only,
    ensures
        built matches Ok(client) ==> client_options(client) == options,
{
    reqwest::Client::builder()
        .no_proxy()
        .http1_only()
        .tcp_keepalive(Some(options.tcp_keepalive))
        .connect_timeout(options.connect_timeout)
        .timeout(options.timeout)
        .pool_max_idle_per_host(options.idle_connections_per_host)
        .pool_idle_timeout(options.idle_timeout)
        .redirect(reqwest::redirect::Policy::limited(options.redirect_limit))
        .danger_accept_invalid_certs(options.accept_invalid_certs)
        .build()
        .map_err(|e| e.to_string())
}

/// How the HTTP client of the checks is set up: it asks directly and speaks HTTP/1
/// only, `timeout` bounds both the connection and the whole request, no connection
/// is kept, and at most five redirections are followed.
pub open spec fn is_check_client(
    options: ClientOptions,
    timeout: Duration,
    danger_accept_invalid_certs: bool,
) -> bool {
    &&& options.no_proxy
    &&& options.http1_only
    &&& duration_nanos(options.tcp_keepalive) == 2 * NANOS_PER_SEC
    &&& options.connect_timeout == timeout
    &&& options.timeout == timeout
    &&& options.idle_connections_per_host == 0
    &&& duration_nanos(options.idle_timeout) == 0
    &&& options.redirect_limit == 5
    &&& options.accept_invalid_certs == danger_accept_invalid_certs
}

/// Chooses how the HTTP client of the checks is set up.
pub fn check_client_options(timeout: Duration, danger_accept_invalid_certs: bool) -> (options:
    ClientOptions)
    ensures
        is_check_client(options, timeout, danger_accept_invalid_certs),
        options.no_proxy,
        options.http1_only,
        duration_nanos(options.tcp_keepalive) == 2_000_000_000,
        options.connect_timeout == timeout,
        options.timeout == timeout,
        options.idle_connections_per_host == 0,
        duration_nanos(options.idle_timeout) == 0,
        options.redirect_limit == 5,
        options.accept_invalid_certs == danger_accept_invalid_certs,
{
    ClientOptions {
        no_proxy: true,
        http1_only: true,
        tcp_keepalive: Duration::from_secs(2),
        connect_timeout: timeout,
        timeout,
        idle_connections_per_host: 0,
        idle_timeout: Duration::from_secs(0),
        redirect_limit: 5,
        accept_invalid_certs: danger_accept_invalid_certs,
    }
}

/// Hands a client on, or makes the reason why there is none an error.
pub fn client_or_error(built: Result<reqwest::Client, String>) -> (client: Result<
    reqwest::Client,
    CheckError,
>)
    ensures
        match built {
            Ok(c) => client == Ok::<reqwest::Client, CheckError>(c),
            Err(reason) => client == Err::<reqwest::Client, CheckError>(CheckError::Http(reason)),
        },
{
    match built {
        Ok(c) => Ok(c),
        Err(reason) => Err(CheckError::Http(reason)),
    }
}

/// Builds the HTTP client of the checks. Whether it can be built is up to the
/// TLS library; no other error comes of it than one of HTTP.
pub fn build_http_client(timeout: Duration, danger_accept_invalid_certs: bool) -> (client: Result<
    reqwest::Client,
    CheckError,
>)
    ensures
        client matches Ok(c) ==> is_check_client(
            client_options(c),
            timeout,
            danger_accept_invalid_certs,
        ),
        client matches Err(e) ==> e is Http,
{
    client_or_error(build_client(check_client_options(timeout, danger_accept_invalid_certs)))
}

// ----------------------------------------------------------------- concurrency

/// Why there is no permit, or no guard to ask for one.
#[derive(Debug)]
pub enum ConcurrencyError {
    ZeroCapacity(usize),
    SemaphoreClosed,
}

impl ConcurrencyError {
    /// The message of the error.
    pub open spec fn text(self) -> Seq<char> {
        match self {
            ConcurrencyError::ZeroCapacity(n) => "max_concurrent must be at least 1, got "@
                + decimal(n as nat),
            ConcurrencyError::SemaphoreClosed => "semaphore closed"@,
        }
    }

    /// Writes the message of the error.
    pub fn message(&self) -> (message: String)
        ensures
            message@ == self.text(),
            match *self {
                ConcurrencyError::ZeroCapacity(n) => message@
                    == "max_concurrent must be at least 1, got "@ + decimal(n as nat),
                ConcurrencyError::SemaphoreClosed => message@ == "semaphore closed"@,
            },
    {
        match self {
            ConcurrencyError::ZeroCapacity(n) => {
                let mut message: String = "max_concurrent must be at least 1, got ".to_owned();
                push_decimal(&mut message, *n as u64);
                message
            },
            ConcurrencyError::SemaphoreClosed => "semaphore closed".to_owned(),
        }
    }
}

/// `tokio::sync::Semaphore`: a store of permits.
#[verifier::external_type_specification]
#[verifier::external_body]
pub struct ExSemaphore(Semaphore);

/// The number of permits that `Semaphore::new` put into a semaphore.
pub uninterp spec fn initial_permits(semaphore: Semaphore) -> nat;

/// `Semaphore::new` makes a semaphore of as many permits as it is told. It
/// takes no more than an eighth of what a `usize` can count.
pub assume_specification[ Semaphore::new ](permits: usize) -> (semaphore: Semaphore)
    requires
        permits <= usize::MAX / 8,
    ensures
        initial_permits(semaphore) == permits,
;

/// Whether `free` is a number of permits that `Semaphore::available_permits`
/// finds free in a semaphore at some time of its life.
pub uninterp spec fn free_at_some_time(semaphore: Semaphore, free: nat) -> bool;

/// `Semaphore::available_permits` is the number of permits of this semaphore that
/// are free at the moment. It changes as permits are taken and given back, so
/// that which of the numbers it has in its life is returned is left open. One bit
/// of the counter is not part of the number.
pub assume_specification[ Semaphore::available_permits ](semaphore: &Semaphore) -> (free: usize)
    ensures
        free_at_some_time(*semaphore, free as nat),
        free <= usize::MAX / 2,
;

/// Bounds how many probes run at once: each holds a permit while it runs.
pub struct ConcurrencyGuard {
    semaphore: Arc<Semaphore>,
}

impl Clone for ConcurrencyGuard {
    fn clone(&self) -> (copy: Self)
        ensures
            copy == *self,
    {
        ConcurrencyGuard { semaphore: self.semaphore.clone() }
    }
}

impl ConcurrencyGuard {
    /// The store of the permits.
    pub closed spec fn store(self) -> Semaphore {
        *self.semaphore
    }

    /// How many permits there are in all.
    pub open spec fn capacity(self) -> nat {
        initial_permits(self.store())
    }

    /// Makes a guard of `max_concurrent` permits. There must be one at least.
    pub fn new(max_concurrent: usize) -> (guard: Result<Self, ConcurrencyError>)
        requires
            max_concurrent <= usize::MAX / 8,
        ensures
            guard is Err == (max_concurrent == 0),
            guard matches Err(e) ==> e == ConcurrencyError::ZeroCapacity(0),
            guard matches Ok(g) ==> g.capacity() == max_concurrent,
    {
        if max_concurrent == 0 {
            return Err(ConcurrencyError::ZeroCapacity(max_concurrent));
        }
        Ok(ConcurrencyGuard { semaphore: Arc::new(Semaphore::new(max_concurrent)) })
    }

    /// How many permits are free at the moment in the store of this guard.
    pub fn available_permits(&self) -> (free: usize)
        ensures
            free_at_some_time(self.store(), free as nat),
            free <= usize::MAX / 2,
    {
        self.semaphore.available_permits()
    }

    /// The store of the permits, from which a probe waits to take one.
    pub fn semaphore(&self) -> (semaphore: Arc<Semaphore>)
        ensures
            *semaphore == self.store(),
    {
        self.semaphore.clone()
    }
}

// ----------------------------------------------------------------------------- laws

/// Only an answer in time means up: a ping or a connection that fails or takes too
/// long means down.
pub proof fn silence_is_down(reply: ProbeReply)
    ensures
        probe_verdict(reply) == CheckResult::Up <==> reply == ProbeReply::Answered,
        probe_verdict(ProbeReply::Failed) == CheckResult::Down,
        probe_verdict(ProbeReply::TimedOut) == CheckResult::Down,
{
}

/// An HTTP check goes by the status that is expected and by no other, or by any of
/// success or redirection where none is; without an answer the service is down.
pub proof fn status_decides(status: u16, expected: u16, any: Option<u16>)
    ensures
        http_verdict(HttpReply::Status(status), Some(expected)) == CheckResult::Up <==> status
            == expected,
        http_verdict(HttpReply::Status(status), None) == CheckResult::Up <==> 200 <= status < 400,
        http_verdict(HttpReply::Failed, any) == CheckResult::Down,
        http_verdict(HttpReply::TimedOut, any) == CheckResult::Down,
{
}

/// A connection goes to the address and the port, with a colon between them.
pub proof fn endpoint_names_address_and_port(address: Seq<char>, port: nat)
    ensures
        endpoint_text(address, port) == address + seq![':'] + decimal(port),
{
    reveal_strlit(":");
    assert(endpoint_text(address, port) =~= address + seq![':'] + decimal(port));
}

/// A URL names the host, the port and the path in this order, whatever the scheme;
/// an address with colons stands in one pair of brackets.
pub proof fn url_names_its_parts(address: Seq<char>, port: nat, path: Seq<char>)
    ensures
        ({
            let bare = address.contains(':') && address[0] != '[';
            let host = if bare {
                seq!['['] + address + seq![']']
            } else {
                address
            };
            let place = host + seq![':'] + decimal(port) + path;
            &&& url_text(address, port, path, false) == "http://"@ + place
            &&& url_text(address, port, path, true) == "https://"@ + place
        }),
{
    reveal_strlit("http");
    reveal_strlit("https");
    reveal_strlit("://");
    reveal_strlit("http://");
    reveal_strlit("https://");
    reveal_strlit(":");
    reveal_strlit("[");
    reveal_strlit("]");
    let bare = address.contains(':') && address[0] != '[';
    let host = if bare {
        seq!['['] + address + seq![']']
    } else {
        address
    };
    let place = host + seq![':'] + decimal(port) + path;
    if address.contains(':') {
        assert(begins_with(address, "["@) <==> address[0] == '[') by {
            if address[0] == '[' {
                assert(address.subrange(0, 1) =~= "["@);
            } else if begins_with(address, "["@) {
                assert(address.subrange(0, 1)[0] == address[0]);
            }
        }
    }
    assert(url_host(address) =~= host);
    assert(url_text(address, port, path, false) =~= "http://"@ + place);
    assert(url_text(address, port, path, true) =~= "https://"@ + place);
}

/// A ping is given ten seconds, and each one carries the same identifier and
/// sequence number.
pub proof fn ping_is_bounded()
    ensures
        PING_TIMEOUT_SECS == 10,
        PING_IDENTIFIER == 0x1234,
        PING_SEQUENCE == 0,
{
}

/// A client that is set up for the checks asks directly and by HTTP/1, within the
/// time it is given; it keeps no connection, and follows five redirections.
pub proof fn check_client_is_bounded(options: ClientOptions, timeout: Duration, danger: bool)
    ensures
        is_check_client(options, timeout, danger) <==> {
            &&& options.no_proxy && options.http1_only
            &&& options.connect_timeout == timeout && options.timeout == timeout
            &&& options.idle_connections_per_host == 0
            &&& options.redirect_limit == 5
            &&& options.accept_invalid_certs == danger
            &&& duration_nanos(options.tcp_keepalive) == 2_000_000_000
            &&& duration_nanos(options.idle_timeout) == 0
        },
{
}

}
