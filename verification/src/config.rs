//! The configuration: what is monitored, and which configurations are accepted.

use crate::check::{IoError, IoErrorKind};
use crate::text::{blank, decimal, is_blank, is_white_space, push_decimal, same_text, shorten, shortened};
use std::ops::Range;
use vstd::prelude::*;
use vstd::string::*;
use vstd::utf8::*;

verus! {

/// A value, and where in the configuration file it stands.
#[derive(Debug, Clone)]
pub struct Spanned<T> {
    start: usize,
    end: usize,
    value: T,
}

impl<T> Spanned<T> {
    /// The value.
    pub closed spec fn value(self) -> T {
        self.value
    }

    /// The byte at which the value starts.
    pub closed spec fn start(self) -> nat {
        self.start as nat
    }

    /// The byte before which the value ends.
    pub closed spec fn end(self) -> nat {
        self.end as nat
    }

    /// A value that stands at `range`.
    pub fn new(range: Range<usize>, value: T) -> (spanned: Self)
        ensures
            spanned.value() == value,
            spanned.start() == range.start,
            spanned.end() == range.end,
    {
        Spanned { start: range.start, end: range.end, value }
    }

    /// The bytes at which the value stands.
    pub fn span(&self) -> (range: Range<usize>)
        ensures
            range.start == self.start(),
            range.end == self.end(),
    {
        Range { start: self.start, end: self.end }
    }

    /// The value.
    pub fn get_ref(&self) -> (value: &T)
        ensures
            *value == self.value(),
    {
        &self.value
    }
}

/// The whole configuration.
#[derive(Debug, Clone)]
pub struct Config {
    pub interval_secs: u64,
    pub concurrency: usize,
    pub hosts: Vec<HostConfig>,
}

/// A host to monitor.
#[derive(Debug, Clone)]
pub struct HostConfig {
    pub name: Spanned<String>,
    pub address: String,
    pub services: Vec<ServiceConfig>,
}

/// A service of a host.
#[derive(Debug, Clone)]
pub struct ServiceConfig {
    pub name: String,
    pub port: Spanned<u32>,
    pub service_type: String,
    pub path: Option<String>,
    pub expected_status: Option<u16>,
    pub danger_accept_invalid_certs: bool,
}

/// Seconds between check cycles, where the file does not say.
pub fn default_interval() -> (secs: u64)
    ensures
        secs == 60,
{
    60
}

/// How many probes run at once, where the file does not say.
pub fn default_concurrency() -> (probes: usize)
    ensures
        probes == 10,
{
    10
}

/// The port of a service that names none. It is not a valid one.
pub fn default_port() -> (port: Spanned<u32>)
    ensures
        port.value() == 0,
        port.start() == 0,
        port.end() == 0,
{
    Spanned::new(0..0, 0)
}

/// How a service is checked that does not say: by a connection to its port.
pub fn default_service_type() -> (kind: String)
    ensures
        kind@ == "tcp"@,
{
    "tcp".to_owned()
}

/// The longest name that is kept whole, in characters.
pub const MAX_NAME_LEN: usize = 22;

/// The largest port there is.
pub const MAX_PORT: u32 = 65535;

/// The configuration file that is looked for when none is named.
pub const DEFAULT_PATH: &'static str = "tmonitor.toml";

// ----------------------------------------------------------------------- errors

/// Why a configuration is not accepted.
#[derive(Debug)]
pub enum ConfigError {
    Io(IoError),
    Parse(String),
    BadPath(String),
    EmptyHostname { index: usize, line: usize },
    DuplicateHostname {
        name: String,
        index: usize,
        first_index: usize,
        line: usize,
        first_line: usize,
    },
    InvalidPort { host: String, service: String, port: u32, line: usize },
    InvalidInterval(u64),
    TruncationCollision { name1: String, name2: String, line1: usize, line2: usize },
}

/// A `ConfigError` with its texts as characters.
pub enum ConfigProblem {
    Io(IoErrorKind, Seq<char>),
    Parse(Seq<char>),
    BadPath(Seq<char>),
    EmptyHostname { index: nat, line: nat },
    DuplicateHostname {
        name: Seq<char>,
        index: nat,
        first_index: nat,
        line: nat,
        first_line: nat,
    },
    InvalidPort { host: Seq<char>, service: Seq<char>, port: nat, line: nat },
    InvalidInterval(nat),
    TruncationCollision { name1: Seq<char>, name2: Seq<char>, line1: nat, line2: nat },
}

impl View for ConfigError {
    type V = ConfigProblem;

    open spec fn view(&self) -> ConfigProblem {
        match *self {
            ConfigError::Io(e) => ConfigProblem::Io(e.kind, e.message@),
            ConfigError::Parse(reason) => ConfigProblem::Parse(reason@),
            ConfigError::BadPath(path) => ConfigProblem::BadPath(path@),
            ConfigError::EmptyHostname { index, line } => ConfigProblem::EmptyHostname {
                index: index as nat,
                line: line as nat,
            },
            ConfigError::DuplicateHostname { name, index, first_index, line, first_line } =>
                ConfigProblem::DuplicateHostname {
                name: name@,
                index: index as nat,
                first_index: first_index as nat,
                line: line as nat,
                first_line: first_line as nat,
            },
            ConfigError::InvalidPort { host, service, port, line } => ConfigProblem::InvalidPort {
                host: host@,
                service: service@,
                port: port as nat,
                line: line as nat,
            },
            ConfigError::InvalidInterval(secs) => ConfigProblem::InvalidInterval(secs as nat),
            ConfigError::TruncationCollision { name1, name2, line1, line2 } =>
                ConfigProblem::TruncationCollision {
                name1: name1@,
                name2: name2@,
                line1: line1 as nat,
                line2: line2 as nat,
            },
        }
    }
}

impl ConfigProblem {
    /// The message of the error.
    pub open spec fn text(self) -> Seq<char> {
        match self {
            ConfigProblem::Io(_, reason) => "failed to read config file: "@ + reason,
            ConfigProblem::Parse(reason) => "failed to parse TOML config: "@ + reason,
            ConfigProblem::BadPath(path) => "config path is not a file: "@ + path,
            ConfigProblem::EmptyHostname { index, line } => "host at index "@ + decimal(index)
                + " has an empty name (line ~"@ + decimal(line) + ")"@,
            ConfigProblem::DuplicateHostname { name, index, first_index, line, first_line } =>
                "duplicate hostname '"@ + name + "' at index "@ + decimal(index) + " (line ~"@
                    + decimal(line) + "), first defined at index "@ + decimal(first_index)
                    + " (line ~"@ + decimal(first_line) + ")"@,
            ConfigProblem::InvalidPort { host, service, port, line } => "host '"@ + host
                + "' service '"@ + service + "' has invalid port "@ + decimal(port) + " (line ~"@
                + decimal(line) + ")"@,
            ConfigProblem::InvalidInterval(secs) => "interval_secs must be at least 1, got "@
                + decimal(secs),
            ConfigProblem::TruncationCollision { name1, name2, line1, line2 } => "hostnames '"@
                + name1 + "' and '"@ + name2
                + "' become identical after truncation to 22 characters (lines ~"@ + decimal(line1)
                + " and ~"@ + decimal(line2) + ")"@,
        }
    }
}

impl ConfigError {
    /// Writes the message of the error.
    pub fn message(&self) -> (message: String)
        ensures
            message@ == self@.text(),
            match *self {
                ConfigError::Io(e) => message@ == "failed to read config file: "@ + e.message@,
                ConfigError::Parse(reason) => message@ == "failed to parse TOML config: "@ + reason@,
                ConfigError::BadPath(path) => message@ == "config path is not a file: "@ + path@,
                ConfigError::EmptyHostname { index, line } => message@ == "host at index "@
                    + decimal(index as nat) + " has an empty name (line ~"@ + decimal(line as nat)
                    + ")"@,
                ConfigError::DuplicateHostname { name, index, first_index, line, first_line } =>
                    message@ == "duplicate hostname '"@ + name@ + "' at index "@ + decimal(
                        index as nat,
                    ) + " (line ~"@ + decimal(line as nat) + "), first defined at index "@
                        + decimal(first_index as nat) + " (line ~"@ + decimal(first_line as nat)
                        + ")"@,
                ConfigError::InvalidPort { host, service, port, line } => message@ == "host '"@
                    + host@ + "' service '"@ + service@ + "' has invalid port "@ + decimal(
                    port as nat,
                ) + " (line ~"@ + decimal(line as nat) + ")"@,
                ConfigError::InvalidInterval(secs) => message@
                    == "interval_secs must be at least 1, got "@ + decimal(secs as nat),
                ConfigError::TruncationCollision { name1, name2, line1, line2 } => message@
                    == "hostnames '"@ + name1@ + "' and '"@ + name2@
                    + "' become identical after truncation to 22 characters (lines ~"@ + decimal(
                    line1 as nat,
                ) + " and ~"@ + decimal(line2 as nat) + ")"@,
            },
    {
        match self {
            ConfigError::Io(e) => "failed to read config file: ".to_owned().concat(
                e.message.as_str(),
            ),
            ConfigError::Parse(reason) => "failed to parse TOML config: ".to_owned().concat(
                reason.as_str(),
            ),
            ConfigError::BadPath(path) => "config path is not a file: ".to_owned().concat(
                path.as_str(),
            ),
            ConfigError::EmptyHostname { index, line } => {
                let mut m: String = "host at index ".to_owned();
                push_decimal(&mut m, *index as u64);
                m.append(" has an empty name (line ~");
                push_decimal(&mut m, *line as u64);
                m.append(")");
                m
            },
            ConfigError::DuplicateHostname { name, index, first_index, line, first_line } => {
                let mut m: String = "duplicate hostname '".to_owned();
                m.append(name.as_str());
                m.append("' at index ");
                push_decimal(&mut m, *index as u64);
                m.append(" (line ~");
                push_decimal(&mut m, *line as u64);
                m.append("), first defined at index ");
                push_decimal(&mut m, *first_index as u64);
                m.append(" (line ~");
                push_decimal(&mut m, *first_line as u64);
                m.append(")");
                m
            },
            ConfigError::InvalidPort { host, service, port, line } => {
                let mut m: String = "host '".to_owned();
                m.append(host.as_str());
                m.append("' service '");
                m.append(service.as_str());
                m.append("' has invalid port ");
                push_decimal(&mut m, *port as u64);
                m.append(" (line ~");
                push_decimal(&mut m, *line as u64);
                m.append(")");
                m
            },
            ConfigError::InvalidInterval(secs) => {
                let mut m: String = "interval_secs must be at least 1, got ".to_owned();
                push_decimal(&mut m, *secs);
                m
            },
            ConfigError::TruncationCollision { name1, name2, line1, line2 } => {
                let mut m: String = "hostnames '".to_owned();
                m.append(name1.as_str());
                m.append("' and '");
                m.append(name2.as_str());
                m.append("' become identical after truncation to 22 characters (lines ~");
                push_decimal(&mut m, *line1 as u64);
                m.append(" and ~");
                push_decimal(&mut m, *line2 as u64);
                m.append(")");
                m
            },
        }
    }
}

// ------------------------------------------------------------------------ lines

/// How many of the first `k` bytes end a line.
pub open spec fn newlines(bytes: Seq<u8>, k: nat) -> nat
    decreases k,
{
    if k == 0 {
        0
    } else {
        newlines(bytes, (k - 1) as nat) + if bytes[k - 1] == 10 {
            1nat
        } else {
            0
        }
    }
}

/// The line that the byte at `offset` stands in, counted from one. An offset
/// past the end counts as the end.
pub open spec fn line_at(content: Seq<char>, offset: nat) -> nat {
    let bytes = encode_utf8(content);
    newlines(
        bytes,
        if offset < bytes.len() {
            offset
        } else {
            bytes.len()
        },
    ) + 1
}

/// How many of the characters end a line.
pub open spec fn line_breaks(chars: Seq<char>) -> nat
    decreases chars.len(),
{
    if chars.len() == 0 {
        0
    } else {
        line_breaks(chars.drop_first()) + if chars[0] == '\n' {
            1nat
        } else {
            0
        }
    }
}

/// Finds the line that a byte stands in.
pub fn byte_offset_to_line(content: &str, offset: usize) -> (line: usize)
    requires
        encode_utf8(content@).len() < usize::MAX,
    ensures
        line == line_at(content@, offset as nat),
{
    let bytes: &[u8] = content.as_bytes();
    let end: usize = if offset < bytes.len() {
        offset
    } else {
        bytes.len()
    };
    let mut k: usize = 0;
    let mut line: usize = 1;
    while k < end
        invariant
            end <= bytes@.len() < usize::MAX,
            k <= end,
            line == newlines(bytes@, k as nat) + 1,
            line <= k + 1,
        decreases end - k,
    {
        if bytes[k] == 10 {
            line = line + 1;
        }
        k = k + 1;
    }
    line
}

// ------------------------------------------------------------------- validation

/// The name of a host, as characters.
pub open spec fn name_of(host: HostConfig) -> Seq<char> {
    host.name.value()@
}

/// The names of hosts, in order.
pub open spec fn names_of(hosts: Seq<HostConfig>) -> Seq<Seq<char>> {
    hosts.map_values(|h: HostConfig| name_of(h))
}

/// Where the names of hosts start in the file, in order.
pub open spec fn starts_of(hosts: Seq<HostConfig>) -> Seq<nat> {
    hosts.map_values(|h: HostConfig| h.name.start())
}

/// The first place at or after `from` and before `until` that holds `name`.
pub open spec fn place_of(
    names: Seq<Seq<char>>,
    name: Seq<char>,
    from: nat,
    until: nat,
) -> Option<nat>
    decreases until - from,
{
    if from >= until {
        None
    } else if names[from as int] == name {
        Some(from)
    } else {
        place_of(names, name, from + 1, until)
    }
}

/// Whether a service may have this port.
pub open spec fn valid_port(port: nat) -> bool {
    1 <= port <= MAX_PORT
}

/// What is wrong with the ports of a host, from the service at `k` on.
pub open spec fn port_problem(host: HostConfig, k: nat, content: Seq<char>) -> Option<ConfigProblem>
    decreases host.services@.len() - k,
{
    if k >= host.services@.len() {
        None
    } else {
        let svc = host.services@[k as int];
        if !valid_port(svc.port.value() as nat) {
            Some(
                ConfigProblem::InvalidPort {
                    host: name_of(host),
                    service: svc.name@,
                    port: svc.port.value() as nat,
                    line: line_at(content, svc.port.start()),
                },
            )
        } else {
            port_problem(host, k + 1, content)
        }
    }
}

/// What is wrong with the host at `i`: an empty name, a name that an earlier
/// host has, or the first invalid port.
pub open spec fn host_problem(hosts: Seq<HostConfig>, i: nat, content: Seq<char>) -> Option<
    ConfigProblem,
> {
    let name = name_of(hosts[i as int]);
    let line = line_at(content, hosts[i as int].name.start());
    if is_blank(name) {
        Some(ConfigProblem::EmptyHostname { index: i, line })
    } else {
        match place_of(names_of(hosts), name, 0, i) {
            Some(first) => Some(
                ConfigProblem::DuplicateHostname {
                    name,
                    index: i,
                    first_index: first,
                    line,
                    first_line: line_at(content, hosts[first as int].name.start()),
                },
            ),
            None => port_problem(hosts[i as int], 0, content),
        }
    }
}

/// The first thing that is wrong with a host, from the host at `i` on.
pub open spec fn first_host_problem(hosts: Seq<HostConfig>, i: nat, content: Seq<char>) -> Option<
    ConfigProblem,
>
    decreases hosts.len() - i,
{
    if i >= hosts.len() {
        None
    } else {
        match host_problem(hosts, i, content) {
            Some(problem) => Some(problem),
            None => first_host_problem(hosts, i + 1, content),
        }
    }
}

/// The first two places, from `i` and `j` on, that hold one name.
pub open spec fn first_collision(
    names: Seq<Seq<char>>,
    starts: Seq<nat>,
    i: nat,
    j: nat,
    content: Seq<char>,
) -> Option<ConfigProblem>
    decreases names.len() - i, names.len() - j,
{
    if i >= names.len() {
        None
    } else if j >= names.len() {
        first_collision(names, starts, i + 1, i + 2, content)
    } else if names[i as int] == names[j as int] {
        Some(
            ConfigProblem::TruncationCollision {
                name1: names[i as int],
                name2: names[j as int],
                line1: line_at(content, starts[i as int]),
                line2: line_at(content, starts[j as int]),
            },
        )
    } else {
        first_collision(names, starts, i, j + 1, content)
    }
}

impl Config {
    /// The first thing that is wrong with a configuration as it was read from
    /// a file that holds `content`.
    pub open spec fn problem(self, content: Seq<char>) -> Option<ConfigProblem> {
        if self.interval_secs < 1 {
            Some(ConfigProblem::InvalidInterval(self.interval_secs as nat))
        } else if self.concurrency == 0 {
            Some(ConfigProblem::Io(IoErrorKind::InvalidInput, "concurrency must be greater than 0"@))
        } else {
            first_host_problem(self.hosts@, 0, content)
        }
    }

    /// Looks for a host before the one at `i` that has the same name.
    fn earlier_namesake(&self, i: usize) -> (place: Option<usize>)
        requires
            i < self.hosts@.len(),
        ensures
            match place {
                Some(first) => first < i && place_of(
                    names_of(self.hosts@),
                    name_of(self.hosts@[i as int]),
                    0,
                    i as nat,
                ) == Some(first as nat),
                None => place_of(names_of(self.hosts@), name_of(self.hosts@[i as int]), 0, i as nat)
                    is None,
            },
    {
        let ghost names = names_of(self.hosts@);
        let ghost name = name_of(self.hosts@[i as int]);
        let mut k: usize = 0;
        while k < i
            invariant
                k <= i < self.hosts@.len(),
                names == names_of(self.hosts@),
                name == name_of(self.hosts@[i as int]),
                place_of(names, name, 0, i as nat) == place_of(names, name, k as nat, i as nat),
            decreases i - k,
        {
            if same_text(self.hosts[k].name.get_ref(), self.hosts[i].name.get_ref()) {
                return Some(k);
            }
            k = k + 1;
        }
        None
    }

    /// Tells whether a configuration can be used as it was read, or what is the
    /// first thing wrong with it. `content` is what the file holds.
    pub fn validate(&self, content: &str) -> (verdict: Result<(), ConfigError>)
        requires
            encode_utf8(content@).len() < usize::MAX,
        ensures
            verdict is Ok == self.problem(content@) is None,
            verdict matches Err(e) ==> self.problem(content@) == Some(e@),
    {
        if self.interval_secs < 1 {
            return Err(ConfigError::InvalidInterval(self.interval_secs));
        }
        if self.concurrency == 0 {
            return Err(
                ConfigError::Io(
                    IoError {
                        kind: IoErrorKind::InvalidInput,
                        message: "concurrency must be greater than 0".to_owned(),
                    },
                ),
            );
        }
        let mut i: usize = 0;
        while i < self.hosts.len()
            invariant
                encode_utf8(content@).len() < usize::MAX,
                i <= self.hosts@.len(),
                self.problem(content@) == first_host_problem(self.hosts@, i as nat, content@),
            decreases self.hosts@.len() - i,
        {
            let host = &self.hosts[i];
            let line: usize = byte_offset_to_line(content, host.name.span().start);
            if blank(host.name.get_ref()) {
                return Err(ConfigError::EmptyHostname { index: i, line });
            }
            if let Some(first) = self.earlier_namesake(i) {
                return Err(
                    ConfigError::DuplicateHostname {
                        name: host.name.get_ref().clone(),
                        index: i,
                        first_index: first,
                        line,
                        first_line: byte_offset_to_line(content, self.hosts[first].name.span().start),
                    },
                );
            }
            let mut k: usize = 0;
            while k < host.services.len()
                invariant
                    encode_utf8(content@).len() < usize::MAX,
                    i < self.hosts@.len(),
                    *host == self.hosts@[i as int],
                    k <= host.services@.len(),
                    self.problem(content@) == first_host_problem(self.hosts@, i as nat, content@),
                    host_problem(self.hosts@, i as nat, content@) == port_problem(
                        *host,
                        k as nat,
                        content@,
                    ),
                decreases host.services@.len() - k,
            {
                let svc = &host.services[k];
                let port: u32 = *svc.port.get_ref();
                if port == 0 || port > MAX_PORT {
                    return Err(
                        ConfigError::InvalidPort {
                            host: host.name.get_ref().clone(),
                            service: svc.name.clone(),
                            port,
                            line: byte_offset_to_line(content, svc.port.span().start),
                        },
                    );
                }
                k = k + 1;
            }
            i = i + 1;
        }
        Ok(())
    }

    /// Tells whether any two hosts have the same name, and which come first.
    pub fn validate_truncation_collisions(&self, content: &str) -> (verdict: Result<
        (),
        ConfigError,
    >)
        requires
            encode_utf8(content@).len() < usize::MAX,
        ensures
            verdict is Ok == first_collision(
                names_of(self.hosts@),
                starts_of(self.hosts@),
                0,
                1,
                content@,
            ) is None,
            verdict matches Err(e) ==> first_collision(
                names_of(self.hosts@),
                starts_of(self.hosts@),
                0,
                1,
                content@,
            ) == Some(e@),
    {
        let ghost names = names_of(self.hosts@);
        let ghost starts = starts_of(self.hosts@);
        let len: usize = self.hosts.len();
        let mut i: usize = 0;
        while i < len
            invariant
                encode_utf8(content@).len() < usize::MAX,
                len == self.hosts@.len(),
                i <= len,
                names == names_of(self.hosts@),
                starts == starts_of(self.hosts@),
                first_collision(names, starts, 0, 1, content@) == first_collision(
                    names,
                    starts,
                    i as nat,
                    (i + 1) as nat,
                    content@,
                ),
            decreases len - i,
        {
            let mut j: usize = i + 1;
            while j < len
                invariant
                    encode_utf8(content@).len() < usize::MAX,
                    len == self.hosts@.len(),
                    i < j <= len,
                    names == names_of(self.hosts@),
                    starts == starts_of(self.hosts@),
                    first_collision(names, starts, 0, 1, content@) == first_collision(
                        names,
                        starts,
                        i as nat,
                        j as nat,
                        content@,
                    ),
                decreases len - j,
            {
                if same_text(self.hosts[i].name.get_ref(), self.hosts[j].name.get_ref()) {
                    return Err(
                        ConfigError::TruncationCollision {
                            name1: self.hosts[i].name.get_ref().clone(),
                            name2: self.hosts[j].name.get_ref().clone(),
                            line1: byte_offset_to_line(content, self.hosts[i].name.span().start),
                            line2: byte_offset_to_line(content, self.hosts[j].name.span().start),
                        },
                    );
                }
                j = j + 1;
            }
            i = i + 1;
        }
        Ok(())
    }
}

// ------------------------------------------------------------------- truncation

/// `name` as it is shown: a long one loses its end to an ellipsis.
pub open spec fn shown_name(name: Seq<char>) -> Seq<char> {
    shortened(name, MAX_NAME_LEN as nat, MAX_NAME_LEN as nat)
}

/// Whether `after` is `before` with its name as it is shown, and nothing else
/// changed.
pub open spec fn host_shown(before: HostConfig, after: HostConfig) -> bool {
    &&& name_of(after) == shown_name(name_of(before))
    &&& after.name.start() == before.name.start()
    &&& after.name.end() == before.name.end()
    &&& after.address == before.address
    &&& after.services == before.services
}

/// Whether `after` is `before` with the names of all hosts as they are shown.
pub open spec fn config_shown(before: Config, after: Config) -> bool {
    &&& after.interval_secs == before.interval_secs
    &&& after.concurrency == before.concurrency
    &&& after.hosts@.len() == before.hosts@.len()
    &&& forall|i: int|
        0 <= i < before.hosts@.len() ==> host_shown(
            #[trigger] before.hosts@[i],
            after.hosts@[i],
        )
}

/// Shortens the names of all hosts to what is shown of them.
pub fn truncate_hostnames(config: &mut Config)
    ensures
        config_shown(*old(config), *final(config)),
        final(config).interval_secs == old(config).interval_secs,
        final(config).concurrency == old(config).concurrency,
        final(config).hosts@.len() == old(config).hosts@.len(),
        forall|i: int|
            0 <= i < final(config).hosts@.len() ==> {
                let before = old(config).hosts@[i];
                let after = #[trigger] final(config).hosts@[i];
                &&& after.address == before.address && after.services == before.services
                &&& after.name.start() == before.name.start()
                &&& after.name.end() == before.name.end()
                &&& before.name.value()@.len() <= 22 ==> after.name.value()@
                    == before.name.value()@
                &&& before.name.value()@.len() > 22 ==> after.name.value()@
                    == before.name.value()@.subrange(0, 22).push('\u{2026}')
            },
{
    let len: usize = config.hosts.len();
    let mut i: usize = 0;
    while i < len
        invariant
            len == old(config).hosts@.len(),
            config.hosts@.len() == len,
            i <= len,
            config.interval_secs == old(config).interval_secs,
            config.concurrency == old(config).concurrency,
            forall|j: int|
                0 <= j < i ==> host_shown(#[trigger] old(config).hosts@[j], config.hosts@[j]),
            forall|j: int| i <= j < len ==> config.hosts@[j] == #[trigger] old(config).hosts@[j],
        decreases len - i,
    {
        let name: String = shorten(config.hosts[i].name.get_ref(), MAX_NAME_LEN, MAX_NAME_LEN);
        config.hosts[i].name.value = name;
        i = i + 1;
    }
    proof {
        assert forall|j: int| 0 <= j < len implies host_shown(
            old(config).hosts@[j],
            #[trigger] config.hosts@[j],
        ) by {
            assert(host_shown(old(config).hosts@[j], config.hosts@[j]));
        }
    }
}

// ---------------------------------------------------------------------- loading

/// The names of hosts as they are shown, in order.
pub open spec fn shown_names(hosts: Seq<HostConfig>) -> Seq<Seq<char>> {
    names_of(hosts).map_values(|name: Seq<char>| shown_name(name))
}

/// Whether `config` is the one that is used where there is no file: this
/// machine, pinged.
pub open spec fn is_default_config(config: Config) -> bool {
    &&& config.interval_secs == 60
    &&& config.concurrency == 10
    &&& config.hosts@.len() == 1
    &&& name_of(config.hosts@[0]) == "localhost"@
    &&& config.hosts@[0].name.start() == 0
    &&& config.hosts@[0].name.end() == 0
    &&& config.hosts@[0].address@ == "127.0.0.1"@
    &&& config.hosts@[0].services@.len() == 0
}

/// What has become known while the configuration is loaded.
pub enum LoadEvent {
    /// Loading begins, from the named file or from wherever there is one.
    Begin(Option<String>),
    /// A path was looked at.
    Probed { path: String, required: bool, exists: bool, is_file: bool },
    /// A file was read.
    Read(Result<String, IoError>),
    /// What a file holds was parsed.
    Parsed { content: String, parsed: Result<Config, String> },
}

/// What is to be done next while the configuration is loaded.
pub enum LoadStep {
    Probe { path: String, required: bool },
    Read(String),
    Parse(String),
    Done(Result<Config, ConfigError>),
}

impl Config {
    /// The first thing for which a configuration read from a file that holds
    /// `content` is refused: as it was read, or once its names are shortened.
    pub open spec fn refusal(self, content: Seq<char>) -> Option<ConfigProblem> {
        match self.problem(content) {
            Some(problem) => Some(problem),
            None => first_collision(
                shown_names(self.hosts@),
                starts_of(self.hosts@),
                0,
                1,
                content,
            ),
        }
    }

    /// The configuration that is used where there is no file.
    pub fn default_config() -> (config: Config)
        ensures
            is_default_config(config),
            config.interval_secs == 60 && config.concurrency == 10 && config.hosts@.len() == 1,
            config.hosts@[0].name.value()@ == "localhost"@,
            config.hosts@[0].address@ == "127.0.0.1"@,
            config.hosts@[0].services@.len() == 0,
    {
        let mut hosts: Vec<HostConfig> = Vec::new();
        hosts.push(
            HostConfig {
                name: Spanned::new(0..0, "localhost".to_owned()),
                address: "127.0.0.1".to_owned(),
                services: Vec::new(),
            },
        );
        Config { interval_secs: default_interval(), concurrency: default_concurrency(), hosts }
    }

    /// Accepts a configuration that was read from a file that holds `content`,
    /// with its names shortened to what is shown of them, or refuses it.
    pub fn accept(self, content: &str) -> (accepted: Result<Config, ConfigError>)
        requires
            encode_utf8(content@).len() < usize::MAX,
        ensures
            accepted is Ok == self.refusal(content@) is None,
            accepted matches Err(e) ==> self.refusal(content@) == Some(e@),
            accepted matches Ok(config) ==> config_shown(self, config),
    {
        let mut config = self;
        match config.validate(content) {
            Err(e) => return Err(e),
            Ok(_) => {},
        }
        truncate_hostnames(&mut config);
        proof {
            assert(names_of(config.hosts@) =~= shown_names(self.hosts@)) by {
                assert forall|i: int| 0 <= i < self.hosts@.len() implies #[trigger] name_of(
                    config.hosts@[i],
                ) == shown_name(name_of(self.hosts@[i])) by {
                    assert(host_shown(self.hosts@[i], config.hosts@[i]));
                }
            }
            assert(starts_of(config.hosts@) =~= starts_of(self.hosts@)) by {
                assert forall|i: int| 0 <= i < self.hosts@.len() implies
                    #[trigger] config.hosts@[i].name.start() == self.hosts@[i].name.start() by {
                    assert(host_shown(self.hosts@[i], config.hosts@[i]));
                }
            }
        }
        match config.validate_truncation_collisions(content) {
            Err(e) => Err(e),
            Ok(_) => Ok(config),
        }
    }

    /// Takes the loading of the configuration one step further. A file that is
    /// named must be there; where none is named the default one is used if it
    /// is there, and the default configuration if not.
    pub fn load(event: LoadEvent) -> (step: LoadStep)
        requires
            event matches LoadEvent::Parsed { content, .. } ==> encode_utf8(content@).len()
                < usize::MAX,
        ensures
            match event {
                LoadEvent::Begin(Some(named)) => step == (LoadStep::Probe {
                    path: named,
                    required: true,
                }),
                LoadEvent::Begin(None) => step matches LoadStep::Probe { path, required } && path@
                    == DEFAULT_PATH@ && !required,
                LoadEvent::Probed { path, required, exists, is_file } => if !exists {
                    if required {
                        step matches LoadStep::Done(Err(e)) && e@ == ConfigProblem::Io(
                            IoErrorKind::NotFound,
                            "config file not found: "@ + path@,
                        )
                    } else {
                        step matches LoadStep::Done(Ok(config)) && is_default_config(config)
                    }
                } else if !is_file {
                    step == LoadStep::Done(Err(ConfigError::BadPath(path)))
                } else {
                    step == LoadStep::Read(path)
                },
                LoadEvent::Read(Ok(content)) => step == LoadStep::Parse(content),
                LoadEvent::Read(Err(e)) => step == LoadStep::Done(Err(ConfigError::Io(e))),
                LoadEvent::Parsed { content, parsed: Err(reason) } => step == LoadStep::Done(
                    Err(ConfigError::Parse(reason)),
                ),
                LoadEvent::Parsed { content, parsed: Ok(read) } => match read.refusal(content@) {
                    Some(problem) => step matches LoadStep::Done(Err(e)) && e@ == problem,
                    None => step matches LoadStep::Done(Ok(config)) && config_shown(read, config),
                },
            },
    {
        match event {
            LoadEvent::Begin(Some(path)) => LoadStep::Probe { path, required: true },
            LoadEvent::Begin(None) => LoadStep::Probe {
                path: DEFAULT_PATH.to_owned(),
                required: false,
            },
            LoadEvent::Probed { path, required, exists, is_file } => {
                if !exists {
                    if required {
                        LoadStep::Done(
                            Err(
                                ConfigError::Io(
                                    IoError {
                                        kind: IoErrorKind::NotFound,
                                        message: "config file not found: ".to_owned().concat(
                                            path.as_str(),
                                        ),
                                    },
                                ),
                            ),
                        )
                    } else {
                        LoadStep::Done(Ok(Config::default_config()))
                    }
                } else if !is_file {
                    LoadStep::Done(Err(ConfigError::BadPath(path)))
                } else {
                    LoadStep::Read(path)
                }
            },
            LoadEvent::Read(Ok(content)) => LoadStep::Parse(content),
            LoadEvent::Read(Err(e)) => LoadStep::Done(Err(ConfigError::Io(e))),
            LoadEvent::Parsed { content: _, parsed: Err(reason) } => LoadStep::Done(
                Err(ConfigError::Parse(reason)),
            ),
            LoadEvent::Parsed { content, parsed: Ok(read) } => LoadStep::Done(
                read.accept(content.as_str()),
            ),
        }
    }
}

// ------------------------------------------------------------------------- laws

/// Whether no two of the names are the same.
pub open spec fn all_distinct(names: Seq<Seq<char>>) -> bool {
    forall|i: int, j: int| 0 <= i < j < names.len() ==> #[trigger] names[i] != #[trigger] names[j]
}

impl Config {
    /// Whether a configuration can be used as it was read: checks are made at
    /// least a second apart and at least one at a time, every host has a name
    /// of its own, and every service has a port.
    pub open spec fn usable(self) -> bool {
        &&& self.interval_secs >= 1
        &&& self.concurrency >= 1
        &&& forall|i: int|
            0 <= i < self.hosts@.len() ==> !is_blank(name_of(#[trigger] self.hosts@[i]))
        &&& all_distinct(names_of(self.hosts@))
        &&& forall|i: int, k: int|
            0 <= i < self.hosts@.len() && 0 <= k < self.hosts@[i].services@.len() ==> valid_port(
                (#[trigger] self.hosts@[i].services@[k]).port.value() as nat,
            )
    }
}

proof fn place_of_none(names: Seq<Seq<char>>, name: Seq<char>, from: nat, until: nat)
    requires
        until <= names.len(),
    ensures
        place_of(names, name, from, until) is None <==> forall|j: int|
            from <= j < until ==> #[trigger] names[j] != name,
    decreases until - from,
{
    if from < until && names[from as int] != name {
        place_of_none(names, name, from + 1, until);
    }
}

proof fn port_problem_none(host: HostConfig, k: nat, content: Seq<char>)
    ensures
        port_problem(host, k, content) is None <==> forall|j: int|
            k <= j < host.services@.len() ==> valid_port(
                (#[trigger] host.services@[j]).port.value() as nat,
            ),
    decreases host.services@.len() - k,
{
    if k < host.services@.len() && valid_port(host.services@[k as int].port.value() as nat) {
        port_problem_none(host, k + 1, content);
    }
}

/// Whether the host at `i` has a name that no earlier host has, and valid
/// ports.
spec fn host_usable(hosts: Seq<HostConfig>, i: int) -> bool {
    &&& !is_blank(name_of(hosts[i]))
    &&& forall|j: int| 0 <= j < i ==> #[trigger] names_of(hosts)[j] != name_of(hosts[i])
    &&& forall|k: int|
        0 <= k < hosts[i].services@.len() ==> valid_port(
            (#[trigger] hosts[i].services@[k]).port.value() as nat,
        )
}

proof fn first_host_problem_none(hosts: Seq<HostConfig>, i: nat, content: Seq<char>)
    ensures
        first_host_problem(hosts, i, content) is None <==> forall|m: int|
            i <= m < hosts.len() ==> #[trigger] host_usable(hosts, m),
    decreases hosts.len() - i,
{
    if i < hosts.len() {
        first_host_problem_none(hosts, i + 1, content);
        place_of_none(names_of(hosts), name_of(hosts[i as int]), 0, i);
        port_problem_none(hosts[i as int], 0, content);
        assert(host_problem(hosts, i, content) is None <==> host_usable(hosts, i as int));
    }
}

/// A configuration is found to have nothing wrong with it exactly when it can
/// be used as it was read, whatever else the file holds.
pub proof fn valid_exactly_when_usable(config: Config, content: Seq<char>)
    ensures
        config.problem(content) is None <==> config.usable(),
{
    let hosts = config.hosts@;
    first_host_problem_none(hosts, 0, content);
    if config.usable() {
        assert forall|m: int| 0 <= m < hosts.len() implies #[trigger] host_usable(hosts, m) by {
            assert(!is_blank(name_of(hosts[m])));
            assert(names_of(hosts)[m] == name_of(hosts[m]));
        }
    }
    if forall|m: int| 0 <= m < hosts.len() ==> #[trigger] host_usable(hosts, m) {
        assert forall|i: int| 0 <= i < hosts.len() implies !is_blank(
            name_of(#[trigger] hosts[i]),
        ) by {
            assert(host_usable(hosts, i));
        }
        assert forall|i: int, j: int| 0 <= i < j < hosts.len() implies #[trigger] names_of(hosts)[i]
            != #[trigger] names_of(hosts)[j] by {
            assert(host_usable(hosts, j));
        }
        assert forall|i: int, k: int|
            0 <= i < hosts.len() && 0 <= k < hosts[i].services@.len() implies valid_port(
            (#[trigger] hosts[i].services@[k]).port.value() as nat,
        ) by {
            assert(host_usable(hosts, i));
        }
    }
}

proof fn first_collision_none(
    names: Seq<Seq<char>>,
    starts: Seq<nat>,
    i: nat,
    j: nat,
    content: Seq<char>,
)
    requires
        i < j,
    ensures
        first_collision(names, starts, i, j, content) is None <==> {
            &&& forall|b: int| j <= b < names.len() ==> names[i as int] != #[trigger] names[b]
            &&& forall|a: int, b: int|
                i < a < b < names.len() ==> #[trigger] names[a] != #[trigger] names[b]
        },
    decreases names.len() - i, names.len() - j,
{
    if i < names.len() {
        if j >= names.len() {
            first_collision_none(names, starts, i + 1, i + 2, content);
        } else if names[i as int] != names[j as int] {
            first_collision_none(names, starts, i, j + 1, content);
        }
    }
}

/// A configuration is accepted exactly when it can be used as it was read and
/// its hosts can still be told apart once their names are shortened.
pub proof fn accepted_exactly_when_distinguishable(config: Config, content: Seq<char>)
    ensures
        config.refusal(content) is None <==> config.usable() && all_distinct(
            shown_names(config.hosts@),
        ),
{
    valid_exactly_when_usable(config, content);
    let names = shown_names(config.hosts@);
    first_collision_none(names, starts_of(config.hosts@), 0, 1, content);
}

/// A name as it is shown has at most one character more than one that is kept
/// whole, and shortening it again changes nothing; it is blank only if the name is.
pub proof fn shown_name_is_short(name: Seq<char>)
    ensures
        !is_blank(name) ==> !is_blank(shown_name(name)),
        shown_name(name).len() <= MAX_NAME_LEN + 1,
        shown_name(shown_name(name)) == shown_name(name),
{
    if name.len() > MAX_NAME_LEN {
        let short = shown_name(name);
        assert(!is_white_space(short[MAX_NAME_LEN as int]));
        assert(short.subrange(0, MAX_NAME_LEN as int) =~= name.subrange(0, MAX_NAME_LEN as int));
    }
}

/// What is accepted is usable: a configuration whose names were shortened and
/// that was not refused satisfies all that was asked of it when it was read.
pub proof fn accepted_is_usable(read: Config, accepted: Config, content: Seq<char>)
    requires
        read.refusal(content) is None,
        config_shown(read, accepted),
    ensures
        accepted.usable(),
        forall|i: int|
            0 <= i < accepted.hosts@.len() ==> name_of(#[trigger] accepted.hosts@[i]).len()
                <= MAX_NAME_LEN + 1,
{
    accepted_exactly_when_distinguishable(read, content);
    let before = read.hosts@;
    let after = accepted.hosts@;
    assert forall|i: int| 0 <= i < after.len() implies {
        &&& !is_blank(name_of(#[trigger] after[i]))
        &&& name_of(after[i]).len() <= MAX_NAME_LEN + 1
        &&& name_of(after[i]) == shown_names(before)[i]
        &&& after[i].services == before[i].services
    } by {
        assert(host_shown(before[i], after[i]));
        shown_name_is_short(name_of(before[i]));
    }
    assert forall|i: int, j: int| 0 <= i < j < after.len() implies #[trigger] names_of(after)[i]
        != #[trigger] names_of(after)[j] by {
        assert(name_of(after[i]) == shown_names(before)[i]);
        assert(name_of(after[j]) == shown_names(before)[j]);
    }
    assert forall|i: int, k: int|
        0 <= i < after.len() && 0 <= k < after[i].services@.len() implies valid_port(
        (#[trigger] after[i].services@[k]).port.value() as nat,
    ) by {
        assert(!is_blank(name_of(after[i])));
        assert(after[i].services@[k] == before[i].services@[k]);
    }
}

/// The default configuration is usable, and no name in it is shortened.
pub proof fn default_config_is_usable(config: Config)
    requires
        is_default_config(config),
    ensures
        config.usable(),
        shown_names(config.hosts@) == names_of(config.hosts@),
{
    reveal_strlit("localhost");
    let name = name_of(config.hosts@[0]);
    assert(!is_white_space(name[0]));
    assert(shown_names(config.hosts@) =~= names_of(config.hosts@));
}

// -- lines

proof fn newlines_of_prefix(a: Seq<u8>, b: Seq<u8>, k: nat)
    requires
        k <= a.len(),
    ensures
        newlines(a + b, k) == newlines(a, k),
    decreases k,
{
    if k > 0 {
        newlines_of_prefix(a, b, (k - 1) as nat);
        assert((a + b)[k - 1] == a[k - 1]);
    }
}

proof fn newlines_of_concat(a: Seq<u8>, b: Seq<u8>, k: nat)
    requires
        k <= b.len(),
    ensures
        newlines(a + b, a.len() + k) == newlines(a, a.len()) + newlines(b, k),
    decreases k,
{
    if k == 0 {
        newlines_of_prefix(a, b, a.len());
    } else {
        newlines_of_concat(a, b, (k - 1) as nat);
        assert((a + b)[a.len() + k - 1] == b[k - 1]);
    }
}

/// A character ends a line exactly when one byte of it does.
proof fn newlines_of_char(c: char)
    ensures
        newlines(encode_scalar(c as u32), encode_scalar(c as u32).len()) == if c == '\n' {
            1nat
        } else {
            0
        },
{
    let v = c as u32;
    let bytes = encode_scalar(v);
    reveal_with_fuel(newlines, 5);
    assert(v <= 0x7F ==> (v & 0x7F) as u8 == v) by (bit_vector);
    assert(0xC0u8 | ((v >> 6) & 0x1F) as u8 >= 0x80) by (bit_vector);
    assert(0xE0u8 | ((v >> 12) & 0x0F) as u8 >= 0x80) by (bit_vector);
    assert(0xF0u8 | ((v >> 18) & 0x7) as u8 >= 0x80) by (bit_vector);
    assert(0x80u8 | (v & 0x3F) as u8 >= 0x80) by (bit_vector);
    assert(0x80u8 | ((v >> 6) & 0x3F) as u8 >= 0x80) by (bit_vector);
    assert(0x80u8 | ((v >> 12) & 0x3F) as u8 >= 0x80) by (bit_vector);
}

proof fn newlines_of_text(chars: Seq<char>)
    ensures
        newlines(encode_utf8(chars), encode_utf8(chars).len()) == line_breaks(chars),
    decreases chars.len(),
{
    if chars.len() > 0 {
        let head = encode_scalar(chars[0] as u32);
        let tail = encode_utf8(chars.drop_first());
        newlines_of_char(chars[0]);
        newlines_of_text(chars.drop_first());
        newlines_of_concat(head, tail, tail.len());
    }
}

proof fn encode_concat(a: Seq<char>, b: Seq<char>)
    ensures
        encode_utf8(a + b) == encode_utf8(a) + encode_utf8(b),
    decreases a.len(),
{
    if a.len() == 0 {
        assert(a + b =~= b);
        assert(encode_utf8(a) + encode_utf8(b) =~= encode_utf8(b));
    } else {
        assert((a + b).drop_first() =~= a.drop_first() + b);
        encode_concat(a.drop_first(), b);
        assert(encode_utf8(a + b) =~= encode_utf8(a) + encode_utf8(b));
    }
}

/// The line of the character at `i` is one more than the line breaks before it,
/// whatever bytes the characters before it are written with.
pub proof fn line_counts_breaks_before(content: Seq<char>, i: int)
    requires
        0 <= i <= content.len(),
    ensures
        line_at(content, encode_utf8(content.subrange(0, i)).len()) == line_breaks(
            content.subrange(0, i),
        ) + 1,
{
    let before = content.subrange(0, i);
    let after = content.subrange(i, content.len() as int);
    assert(content =~= before + after);
    encode_concat(before, after);
    newlines_of_text(before);
    newlines_of_prefix(encode_utf8(before), encode_utf8(after), encode_utf8(before).len());
}

// -- lines, character by character

/// Lines are counted from one, a character behind a line break stands one line
/// further down than the break, and any other on the line of the one before it.
/// What lies past the end stands on the last line.
pub proof fn lines_are_counted_by_breaks(content: Seq<char>, i: int, beyond: nat)
    requires
        0 <= i < content.len(),
        encode_utf8(content).len() <= beyond,
    ensures
        line_at(content, 0) == 1,
        line_at(content, encode_utf8(content.subrange(0, i + 1)).len()) == line_at(
            content,
            encode_utf8(content.subrange(0, i)).len(),
        ) + if content[i] == '\n' {
            1int
        } else {
            0
        },
        line_at(content, beyond) == line_at(content, encode_utf8(content).len()),
{
    line_counts_breaks_before(content, i);
    line_counts_breaks_before(content, i + 1);
    let before = content.subrange(0, i);
    let more = content.subrange(0, i + 1);
    assert(more =~= before.push(content[i]));
    line_breaks_push(before, content[i]);
}

proof fn line_breaks_push(chars: Seq<char>, c: char)
    ensures
        line_breaks(chars.push(c)) == line_breaks(chars) + if c == '\n' {
            1nat
        } else {
            0
        },
    decreases chars.len(),
{
    if chars.len() == 0 {
        assert(chars.push(c).drop_first() =~= chars);
    } else {
        line_breaks_push(chars.drop_first(), c);
        assert(chars.push(c).drop_first() =~= chars.drop_first().push(c));
    }
}

// -- what is wrong

/// A service may have any port from 1 to 65535.
pub proof fn ports_have_sixteen_bits(port: nat)
    ensures
        valid_port(port) <==> 0 < port < 65536,
{
}

proof fn usable_in_full(config: Config)
    requires
        config.usable(),
    ensures
        config.interval_secs > 0,
        config.concurrency > 0,
        forall|i: int|
            0 <= i < config.hosts@.len() ==> (#[trigger] config.hosts@[i]).name.value()@.len() > 0 && exists|c: int|
                0 <= c < config.hosts@[i].name.value()@.len() && !is_white_space(
                    #[trigger] config.hosts@[i].name.value()@[c],
                ),
        forall|i: int, j: int|
            0 <= i < j < config.hosts@.len() ==> (#[trigger] config.hosts@[i]).name.value()@
                != (#[trigger] config.hosts@[j]).name.value()@,
        forall|i: int, k: int|
            0 <= i < config.hosts@.len() && 0 <= k < config.hosts@[i].services@.len() ==> 0 < (
            #[trigger] config.hosts@[i].services@[k]).port.value() < 65536,
{
    let hosts = config.hosts@;
    assert forall|i: int| 0 <= i < hosts.len() implies (
    #[trigger] hosts[i]).name.value()@.len() > 0 && exists|c: int|
        0 <= c < hosts[i].name.value()@.len() && !is_white_space(
            #[trigger] hosts[i].name.value()@[c],
        ) by {
        assert(!is_blank(name_of(hosts[i])));
        let name = name_of(hosts[i]);
        let c = choose|c: int| 0 <= c < name.len() && !is_white_space(#[trigger] name[c]);
        assert(!is_white_space(hosts[i].name.value()@[c]));
    }
    assert forall|i: int, j: int| 0 <= i < j < hosts.len() implies (
    #[trigger] hosts[i]).name.value()@ != (#[trigger] hosts[j]).name.value()@ by {
        assert(names_of(hosts)[i] == name_of(hosts[i]));
        assert(names_of(hosts)[j] == name_of(hosts[j]));
    }
}

proof fn usable_from_parts(config: Config)
    requires
        config.interval_secs > 0,
        config.concurrency > 0,
        forall|i: int|
            0 <= i < config.hosts@.len() ==> (#[trigger] config.hosts@[i]).name.value()@.len() > 0 && exists|c: int|
                0 <= c < config.hosts@[i].name.value()@.len() && !is_white_space(
                    #[trigger] config.hosts@[i].name.value()@[c],
                ),
        forall|i: int, j: int|
            0 <= i < j < config.hosts@.len() ==> (#[trigger] config.hosts@[i]).name.value()@
                != (#[trigger] config.hosts@[j]).name.value()@,
        forall|i: int, k: int|
            0 <= i < config.hosts@.len() && 0 <= k < config.hosts@[i].services@.len() ==> 0 < (
            #[trigger] config.hosts@[i].services@[k]).port.value() < 65536,
    ensures
        config.usable(),
{
    let hosts = config.hosts@;
    assert forall|i: int| 0 <= i < hosts.len() implies !is_blank(name_of(#[trigger] hosts[i])) by {
        let c = choose|c: int|
            0 <= c < hosts[i].name.value()@.len() && !is_white_space(
                #[trigger] hosts[i].name.value()@[c],
            );
        assert(!is_white_space(name_of(hosts[i])[c]));
    }
    assert forall|i: int, j: int| 0 <= i < j < hosts.len() implies #[trigger] names_of(hosts)[i]
        != #[trigger] names_of(hosts)[j] by {
        assert(hosts[i].name.value()@ != hosts[j].name.value()@);
    }
}

/// A configuration has nothing wrong with it exactly when checks are made at least a
/// second apart and at least one at a time, every name shows something, no two
/// hosts have one name, and every port is one from 1 to 65535.
pub proof fn nothing_is_wrong_exactly_when(config: Config, content: Seq<char>)
    ensures
        config.problem(content) is None <==> {
            &&& config.interval_secs > 0
            &&& config.concurrency > 0
            &&& forall|i: int|
                0 <= i < config.hosts@.len() ==> (#[trigger] config.hosts@[i]).name.value()@.len() > 0 && exists|c: int|
                    0 <= c < config.hosts@[i].name.value()@.len() && !is_white_space(
                        #[trigger] config.hosts@[i].name.value()@[c],
                    )
            &&& forall|i: int, j: int|
                0 <= i < j < config.hosts@.len() ==> (#[trigger] config.hosts@[i]).name.value()@
                    != (#[trigger] config.hosts@[j]).name.value()@
            &&& forall|i: int, k: int|
                0 <= i < config.hosts@.len() && 0 <= k < config.hosts@[i].services@.len() ==> 0 < (
                #[trigger] config.hosts@[i].services@[k]).port.value() < 65536
        },
{
    valid_exactly_when_usable(config, content);
    if config.usable() {
        usable_in_full(config);
    } else {
        if {
            &&& config.interval_secs > 0
            &&& config.concurrency > 0
            &&& forall|i: int|
                0 <= i < config.hosts@.len() ==> (#[trigger] config.hosts@[i]).name.value()@.len() > 0 && exists|c: int|
                    0 <= c < config.hosts@[i].name.value()@.len() && !is_white_space(
                        #[trigger] config.hosts@[i].name.value()@[c],
                    )
            &&& forall|i: int, j: int|
                0 <= i < j < config.hosts@.len() ==> (#[trigger] config.hosts@[i]).name.value()@
                    != (#[trigger] config.hosts@[j]).name.value()@
            &&& forall|i: int, k: int|
                0 <= i < config.hosts@.len() && 0 <= k < config.hosts@[i].services@.len() ==> 0 < (
                #[trigger] config.hosts@[i].services@[k]).port.value() < 65536
        } {
            usable_from_parts(config);
        }
    }
}

/// The interval is looked at first, then how many probes run at once, then the hosts.
pub proof fn numbers_are_looked_at_first(config: Config, content: Seq<char>)
    ensures
        config.interval_secs == 0 ==> config.problem(content) == Some(
            ConfigProblem::InvalidInterval(0),
        ),
        config.interval_secs > 0 && config.concurrency == 0 ==> config.problem(content) == Some(
            ConfigProblem::Io(IoErrorKind::InvalidInput, "concurrency must be greater than 0"@),
        ),
        config.interval_secs > 0 && config.concurrency > 0 ==> (config.problem(content) matches Some(
            problem,
        ) ==> problem is EmptyHostname || problem is DuplicateHostname || problem is InvalidPort),
{
    if config.interval_secs > 0 && config.concurrency > 0 {
        problem_is_of_a_host(config.hosts@, 0, content);
    }
}

proof fn problem_is_of_a_host(hosts: Seq<HostConfig>, from: nat, content: Seq<char>) -> (i: nat)
    ensures
        first_host_problem(hosts, from, content) is Some ==> {
            &&& from <= i < hosts.len()
            &&& first_host_problem(hosts, from, content) == host_problem(hosts, i, content)
            &&& forall|m: int| from <= m < i ==> #[trigger] host_usable(hosts, m)
        },
        first_host_problem(hosts, from, content) matches Some(p) ==> p is EmptyHostname
            || p is DuplicateHostname || p is InvalidPort,
    decreases hosts.len() - from,
{
    if from >= hosts.len() {
        from
    } else {
        place_of_none(names_of(hosts), name_of(hosts[from as int]), 0, from);
        port_problem_none(hosts[from as int], 0, content);
        port_problem_place(hosts[from as int], 0, content);
        if host_problem(hosts, from, content) is Some {
            from
        } else {
            let i = problem_is_of_a_host(hosts, from + 1, content);
            assert(host_usable(hosts, from as int));
            i
        }
    }
}

proof fn port_problem_place(host: HostConfig, from: nat, content: Seq<char>) -> (k: nat)
    ensures
        port_problem(host, from, content) is Some ==> {
            let svc = host.services@[k as int];
            &&& from <= k < host.services@.len()
            &&& !valid_port(svc.port.value() as nat)
            &&& forall|j: int|
                from <= j < k ==> valid_port((#[trigger] host.services@[j]).port.value() as nat)
            &&& port_problem(host, from, content) == Some(
                ConfigProblem::InvalidPort {
                    host: name_of(host),
                    service: svc.name@,
                    port: svc.port.value() as nat,
                    line: line_at(content, svc.port.start()),
                },
            )
        },
    decreases host.services@.len() - from,
{
    if from < host.services@.len() && valid_port(host.services@[from as int].port.value() as nat) {
        port_problem_place(host, from + 1, content)
    } else {
        from
    }
}

proof fn place_of_some(names: Seq<Seq<char>>, name: Seq<char>, from: nat, until: nat)
    requires
        until <= names.len(),
    ensures
        place_of(names, name, from, until) matches Some(first) ==> from <= first < until
            && names[first as int] == name && forall|j: int|
            from <= j < first ==> #[trigger] names[j] != name,
    decreases until - from,
{
    if from < until && names[from as int] != name {
        place_of_some(names, name, from + 1, until);
    }
}

/// The first host with something wrong is told, and of it the first thing that is: a
/// name that shows nothing, then a name that an earlier host has, then a port.
/// Every host before it has a name that shows something, that no host before has,
/// and ports from 1 to 65535. What is told is where it stands.
pub proof fn first_problem_is_told(config: Config, content: Seq<char>)
    requires
        config.interval_secs > 0,
        config.concurrency > 0,
    ensures
        config.problem(content) matches Some(problem) ==> exists|i: int|
            {
                let name = (#[trigger] config.hosts@[i]).name.value()@;
                let line = line_at(content, config.hosts@[i].name.start());
                &&& 0 <= i < config.hosts@.len()
                // Nothing is wrong with the hosts before.
                &&& forall|m: int|
                    0 <= m < i ==> !is_blank((#[trigger] config.hosts@[m]).name.value()@)
                &&& forall|j: int, m: int|
                    0 <= j < m < i ==> (#[trigger] config.hosts@[j]).name.value()@ != (
                    #[trigger] config.hosts@[m]).name.value()@
                &&& forall|m: int, k: int|
                    0 <= m < i && 0 <= k < config.hosts@[m].services@.len() ==> 0 < (
                    #[trigger] config.hosts@[m].services@[k]).port.value() < 65536
                // And this is wrong with the one at this place.
                &&& match problem {
                    ConfigProblem::EmptyHostname { index, line: at } => index == i && at == line
                        && is_blank(name),
                    ConfigProblem::DuplicateHostname {
                        name: told_name,
                        index,
                        first_index,
                        line: at,
                        first_line,
                    } => {
                        &&& index == i && at == line && told_name == name && !is_blank(name)
                        &&& first_index < i
                        &&& config.hosts@[first_index as int].name.value()@ == name
                        &&& forall|j: int|
                            0 <= j < first_index ==> (#[trigger] config.hosts@[j]).name.value()@ != name
                        &&& first_line == line_at(content, config.hosts@[first_index as int].name.start())
                    },
                    ConfigProblem::InvalidPort { host: told_name, service, port, line: at } => {
                        &&& told_name == name && !is_blank(name)
                        &&& forall|j: int| 0 <= j < i ==> (#[trigger] config.hosts@[j]).name.value()@ != name
                        &&& exists|k: int|
                            {
                                let svc = #[trigger] config.hosts@[i].services@[k];
                                &&& 0 <= k < config.hosts@[i].services@.len()
                                &&& service == svc.name@ && port == svc.port.value()
                                &&& port == 0 || port > 65535
                                &&& at == line_at(content, svc.port.start())
                                &&& forall|m: int|
                                    0 <= m < k ==> 0 < (
                                    #[trigger] config.hosts@[i].services@[m]).port.value() < 65536
                            }
                    },
                    _ => false,
                }
            },
{
    if config.problem(content) is Some {
        let hosts = config.hosts@;
        let names = names_of(hosts);
        let n = problem_is_of_a_host(hosts, 0, content);
        let i = n as int;
        let name = name_of(hosts[i]);
        place_of_some(names, name, 0, n);
        place_of_none(names, name, 0, n);
        let k = port_problem_place(hosts[i], 0, content);
        assert forall|m: int| 0 <= m < i implies !is_blank((#[trigger] hosts[m]).name.value()@) by {
            assert(host_usable(hosts, m));
        }
        assert forall|j: int, m: int| 0 <= j < m < i implies (#[trigger] hosts[j]).name.value()@ != (
        #[trigger] hosts[m]).name.value()@ by {
            assert(host_usable(hosts, m));
            assert(names[j] == name_of(hosts[j]));
        }
        assert forall|m: int, q: int|
            0 <= m < i && 0 <= q < hosts[m].services@.len() implies 0 < (
        #[trigger] hosts[m].services@[q]).port.value() < 65536 by {
            assert(host_usable(hosts, m));
        }
        if place_of(names, name, 0, n) is None {
            assert forall|j: int| 0 <= j < i implies (#[trigger] hosts[j]).name.value()@ != name by {
                assert(names[j] == name_of(hosts[j]));
            }
        } else {
            let first = place_of(names, name, 0, n)->Some_0;
            assert(names[first as int] == name_of(hosts[first as int]));
            assert forall|j: int| 0 <= j < first implies (#[trigger] hosts[j]).name.value()@ != name by {
                assert(names[j] == name_of(hosts[j]));
            }
        }
        assert(hosts[i].name.value()@ == name);
    }
}

proof fn collision_place(
    names: Seq<Seq<char>>,
    starts: Seq<nat>,
    i: nat,
    j: nat,
    content: Seq<char>,
) -> (place: (int, int))
    requires
        i < j,
        starts.len() == names.len(),
    ensures
        first_collision(names, starts, i, j, content) is Some ==> {
            let (a, b) = place;
            &&& i <= a < b < names.len()
            &&& a == i ==> j <= b
            &&& names[a] == names[b]
            &&& first_collision(names, starts, i, j, content) == Some(
                ConfigProblem::TruncationCollision {
                    name1: names[a],
                    name2: names[b],
                    line1: line_at(content, starts[a]),
                    line2: line_at(content, starts[b]),
                },
            )
            &&& forall|y: int|
                j <= y < names.len() && (i < a || y < b) ==> names[i as int] != #[trigger] names[y]
            &&& forall|x: int, y: int|
                i < x < y < names.len() && (x < a || (x == a && y < b)) ==> #[trigger] names[x]
                    != #[trigger] names[y]
        },
    decreases names.len() - i, names.len() - j,
{
    if i >= names.len() {
        (0, 0)
    } else if j >= names.len() {
        collision_place(names, starts, i + 1, i + 2, content)
    } else if names[i as int] == names[j as int] {
        (i as int, j as int)
    } else {
        collision_place(names, starts, i, j + 1, content)
    }
}

/// Of names that become one when they are shortened to twenty-two characters the
/// first two are told, with the lines on which they stand: no two names before them
/// do. Nothing of this is told of a configuration that has something wrong with it
/// as it was read.
pub proof fn first_collision_is_told(config: Config, content: Seq<char>)
    ensures
        config.problem(content) is Some ==> config.refusal(content) == config.problem(content),
        config.problem(content) is None ==> (config.refusal(content) matches Some(problem)
            ==> exists|a: int, b: int|
            {
                let (x, y) = (
                    cut((#[trigger] config.hosts@[a]).name.value()@),
                    cut((#[trigger] config.hosts@[b]).name.value()@),
                );
                &&& 0 <= a < b < config.hosts@.len()
                &&& x == y
                &&& problem == (ConfigProblem::TruncationCollision {
                    name1: x,
                    name2: y,
                    line1: line_at(content, config.hosts@[a].name.start()),
                    line2: line_at(content, config.hosts@[b].name.start()),
                })
                &&& forall|i: int, j: int|
                    0 <= i < j < config.hosts@.len() && (i < a || (i == a && j < b)) ==> cut(
                        (#[trigger] config.hosts@[i]).name.value()@,
                    ) != cut((#[trigger] config.hosts@[j]).name.value()@)
            }),
        config.problem(content) is None ==> (config.refusal(content) is None <==> forall|
            i: int,
            j: int,
        |
            0 <= i < j < config.hosts@.len() ==> cut(
                (#[trigger] config.hosts@[i]).name.value()@,
            ) != cut((#[trigger] config.hosts@[j]).name.value()@)),
{
    let hosts = config.hosts@;
    let names = shown_names(hosts);
    let starts = starts_of(hosts);
    assert forall|i: int| 0 <= i < hosts.len() implies #[trigger] names[i] == cut(
        hosts[i].name.value()@,
    ) by {
        cut_is_shown(hosts[i].name.value()@);
    }
    if config.problem(content) is None {
        first_collision_none(names, starts, 0, 1, content);
        let (a, b) = collision_place(names, starts, 0, 1, content);
        if config.refusal(content) is Some {
            assert(names[a] == cut(hosts[a].name.value()@));
            assert(names[b] == cut(hosts[b].name.value()@));
            assert forall|i: int, j: int|
                0 <= i < j < hosts.len() && (i < a || (i == a && j < b)) implies cut(
                (#[trigger] hosts[i]).name.value()@,
            ) != cut((#[trigger] hosts[j]).name.value()@) by {
                assert(names[i] != names[j]);
            }
        } else {
            assert forall|i: int, j: int| 0 <= i < j < hosts.len() implies cut(
                (#[trigger] hosts[i]).name.value()@,
            ) != cut((#[trigger] hosts[j]).name.value()@) by {
                assert(names[i] != names[j]);
            }
        }
    }
}

/// A name cut to twenty-two characters, with an ellipsis behind it where it was longer.
pub open spec fn cut(name: Seq<char>) -> Seq<char> {
    if name.len() > 22 {
        name.subrange(0, 22) + seq!['\u{2026}']
    } else {
        name
    }
}

proof fn cut_is_shown(name: Seq<char>)
    ensures
        cut(name) == shown_name(name),
{
    assert(cut(name) =~= shown_name(name));
}

/// A name of up to twenty-two characters is shown whole, and of a longer one the
/// first twenty-two, with an ellipsis behind them.
pub proof fn names_show_twenty_two_characters(name: Seq<char>)
    ensures
        name.len() <= 22 ==> shown_name(name) == name,
        name.len() > 22 ==> {
            &&& shown_name(name).len() == 23
            &&& shown_name(name)[22] == '\u{2026}'
            &&& forall|i: int| 0 <= i < 22 ==> #[trigger] shown_name(name)[i] == name[i]
        },
{
}

/// What is accepted is what was read with its names cut short: nothing else of it
/// changes.
pub proof fn only_names_are_cut(read: Config, accepted: Config)
    ensures
        config_shown(read, accepted) <==> {
            &&& accepted.interval_secs == read.interval_secs
            &&& accepted.concurrency == read.concurrency
            &&& accepted.hosts@.len() == read.hosts@.len()
            &&& forall|i: int|
                0 <= i < read.hosts@.len() ==> {
                    let before = #[trigger] read.hosts@[i];
                    let after = accepted.hosts@[i];
                    &&& after.name.value()@ == cut(before.name.value()@)
                    &&& after.name.start() == before.name.start()
                    &&& after.name.end() == before.name.end()
                    &&& after.address == before.address
                    &&& after.services == before.services
                }
        },
{
    assert forall|i: int| 0 <= i < read.hosts@.len() implies cut(
        (#[trigger] read.hosts@[i]).name.value()@,
    ) == shown_name(name_of(read.hosts@[i])) by {
        cut_is_shown(read.hosts@[i].name.value()@);
    }
}

/// Where there is no file, this machine alone is pinged, every sixty seconds.
pub proof fn default_is_this_machine(config: Config)
    requires
        is_default_config(config),
    ensures
        config.interval_secs == 60,
        config.concurrency == 10,
        config.hosts@.len() == 1,
        config.hosts@[0].name.value()@ == "localhost"@,
        config.hosts@[0].address@ == "127.0.0.1"@,
        config.hosts@[0].services@.len() == 0,
{
}

/// An error tells what it holds, in its own kind.
pub proof fn errors_tell_what_they_hold(e: ConfigError)
    ensures
        match e {
            ConfigError::Io(io) => e@ == ConfigProblem::Io(io.kind, io.message@),
            ConfigError::Parse(reason) => e@ == ConfigProblem::Parse(reason@),
            ConfigError::BadPath(path) => e@ == ConfigProblem::BadPath(path@),
            ConfigError::EmptyHostname { index, line } => e@ == (ConfigProblem::EmptyHostname {
                index: index as nat,
                line: line as nat,
            }),
            ConfigError::DuplicateHostname { name, index, first_index, line, first_line } => e@ == (
            ConfigProblem::DuplicateHostname {
                name: name@,
                index: index as nat,
                first_index: first_index as nat,
                line: line as nat,
                first_line: first_line as nat,
            }),
            ConfigError::InvalidPort { host, service, port, line } => e@ == (
            ConfigProblem::InvalidPort {
                host: host@,
                service: service@,
                port: port as nat,
                line: line as nat,
            }),
            ConfigError::InvalidInterval(secs) => e@ == ConfigProblem::InvalidInterval(
                secs as nat,
            ),
            ConfigError::TruncationCollision { name1, name2, line1, line2 } => e@ == (
            ConfigProblem::TruncationCollision {
                name1: name1@,
                name2: name2@,
                line1: line1 as nat,
                line2: line2 as nat,
            }),
        },
{
}

/// Hosts are read by their names and places, one after the other.
pub proof fn hosts_are_read_in_order(hosts: Seq<HostConfig>, i: int)
    requires
        0 <= i < hosts.len(),
    ensures
        names_of(hosts).len() == hosts.len(),
        names_of(hosts)[i] == hosts[i].name.value()@,
        starts_of(hosts).len() == hosts.len(),
        starts_of(hosts)[i] == hosts[i].name.start(),
        name_of(hosts[i]) == hosts[i].name.value()@,
{
}

}
