//! The monitoring engine: which probes a cycle makes, and what their results do
//! to the state of the cells.

use crate::cells::{copy_keys, ids, ids_push, keys_with, CellId, CellTable};
pub use crate::cells::CellKey;
use crate::check::{
    build_http_client, client_options, initial_permits, is_check_client, CheckError, CheckResult,
    ConcurrencyError, ConcurrencyGuard,
};
use crate::clock::{
    duration_nanos, instant_nanos, nanos_between, read_at_some_time, NANOS_PER_SEC,
};
use crate::config::{all_distinct, name_of, names_of, valid_port, Config, HostConfig, ServiceConfig};
use crate::text::{decimal, push_decimal, same_text};
use std::time::{Duration, Instant};
use tokio::sync::Semaphore;
use vstd::prelude::*;
use vstd::string::*;

verus! {

// ------------------------------------------------------------------- host state

/// What is known of a cell: its status, and since when it has that status.
#[derive(Debug)]
pub struct HostState {
    pub status: CheckResult,
    pub up_since: Option<Instant>,
    pub down_since: Option<Instant>,
}

impl Clone for HostState {
    fn clone(&self) -> (copy: Self)
        ensures
            copy == *self,
    {
        HostState { status: self.status, up_since: self.up_since, down_since: self.down_since }
    }
}

impl Default for HostState {
    fn default() -> (state: Self)
        ensures
            state.is_initial(),
    {
        HostState::new()
    }
}

/// The time from `since` to `now`, in nanoseconds; none where there is no
/// beginning.
pub open spec fn nanos_since(since: Option<Instant>, now: Instant) -> nat {
    match since {
        Some(t) => nanos_between(now, t),
        None => 0,
    }
}

fn passed_since(since: Option<Instant>, now: Instant) -> (passed: Duration)
    ensures
        duration_nanos(passed) == nanos_since(since, now),
{
    match since {
        Some(t) => now.saturating_duration_since(t),
        None => Duration::from_secs(0),
    }
}

impl HostState {
    /// Whether exactly one counter runs: that of the status.
    pub open spec fn wf(self) -> bool {
        match self.status {
            CheckResult::Up => self.up_since is Some && self.down_since is None,
            CheckResult::Down => self.up_since is None && self.down_since is Some,
        }
    }

    /// Whether this is the state of a cell that was not checked yet: up, and
    /// counting from a time that the clock has shown.
    pub open spec fn is_initial(self) -> bool {
        &&& self.status == CheckResult::Up
        &&& self.up_since matches Some(since) && read_at_some_time(since)
        &&& self.down_since is None
    }

    /// The state after a check at `now`. A result that is no news changes
    /// nothing; another one starts its own counter and ends the other.
    pub open spec fn observed(self, result: CheckResult, now: Instant) -> HostState {
        if result == self.status {
            self
        } else {
            match result {
                CheckResult::Up => HostState {
                    status: CheckResult::Up,
                    up_since: Some(now),
                    down_since: None,
                },
                CheckResult::Down => HostState {
                    status: CheckResult::Down,
                    up_since: None,
                    down_since: Some(now),
                },
            }
        }
    }

    /// How long the cell has had its status at `now`, in nanoseconds.
    pub open spec fn status_nanos(self, now: Instant) -> nat {
        match self.status {
            CheckResult::Up => nanos_since(self.up_since, now),
            CheckResult::Down => nanos_since(self.down_since, now),
        }
    }

    /// The state of a cell that is checked from now on.
    pub fn new() -> (state: Self)
        ensures
            state.is_initial(),
            state.status == CheckResult::Up && state.up_since is Some && state.down_since is None,
    {
        HostState { status: CheckResult::Up, up_since: Some(Instant::now()), down_since: None }
    }

    /// How long the cell has been up at `now`.
    pub fn uptime_at(&self, now: Instant) -> (uptime: Duration)
        ensures
            duration_nanos(uptime) == nanos_since(self.up_since, now),
    {
        passed_since(self.up_since, now)
    }

    /// How long the cell has been down at `now`.
    pub fn downtime_at(&self, now: Instant) -> (downtime: Duration)
        ensures
            duration_nanos(downtime) == nanos_since(self.down_since, now),
    {
        passed_since(self.down_since, now)
    }

    /// How long the cell has been up, by the clock.
    pub fn uptime_duration(&self) -> (uptime: Duration)
        ensures
            exists|now: Instant|
                read_at_some_time(now) && duration_nanos(uptime) == #[trigger] nanos_since(
                    self.up_since,
                    now,
                ),
    {
        self.uptime_at(Instant::now())
    }

    /// How long the cell has been down, by the clock.
    pub fn downtime_duration(&self) -> (downtime: Duration)
        ensures
            exists|now: Instant|
                read_at_some_time(now) && duration_nanos(downtime) == #[trigger] nanos_since(
                    self.down_since,
                    now,
                ),
    {
        self.downtime_at(Instant::now())
    }

    /// How long the cell has had its status at `now`.
    pub fn status_duration(&self, now: Instant) -> (duration: Duration)
        ensures
            duration_nanos(duration) == self.status_nanos(now),
    {
        match self.status {
            CheckResult::Up => self.uptime_at(now),
            CheckResult::Down => self.downtime_at(now),
        }
    }

    /// Takes in the result of a check at `now`.
    pub fn observe(&mut self, result: CheckResult, now: Instant)
        ensures
            *final(self) == old(self).observed(result, now),
            final(self).status == result,
            result == old(self).status ==> *final(self) == *old(self),
            result != old(self).status && result == CheckResult::Up ==> final(self).up_since
                == Some(now) && final(self).down_since is None,
            result != old(self).status && result == CheckResult::Down ==> final(self).down_since
                == Some(now) && final(self).up_since is None,
    {
        if result != self.status {
            self.status = result;
            match result {
                CheckResult::Up => {
                    self.down_since = None;
                    self.up_since = Some(now);
                },
                CheckResult::Down => {
                    self.up_since = None;
                    self.down_since = Some(now);
                },
            }
        }
    }
}

/// Whatever is observed, exactly one counter keeps running, that of the last
/// result, and the other one is gone.
pub proof fn one_counter_runs(state: HostState, result: CheckResult, now: Instant)
    requires
        state.wf(),
    ensures
        state.observed(result, now).wf(),
        state.observed(result, now).status == result,
{
}

/// A counter starts when the status changes and not before: a result that is no
/// news keeps the beginning, and observing a result twice is observing it once.
pub proof fn counter_starts_on_change(
    state: HostState,
    result: CheckResult,
    now: Instant,
    later: Instant,
)
    ensures
        result == state.status ==> state.observed(result, now) == state,
        result != state.status && result == CheckResult::Up ==> state.observed(result, now).up_since
            == Some(now),
        result != state.status && result == CheckResult::Down ==> state.observed(
            result,
            now,
        ).down_since == Some(now),
        state.observed(result, now).observed(result, later) == state.observed(result, now),
{
}

/// The counter of a change starts from zero: at the time of the change it stands at
/// nothing, and at any later time at what has passed since.
pub proof fn counter_starts_from_zero(
    state: HostState,
    result: CheckResult,
    now: Instant,
    later: Instant,
)
    requires
        result != state.status,
    ensures
        state.observed(result, now).status_nanos(now) == 0,
        instant_nanos(now) <= instant_nanos(later) ==> state.observed(result, now).status_nanos(
            later,
        ) == instant_nanos(later) - instant_nanos(now),
{
}

/// Since when a cell has had its status.
pub open spec fn status_since(state: HostState) -> Option<Instant> {
    match state.status {
        CheckResult::Up => state.up_since,
        CheckResult::Down => state.down_since,
    }
}

/// The counter counts up: it never stands lower at a later time, and once it has
/// started it grows by what passes. The other counter stands at nothing.
pub proof fn counter_counts_up(state: HostState, now: Instant, later: Instant)
    requires
        state.wf(),
        instant_nanos(now) <= instant_nanos(later),
    ensures
        state.status_nanos(now) <= state.status_nanos(later),
        status_since(state) matches Some(since) && (instant_nanos(since) <= instant_nanos(now)
            ==> state.status_nanos(later) - state.status_nanos(now) == instant_nanos(later)
            - instant_nanos(now)),
        state.status == CheckResult::Up ==> nanos_since(state.down_since, now) == 0,
        state.status == CheckResult::Down ==> nanos_since(state.up_since, now) == 0,
{
}

// ----------------------------------------------------------------------- errors

/// Why there is no engine.
#[derive(Debug)]
pub enum EngineError {
    Concurrency(ConcurrencyError),
    Check(CheckError),
}

impl From<ConcurrencyError> for EngineError {
    fn from(e: ConcurrencyError) -> (error: Self) {
        EngineError::Concurrency(e)
    }
}

impl vstd::std_specs::convert::FromSpecImpl<ConcurrencyError> for EngineError {
    open spec fn obeys_from_spec() -> bool {
        true
    }

    open spec fn from_spec(e: ConcurrencyError) -> Self {
        EngineError::Concurrency(e)
    }
}

impl From<CheckError> for EngineError {
    fn from(e: CheckError) -> (error: Self) {
        EngineError::Check(e)
    }
}

impl vstd::std_specs::convert::FromSpecImpl<CheckError> for EngineError {
    open spec fn obeys_from_spec() -> bool {
        true
    }

    open spec fn from_spec(e: CheckError) -> Self {
        EngineError::Check(e)
    }
}

impl EngineError {
    /// The message of the error.
    pub open spec fn text(self) -> Seq<char> {
        match self {
            EngineError::Concurrency(e) => "concurrency error: "@ + e.text(),
            EngineError::Check(e) => "check error: "@ + e.text(),
        }
    }

    /// Writes the message of the error.
    pub fn message(&self) -> (message: String)
        ensures
            message@ == self.text(),
            match *self {
                EngineError::Concurrency(e) => message@ == "concurrency error: "@ + e.text(),
                EngineError::Check(e) => message@ == "check error: "@ + e.text(),
            },
    {
        match self {
            EngineError::Concurrency(e) => "concurrency error: ".to_owned().concat(
                e.message().as_str(),
            ),
            EngineError::Check(e) => "check error: ".to_owned().concat(e.message().as_str()),
        }
    }
}

// ------------------------------------------------------------------------- cells

/// The key of a host.
pub open spec fn host_id(host: HostConfig) -> CellId {
    CellId::Host(name_of(host))
}

/// The key of a service of a host.
pub open spec fn service_id(host: HostConfig, svc: ServiceConfig) -> CellId {
    CellId::Service { host: name_of(host), service: svc.name@ }
}

/// The cells of a host: the host, then its services as they are listed.
pub open spec fn host_cells(host: HostConfig) -> Seq<CellId> {
    seq![host_id(host)] + Seq::new(
        host.services@.len(),
        |k: int| service_id(host, host.services@[k]),
    )
}

/// The cells of all hosts, as they are listed.
pub open spec fn cells_of(hosts: Seq<HostConfig>) -> Seq<CellId>
    decreases hosts.len(),
{
    if hosts.len() == 0 {
        seq![]
    } else {
        cells_of(hosts.drop_last()) + host_cells(hosts.last())
    }
}

/// How many services all hosts have together.
pub open spec fn service_total(hosts: Seq<HostConfig>) -> nat
    decreases hosts.len(),
{
    if hosts.len() == 0 {
        0
    } else {
        service_total(hosts.drop_last()) + hosts.last().services@.len()
    }
}

proof fn cells_count(hosts: Seq<HostConfig>)
    ensures
        cells_of(hosts).len() == hosts.len() + service_total(hosts),
    decreases hosts.len(),
{
    if hosts.len() > 0 {
        cells_count(hosts.drop_last());
    }
}

/// Makes the key of a host.
fn host_key(host: &HostConfig) -> (key: CellKey)
    ensures
        key@ == host_id(*host),
{
    CellKey::Host(host.name.get_ref().clone())
}

/// Makes the key of a service.
fn service_key(host: &HostConfig, svc: &ServiceConfig) -> (key: CellKey)
    ensures
        key@ == service_id(*host, *svc),
{
    CellKey::Service { host: host.name.get_ref().clone(), service: svc.name.clone() }
}

/// Lists the keys of all cells: each host, followed by its services.
pub fn list_cells(hosts: &Vec<HostConfig>) -> (order: Vec<CellKey>)
    ensures
        ids(order@) == cells_of(hosts@),
{
    let mut order: Vec<CellKey> = Vec::new();
    let mut i: usize = 0;
    assert(ids(order@) =~= cells_of(hosts@.take(0)));
    while i < hosts.len()
        invariant
            i <= hosts@.len(),
            ids(order@) == cells_of(hosts@.take(i as int)),
        decreases hosts@.len() - i,
    {
        let host = &hosts[i];
        let ghost before = ids(order@);
        order.push(host_key(host));
        let mut k: usize = 0;
        assert(ids(order@) =~= before + host_cells(*host).take(1));
        while k < host.services.len()
            invariant
                k <= host.services@.len(),
                ids(order@) == before + host_cells(*host).take(k + 1),
            decreases host.services@.len() - k,
        {
            let ghost sofar = order@;
            order.push(service_key(host, &host.services[k]));
            proof {
                ids_push(sofar, order@.last());
                assert(before + host_cells(*host).take(k + 2) =~= (before + host_cells(*host).take(
                    k + 1,
                )).push(service_id(*host, host.services@[k as int])));
            }
            k = k + 1;
        }
        assert(host_cells(*host).take(k + 1) =~= host_cells(*host));
        assert(hosts@.take(i + 1).drop_last() =~= hosts@.take(i as int));
        i = i + 1;
    }
    assert(hosts@.take(i as int) =~= hosts@);
    order
}

// ------------------------------------------------------------------------ probes

/// How long a check of a service may take, in seconds.
pub const SERVICE_TIMEOUT_SECS: u64 = 5;

/// A probe, with all that it needs.
#[derive(Debug)]
pub enum Probe {
    Ping { address: String },
    Port { address: String, port: u16, timeout: Duration },
    Http {
        address: String,
        port: u16,
        path: String,
        use_tls: bool,
        expected_status: Option<u16>,
        timeout: Duration,
    },
}

/// A `Probe` with its texts as characters and its time in nanoseconds.
pub enum ProbeKind {
    Ping { address: Seq<char> },
    Port { address: Seq<char>, port: nat, timeout: nat },
    Http {
        address: Seq<char>,
        port: nat,
        path: Seq<char>,
        use_tls: bool,
        expected_status: Option<u16>,
        timeout: nat,
    },
}

impl View for Probe {
    type V = ProbeKind;

    open spec fn view(&self) -> ProbeKind {
        match *self {
            Probe::Ping { address } => ProbeKind::Ping { address: address@ },
            Probe::Port { address, port, timeout } => ProbeKind::Port {
                address: address@,
                port: port as nat,
                timeout: duration_nanos(timeout),
            },
            Probe::Http { address, port, path, use_tls, expected_status, timeout } =>
                ProbeKind::Http {
                address: address@,
                port: port as nat,
                path: path@,
                use_tls,
                expected_status,
                timeout: duration_nanos(timeout),
            },
        }
    }
}

/// A probe of a cycle, and the cell whose state it tells.
#[derive(Debug)]
pub struct Job {
    pub key: CellKey,
    pub probe: Probe,
}

/// The jobs as they stand in a list.
pub open spec fn job_views(jobs: Seq<Job>) -> Seq<(CellId, ProbeKind)> {
    jobs.map_values(|job: Job| (job.key@, job.probe@))
}

/// The path that an HTTP check asks for: the root, where none is given.
pub open spec fn probe_path(path: Option<String>) -> Seq<char> {
    match path {
        Some(p) => if p@.len() > 0 {
            p@
        } else {
            "/"@
        },
        None => "/"@,
    }
}

/// How a service is probed: by HTTP or HTTPS where its type says so, and by a
/// connection to its port otherwise.
pub open spec fn service_probe(host: HostConfig, svc: ServiceConfig) -> ProbeKind {
    let port = (svc.port.value() % 65536) as nat;
    let timeout = (SERVICE_TIMEOUT_SECS * NANOS_PER_SEC) as nat;
    if svc.service_type@ == "http"@ || svc.service_type@ == "https"@ {
        ProbeKind::Http {
            address: host.address@,
            port,
            path: probe_path(svc.path),
            use_tls: svc.service_type@ == "https"@,
            expected_status: svc.expected_status,
            timeout,
        }
    } else {
        ProbeKind::Port { address: host.address@, port, timeout }
    }
}

/// The jobs of a host: a ping, then a probe of each service as it is listed.
pub open spec fn host_jobs(host: HostConfig) -> Seq<(CellId, ProbeKind)> {
    seq![(host_id(host), ProbeKind::Ping { address: host.address@ })] + Seq::new(
        host.services@.len(),
        |k: int| (service_id(host, host.services@[k]), service_probe(host, host.services@[k])),
    )
}

/// The jobs of a cycle: those of all hosts, as they are listed.
pub open spec fn jobs_of(hosts: Seq<HostConfig>) -> Seq<(CellId, ProbeKind)>
    decreases hosts.len(),
{
    if hosts.len() == 0 {
        seq![]
    } else {
        jobs_of(hosts.drop_last()) + host_jobs(hosts.last())
    }
}

/// A cycle probes every cell once, in the order of the cells.
pub proof fn every_cell_is_probed(hosts: Seq<HostConfig>)
    ensures
        jobs_of(hosts).map_values(|job: (CellId, ProbeKind)| job.0) == cells_of(hosts),
    decreases hosts.len(),
{
    let key = |job: (CellId, ProbeKind)| job.0;
    if hosts.len() == 0 {
        assert(jobs_of(hosts).map_values(key) =~= cells_of(hosts));
    } else {
        every_cell_is_probed(hosts.drop_last());
        assert(host_jobs(hosts.last()).map_values(key) =~= host_cells(hosts.last()));
        assert(jobs_of(hosts).map_values(key) =~= jobs_of(hosts.drop_last()).map_values(key)
            + host_jobs(hosts.last()).map_values(key));
    }
}

proof fn job_views_push(jobs: Seq<Job>, job: Job)
    ensures
        job_views(jobs.push(job)) == job_views(jobs).push((job.key@, job.probe@)),
{
    assert(job_views(jobs.push(job)) =~= job_views(jobs).push((job.key@, job.probe@)));
}

/// Makes up the probe of a service.
pub fn plan_service(host: &HostConfig, svc: &ServiceConfig) -> (probe: Probe)
    ensures
        probe@ == service_probe(*host, *svc),
        match probe {
            Probe::Ping { .. } => false,
            Probe::Port { address, port, timeout } => {
                &&& svc.service_type@ != "http"@ && svc.service_type@ != "https"@
                &&& address@ == host.address@ && port == svc.port.value() % 65536
                &&& duration_nanos(timeout) == 5_000_000_000
            },
            Probe::Http { address, port, path, use_tls, expected_status, timeout } => {
                &&& svc.service_type@ == if use_tls {
                    "https"@
                } else {
                    "http"@
                }
                &&& address@ == host.address@ && port == svc.port.value() % 65536
                &&& expected_status == svc.expected_status
                &&& duration_nanos(timeout) == 5_000_000_000
                &&& path@.len() > 0
                &&& svc.path is Some && svc.path->Some_0@.len() > 0 ==> path@ == svc.path->Some_0@
                &&& svc.path is None || svc.path->Some_0@.len() == 0 ==> path@ == "/"@
            },
        },
{
    proof {
        reveal_strlit("/");
        reveal_strlit("http");
        reveal_strlit("https");
        assert("http"@.len() != "https"@.len());
    }
    let given: u32 = *svc.port.get_ref();
    let port: u16 = (given % 65536) as u16;
    let timeout = Duration::from_secs(SERVICE_TIMEOUT_SECS);
    let use_tls: bool = same_text(svc.service_type.as_str(), "https");
    if use_tls || same_text(svc.service_type.as_str(), "http") {
        let path: String = match &svc.path {
            Some(p) => if p.as_str().is_empty() {
                "/".to_owned()
            } else {
                p.clone()
            },
            None => "/".to_owned(),
        };
        Probe::Http {
            address: host.address.clone(),
            port,
            path,
            use_tls,
            expected_status: svc.expected_status,
            timeout,
        }
    } else {
        Probe::Port { address: host.address.clone(), port, timeout }
    }
}

/// Plans the probes of a cycle: for each host a ping, and a probe of each of its
/// services.
pub fn plan_jobs(hosts: &Vec<HostConfig>) -> (jobs: Vec<Job>)
    ensures
        job_views(jobs@) == jobs_of(hosts@),
{
    let mut jobs: Vec<Job> = Vec::new();
    let mut i: usize = 0;
    assert(job_views(jobs@) =~= jobs_of(hosts@.take(0)));
    while i < hosts.len()
        invariant
            i <= hosts@.len(),
            job_views(jobs@) == jobs_of(hosts@.take(i as int)),
        decreases hosts@.len() - i,
    {
        let host = &hosts[i];
        let ghost before = job_views(jobs@);
        let ghost all = host_jobs(*host);
        let ghost sofar = jobs@;
        jobs.push(
            Job { key: host_key(host), probe: Probe::Ping { address: host.address.clone() } },
        );
        proof {
            job_views_push(sofar, jobs@.last());
            assert(before + all.take(1) =~= before.push(all[0]));
        }
        let mut k: usize = 0;
        while k < host.services.len()
            invariant
                k <= host.services@.len(),
                all == host_jobs(*host),
                job_views(jobs@) == before + all.take(k + 1),
            decreases host.services@.len() - k,
        {
            let svc = &host.services[k];
            let ghost sofar = jobs@;
            jobs.push(Job { key: service_key(host, svc), probe: plan_service(host, svc) });
            proof {
                job_views_push(sofar, jobs@.last());
                assert(before + all.take(k + 2) =~= (before + all.take(k + 1)).push(all[k + 1]));
            }
            k = k + 1;
        }
        assert(all.take(k + 1) =~= all);
        assert(hosts@.take(i + 1).drop_last() =~= hosts@.take(i as int));
        i = i + 1;
    }
    assert(hosts@.take(i as int) =~= hosts@);
    jobs
}

/// A service is never pinged, and a port that a configuration may have is probed
/// as it was configured.
pub proof fn valid_port_is_probed(host: HostConfig, svc: ServiceConfig)
    requires
        valid_port(svc.port.value() as nat),
    ensures
        match service_probe(host, svc) {
            ProbeKind::Ping { .. } => false,
            ProbeKind::Port { port, .. } => port == svc.port.value(),
            ProbeKind::Http { port, .. } => port == svc.port.value(),
        },
{
}

// ------------------------------------------------------------------------ cycles

/// How a job of a cycle ended.
#[derive(Debug)]
pub enum JobOutcome {
    /// The probe was made, or could not be.
    Checked(Result<CheckResult, CheckError>),
    /// There was no permit to make it.
    NoPermit,
    /// The task that made it did not come to its end.
    Lost,
}

/// What a job tells of its cell: whatever goes wrong, the cell is down.
pub open spec fn settled(outcome: JobOutcome) -> CheckResult {
    match outcome {
        JobOutcome::Checked(Ok(result)) => result,
        _ => CheckResult::Down,
    }
}

/// Settles what a job tells of its cell.
pub fn settle(outcome: &JobOutcome) -> (result: CheckResult)
    ensures
        result == settled(*outcome),
        match *outcome {
            JobOutcome::Checked(Ok(found)) => result == found,
            JobOutcome::Checked(Err(_)) => result == CheckResult::Down,
            JobOutcome::NoPermit => result == CheckResult::Down,
            JobOutcome::Lost => result == CheckResult::Down,
        },
{
    match outcome {
        JobOutcome::Checked(Ok(result)) => *result,
        JobOutcome::Checked(Err(_)) => CheckResult::Down,
        JobOutcome::NoPermit => CheckResult::Down,
        JobOutcome::Lost => CheckResult::Down,
    }
}

/// The results of a cycle by cell: where a cell was probed twice, the last one.
pub open spec fn collected(cells: Seq<CellId>, outcomes: Seq<JobOutcome>) -> Map<
    CellId,
    CheckResult,
>
    recommends
        cells.len() == outcomes.len(),
    decreases cells.len(),
{
    if cells.len() == 0 {
        Map::empty()
    } else {
        collected(cells.drop_last(), outcomes.drop_last()).insert(
            cells.last(),
            settled(outcomes.last()),
        )
    }
}

proof fn collected_cells(cells: Seq<CellId>, outcomes: Seq<JobOutcome>)
    requires
        cells.len() == outcomes.len(),
    ensures
        forall|id: CellId| #[trigger]
            collected(cells, outcomes).contains_key(id) <==> cells.contains(id),
    decreases cells.len(),
{
    if cells.len() > 0 {
        collected_cells(cells.drop_last(), outcomes.drop_last());
        assert forall|id: CellId| #[trigger] collected(cells, outcomes).contains_key(id)
            <==> cells.contains(id) by {
            let sofar = collected(cells.drop_last(), outcomes.drop_last());
            assert(sofar.contains_key(id) <==> cells.drop_last().contains(id));
            if cells.drop_last().contains(id) {
                let j = choose|j: int| 0 <= j < cells.drop_last().len() && cells.drop_last()[j] == id;
                assert(cells[j] == id);
            }
            if cells.contains(id) && id != cells.last() {
                let j = choose|j: int| 0 <= j < cells.len() && cells[j] == id;
                assert(cells.drop_last()[j] == id);
            }
            assert(cells.contains(cells.last())) by {
                assert(cells[cells.len() - 1] == cells.last());
            }
        }
    }
}

/// Where no cell is probed twice, every cell gets the result of its own job.
pub proof fn each_cell_gets_its_result(
    cells: Seq<CellId>,
    outcomes: Seq<JobOutcome>,
    i: int,
)
    requires
        cells.len() == outcomes.len(),
        cells.no_duplicates(),
        0 <= i < cells.len(),
    ensures
        collected(cells, outcomes).contains_key(cells[i]),
        collected(cells, outcomes)[cells[i]] == settled(outcomes[i]),
    decreases cells.len(),
{
    if i < cells.len() - 1 {
        each_cell_gets_its_result(cells.drop_last(), outcomes.drop_last(), i);
    }
}

/// A change of status.
#[derive(Debug)]
pub struct Transition {
    pub label: String,
    pub from: CheckResult,
    pub to: CheckResult,
}

/// The changes as they stand in a list.
pub open spec fn transition_views(transitions: Seq<Transition>) -> Seq<
    (Seq<char>, CheckResult, CheckResult),
> {
    transitions.map_values(|t: Transition| (t.label@, t.from, t.to))
}

proof fn transition_views_push(transitions: Seq<Transition>, t: Transition)
    ensures
        transition_views(transitions.push(t)) == transition_views(transitions).push(
            (t.label@, t.from, t.to),
        ),
{
    assert(transition_views(transitions.push(t)) =~= transition_views(transitions).push(
        (t.label@, t.from, t.to),
    ));
}

/// The change that the results of a cycle make to a cell: its label, and its
/// status before and after.
pub open spec fn change_of(
    id: CellId,
    results: Map<CellId, CheckResult>,
    board: Map<CellId, HostState>,
) -> (Seq<char>, CheckResult, CheckResult) {
    (id.label(), board[id].status, results[id])
}

/// Whether `change` is what happens to the cell `id`.
pub open spec fn is_change(
    id: CellId,
    results: Map<CellId, CheckResult>,
    board: Map<CellId, HostState>,
    change: (Seq<char>, CheckResult, CheckResult),
) -> bool {
    results[id] != board[id].status && change == change_of(id, results, board)
}

/// The changes that the results of a cycle make, in the order of the cells. A
/// cell that is listed twice changes once.
pub open spec fn changes(
    cells: Seq<CellId>,
    results: Map<CellId, CheckResult>,
    board: Map<CellId, HostState>,
) -> Seq<(Seq<char>, CheckResult, CheckResult)>
    decreases cells.len(),
{
    if cells.len() == 0 {
        seq![]
    } else {
        let id = cells.last();
        let sofar = changes(cells.drop_last(), results, board);
        if results[id] != board[id].status && !cells.drop_last().contains(id) {
            sofar.push(change_of(id, results, board))
        } else {
            sofar
        }
    }
}

/// The state of all cells after the results of a cycle at `now`.
pub open spec fn board_after(
    board: Map<CellId, HostState>,
    results: Map<CellId, CheckResult>,
    now: Instant,
) -> Map<CellId, HostState> {
    Map::new(
        |id: CellId| board.contains_key(id),
        |id: CellId|
            if results.contains_key(id) {
                board[id].observed(results[id], now)
            } else {
                board[id]
            },
    )
}

/// What a cycle came to.
#[derive(Debug)]
pub struct CycleReport {
    pub hosts: usize,
    pub services: usize,
    pub down: usize,
    pub transitions: Vec<Transition>,
}

/// The name of a status.
pub open spec fn status_text(status: CheckResult) -> Seq<char> {
    match status {
        CheckResult::Up => "Up"@,
        CheckResult::Down => "Down"@,
    }
}

/// Names a status.
pub fn status_name(status: CheckResult) -> (name: &'static str)
    ensures
        name@ == status_text(status),
        status == CheckResult::Up ==> name@ == "Up"@,
        status == CheckResult::Down ==> name@ == "Down"@,
{
    match status {
        CheckResult::Up => "Up",
        CheckResult::Down => "Down",
    }
}

impl Transition {
    /// The words by which a change is logged.
    pub open spec fn text(self) -> Seq<char> {
        self.label@ + " transitioned: "@ + status_text(self.from) + " \u{2192} "@ + status_text(
            self.to,
        )
    }

    /// Writes the words by which a change is logged.
    pub fn message(&self) -> (message: String)
        ensures
            message@ == self.text(),
            message@ == self.label@ + " transitioned: "@ + (if self.from == CheckResult::Up {
                "Up"@
            } else {
                "Down"@
            }) + " \u{2192} "@ + (if self.to == CheckResult::Up {
                "Up"@
            } else {
                "Down"@
            }),
    {
        let mut message: String = self.label.clone();
        message.append(" transitioned: ");
        message.append(status_name(self.from));
        message.append(" \u{2192} ");
        message.append(status_name(self.to));
        message
    }
}

impl CycleReport {
    /// The words by which a cycle is logged. `seconds` is how long it took.
    pub open spec fn text(self, seconds: Seq<char>) -> Seq<char> {
        "Cycle complete: "@ + decimal(self.hosts as nat) + " hosts, "@ + decimal(
            self.services as nat,
        ) + " services, "@ + decimal(self.down as nat) + " down, "@ + seconds + "s"@
    }

    /// Writes the words by which a cycle is logged.
    pub fn message(&self, seconds: &str) -> (message: String)
        ensures
            message@ == self.text(seconds@),
            message@ == "Cycle complete: "@ + decimal(self.hosts as nat) + " hosts, "@ + decimal(
                self.services as nat,
            ) + " services, "@ + decimal(self.down as nat) + " down, "@ + seconds@ + "s"@,
    {
        let mut message: String = "Cycle complete: ".to_owned();
        push_decimal(&mut message, self.hosts as u64);
        message.append(" hosts, ");
        push_decimal(&mut message, self.services as u64);
        message.append(" services, ");
        push_decimal(&mut message, self.down as u64);
        message.append(" down, ");
        message.append(seconds);
        message.append("s");
        message
    }
}

// ------------------------------------------------------------------------ engine

/// The engine: the configuration, and the state of every cell in it.
pub struct Engine {
    config: Config,
    state: CellTable<HostState>,
    cell_order: Vec<CellKey>,
    guard: ConcurrencyGuard,
    http_client: reqwest::Client,
}

/// What has become known while the engine runs.
pub enum RunEvent {
    /// A cycle could begin.
    Ready { cancelled: bool },
    /// A cycle was made, and took this long.
    CycleDone { elapsed: Duration },
    /// The engine was cancelled while a cycle was made: the probes that had not
    /// ended were given up, and nothing was recorded.
    CycleCut,
    /// The wait between two cycles ended.
    WaitEnded { cancelled: bool },
}

/// What is to be done next while the engine runs.
#[derive(Debug)]
pub enum RunAction {
    /// Make a cycle, unless the engine is cancelled meanwhile.
    Cycle,
    /// Wait this long, or until the engine is cancelled.
    Wait(Duration),
    /// Begin anew.
    Again,
    /// Stop.
    Stop,
}

impl Engine {
    /// The configuration.
    pub closed spec fn configuration(self) -> Config {
        self.config
    }

    /// The cells, in the order in which they are listed.
    pub closed spec fn cells(self) -> Seq<CellId> {
        ids(self.cell_order@)
    }

    /// The state of every cell.
    pub closed spec fn board(self) -> Map<CellId, HostState> {
        self.state@
    }

    /// The store of the permits that probes hold while they run.
    pub closed spec fn store(self) -> Semaphore {
        self.guard.store()
    }

    /// How many probes may run at once.
    pub open spec fn capacity(self) -> nat {
        initial_permits(self.store())
    }

    /// The client of the HTTP checks.
    pub closed spec fn client(self) -> reqwest::Client {
        self.http_client
    }

    /// Whether no cell has two states.
    pub closed spec fn table_wf(self) -> bool {
        self.state.wf()
    }

    /// Whether the cells are those of the configuration, in its order, and each
    /// of them has one state, in which one counter runs, and nothing else has.
    pub open spec fn wf(self) -> bool {
        &&& self.table_wf()
        &&& self.cells() == cells_of(self.configuration().hosts@)
        &&& forall|id: CellId| #[trigger]
            self.board().contains_key(id) <==> self.cells().contains(id)
        &&& forall|id: CellId| #[trigger]
            self.board().contains_key(id) ==> self.board()[id].wf()
    }

    /// Whether this engine is the one that a configuration begins with: every
    /// cell is up from now on, and as many probes may run at once as it says.
    pub open spec fn begins(self, config: Config) -> bool {
        &&& self.wf()
        &&& self.configuration() == config
        &&& self.capacity() == config.concurrency
        &&& forall|id: CellId| #[trigger]
            self.board().contains_key(id) ==> self.board()[id].is_initial()
    }

    /// Makes an engine of a configuration and an HTTP client, or says why there
    /// is none: the guard against too many probes comes first.
    pub fn with_client(config: Config, client: Result<reqwest::Client, CheckError>) -> (engine:
        Result<Engine, EngineError>)
        requires
            config.concurrency <= usize::MAX / 8,
        ensures
            match (config.concurrency, client) {
                (0, _) => engine == Err::<Engine, EngineError>(
                    EngineError::Concurrency(ConcurrencyError::ZeroCapacity(0)),
                ),
                (_, Err(e)) => engine == Err::<Engine, EngineError>(EngineError::Check(e)),
                (_, Ok(c)) => engine matches Ok(made) && made.begins(config) && made.client() == c,
            },
            engine matches Ok(made) ==> {
                &&& made.configuration() == config && made.cells() == cells_of(config.hosts@)
                &&& made.capacity() == config.concurrency
                &&& forall|id: CellId| #[trigger]
                    made.board().contains_key(id) <==> made.cells().contains(id)
                &&& forall|id: CellId| #[trigger]
                    made.board().contains_key(id) ==> made.board()[id].status == CheckResult::Up
                        && made.board()[id].up_since is Some && made.board()[id].down_since is None
            },
    {
        let guard = match ConcurrencyGuard::new(config.concurrency) {
            Ok(guard) => guard,
            Err(e) => return Err(EngineError::from(e)),
        };
        let http_client = match client {
            Ok(client) => client,
            Err(e) => return Err(EngineError::from(e)),
        };
        let cell_order = list_cells(&config.hosts);
        let mut state: CellTable<HostState> = CellTable::new();
        let mut i: usize = 0;
        while i < cell_order.len()
            invariant
                i <= cell_order@.len(),
                state.wf(),
                forall|id: CellId| #[trigger]
                    state@.contains_key(id) <==> ids(cell_order@).take(i as int).contains(id),
                forall|id: CellId| #[trigger] state@.contains_key(id) ==> state@[id].is_initial(),
            decreases cell_order@.len() - i,
        {
            state.insert(cell_order[i].clone(), HostState::new());
            proof {
                take_contains(ids(cell_order@), i as int);
            }
            i = i + 1;
        }
        assert(ids(cell_order@).take(i as int) =~= ids(cell_order@));
        Ok(Engine { config, state, cell_order, guard, http_client })
    }

    /// Makes an engine. Whether there is an HTTP client is up to the TLS
    /// library.
    pub fn new(config: Config) -> (engine: Result<Engine, EngineError>)
        requires
            config.concurrency <= usize::MAX / 8,
        ensures
            config.concurrency == 0 ==> engine == Err::<Engine, EngineError>(
                EngineError::Concurrency(ConcurrencyError::ZeroCapacity(0)),
            ),
            config.concurrency > 0 ==> match engine {
                Ok(made) => made.begins(config) && exists|timeout: Duration|
                    duration_nanos(timeout) == 10 * NANOS_PER_SEC && #[trigger] is_check_client(
                        client_options(made.client()),
                        timeout,
                        true,
                    ),
                Err(e) => e matches EngineError::Check(reason) && reason is Http,
            },
            engine matches Ok(made) ==> {
                let options = client_options(made.client());
                &&& made.configuration() == config && made.cells() == cells_of(config.hosts@)
                &&& made.capacity() == config.concurrency
                &&& forall|id: CellId| #[trigger]
                    made.board().contains_key(id) <==> made.cells().contains(id)
                &&& forall|id: CellId| #[trigger]
                    made.board().contains_key(id) ==> made.board()[id].status == CheckResult::Up
                        && made.board()[id].up_since is Some && made.board()[id].down_since is None
                &&& duration_nanos(options.timeout) == 10_000_000_000
                &&& duration_nanos(options.connect_timeout) == 10_000_000_000
                &&& options.accept_invalid_certs && options.redirect_limit == 5
                &&& options.no_proxy && options.http1_only
            },
    {
        let timeout = Duration::from_secs(10);
        Engine::with_client(config, build_http_client(timeout, true))
    }

    /// The state of every cell.
    pub fn shared_state(&self) -> (state: &CellTable<HostState>)
        requires
            self.wf(),
        ensures
            state.wf(),
            state@ == self.board(),
    {
        &self.state
    }

    /// The keys of all cells, in order.
    pub fn cell_order(&self) -> (order: Vec<CellKey>)
        ensures
            ids(order@) == self.cells(),
    {
        copy_keys(&self.cell_order)
    }

    /// The guard against too many probes at once. All of them take their permits
    /// from one store.
    pub fn guard(&self) -> (guard: ConcurrencyGuard)
        ensures
            guard.store() == self.store(),
    {
        self.guard.clone()
    }

    /// The client of the HTTP checks.
    pub fn http_client(&self) -> (client: &reqwest::Client)
        ensures
            *client == self.client(),
    {
        &self.http_client
    }

    /// Plans the probes of a cycle.
    pub fn plan(&self) -> (jobs: Vec<Job>)
        ensures
            job_views(jobs@) == jobs_of(self.configuration().hosts@),
    {
        plan_jobs(&self.config.hosts)
    }

    /// The results of a cycle by cell.
    fn collect(&self, outcomes: &Vec<JobOutcome>) -> (results: CellTable<CheckResult>)
        requires
            outcomes@.len() == self.cells().len(),
        ensures
            results.wf(),
            results@ == collected(self.cells(), outcomes@),
    {
        let mut results: CellTable<CheckResult> = CellTable::new();
        let mut i: usize = 0;
        while i < outcomes.len()
            invariant
                outcomes@.len() == self.cell_order@.len(),
                i <= outcomes@.len(),
                results.wf(),
                results@ == collected(
                    ids(self.cell_order@).take(i as int),
                    outcomes@.take(i as int),
                ),
            decreases outcomes@.len() - i,
        {
            results.insert(self.cell_order[i].clone(), settle(&outcomes[i]));
            proof {
                assert(ids(self.cell_order@).take(i + 1).drop_last() =~= ids(self.cell_order@).take(
                    i as int,
                ));
                assert(outcomes@.take(i + 1).drop_last() =~= outcomes@.take(i as int));
            }
            i = i + 1;
        }
        assert(ids(self.cell_order@).take(i as int) =~= ids(self.cell_order@));
        assert(outcomes@.take(i as int) =~= outcomes@);
        results
    }

    /// Takes in how the jobs of a cycle ended, all at once, at `now`.
    /// `outcomes` are in the order of the jobs.
    pub fn record_cycle(&mut self, outcomes: &Vec<JobOutcome>, now: Instant) -> (report:
        CycleReport)
        requires
            old(self).wf(),
            outcomes@.len() == old(self).cells().len(),
        ensures
            final(self).wf(),
            final(self).configuration() == old(self).configuration(),
            final(self).cells() == old(self).cells(),
            final(self).store() == old(self).store(),
            final(self).client() == old(self).client(),
            final(self).board() == board_after(
                old(self).board(),
                collected(old(self).cells(), outcomes@),
                now,
            ),
            report.hosts == old(self).configuration().hosts@.len(),
            report.services == service_total(old(self).configuration().hosts@),
            report.down == keys_with(
                collected(old(self).cells(), outcomes@),
                CheckResult::Down,
            ).len(),
            transition_views(report.transitions@) == changes(
                old(self).cells(),
                collected(old(self).cells(), outcomes@),
                old(self).board(),
            ),
    {
        let results = self.collect(outcomes);
        let mut transitions: Vec<Transition> = Vec::new();
        let ghost cells = self.cells();
        let ghost before = self.board();
        proof {
            collected_cells(cells, outcomes@);
        }
        let mut i: usize = 0;
        while i < self.cell_order.len()
            invariant
                i <= self.cell_order@.len(),
                self.state.wf(),
                self.config == old(self).config,
                self.cell_order == old(self).cell_order,
                self.guard == old(self).guard,
                self.http_client == old(self).http_client,
                cells == ids(self.cell_order@),
                before == old(self).board(),
                results.wf(),
                results@ == collected(cells, outcomes@),
                forall|id: CellId| #[trigger] results@.contains_key(id) <==> cells.contains(id),
                forall|id: CellId| #[trigger] before.contains_key(id) <==> cells.contains(id),
                forall|id: CellId| #[trigger]
                    self.state@.contains_key(id) <==> before.contains_key(id),
                forall|id: CellId| #[trigger]
                    self.state@.contains_key(id) ==> self.state@[id] == if cells.take(
                        i as int,
                    ).contains(id) {
                        before[id].observed(results@[id], now)
                    } else {
                        before[id]
                    },
                transition_views(transitions@) == changes(cells.take(i as int), results@, before),
            decreases self.cell_order@.len() - i,
        {
            let key = self.cell_order[i].clone();
            let ghost id = key@;
            proof {
                assert(cells[i as int] == id);
                assert(cells.contains(id));
                take_contains(cells, i as int);
                assert(cells.take(i + 1).drop_last() =~= cells.take(i as int));
                assert(cells.take(i + 1).last() == id);
            }
            if let Some(result) = results.get(&key) {
                if let Some(cell) = self.state.get(&key) {
                    if *result != cell.status {
                        let ghost sofar = transitions@;
                        let mut next: HostState = cell.clone();
                        transitions.push(
                            Transition { label: key.label(), from: next.status, to: *result },
                        );
                        next.observe(*result, now);
                        proof {
                            transition_views_push(sofar, transitions@.last());
                        }
                        self.state.insert(key, next);
                    }
                }
            }
            i = i + 1;
        }
        proof {
            assert(cells.take(i as int) =~= cells);
            assert(self.board() =~= board_after(before, results@, now));
            cycle_keeps_the_board(before, results@, now);
            cells_count(self.config.hosts@);
        }
        let hosts: usize = self.config.hosts.len();
        CycleReport {
            hosts,
            services: self.cell_order.len() - hosts,
            down: results.count(CheckResult::Down),
            transitions,
        }
    }

    /// Tells what to do next. Cycles begin at least as far apart as the
    /// configuration says; a cancelled engine begins no other, and does not wait
    /// for the probes of the one that is made.
    pub fn run(&self, event: RunEvent) -> (action: RunAction)
        ensures
            match event {
                RunEvent::Ready { cancelled } => action == if cancelled {
                    RunAction::Stop
                } else {
                    RunAction::Cycle
                },
                RunEvent::CycleDone { elapsed } => {
                    let interval = self.configuration().interval_secs * NANOS_PER_SEC;
                    if duration_nanos(elapsed) < interval {
                        action matches RunAction::Wait(rest) && duration_nanos(rest) + duration_nanos(
                            elapsed,
                        ) == interval
                    } else {
                        action == RunAction::Again
                    }
                },
                RunEvent::CycleCut => action == RunAction::Stop,
                RunEvent::WaitEnded { cancelled } => action == if cancelled {
                    RunAction::Stop
                } else {
                    RunAction::Again
                },
            },
    {
        match event {
            RunEvent::Ready { cancelled } => if cancelled {
                RunAction::Stop
            } else {
                RunAction::Cycle
            },
            RunEvent::CycleDone { elapsed } => {
                let interval = Duration::from_secs(self.config.interval_secs);
                match interval.checked_sub(elapsed) {
                    Some(rest) => if rest.as_nanos() > 0 {
                        RunAction::Wait(rest)
                    } else {
                        RunAction::Again
                    },
                    None => RunAction::Again,
                }
            },
            RunEvent::CycleCut => RunAction::Stop,
            RunEvent::WaitEnded { cancelled } => if cancelled {
                RunAction::Stop
            } else {
                RunAction::Again
            },
        }
    }
}

/// What one more cell adds to the cells so far.
proof fn take_contains(cells: Seq<CellId>, i: int)
    requires
        0 <= i < cells.len(),
    ensures
        forall|id: CellId| #[trigger]
            cells.take(i + 1).contains(id) <==> cells.take(i).contains(id) || id == cells[i],
{
    let less = cells.take(i);
    let more = cells.take(i + 1);
    assert forall|id: CellId| #[trigger] more.contains(id) <==> less.contains(id) || id
        == cells[i] by {
        if less.contains(id) {
            let j = choose|j: int| 0 <= j < less.len() && less[j] == id;
            assert(more[j] == id);
        }
        if id == cells[i] {
            assert(more[i] == id);
        }
        if more.contains(id) && id != cells[i] {
            let j = choose|j: int| 0 <= j < more.len() && more[j] == id;
            assert(less[j] == id);
        }
    }
}

// ----------------------------------------------------------------------------- laws

/// The cells stand in the order of the configuration: a host comes after all
/// hosts and services that are listed before it, and is followed by its services
/// as they are listed.
pub proof fn cells_keep_config_order(hosts: Seq<HostConfig>, i: int)
    requires
        0 <= i < hosts.len(),
    ensures
        ({
            let at = i + service_total(hosts.take(i));
            &&& at + hosts[i].services@.len() < cells_of(hosts).len()
            &&& cells_of(hosts)[at] == host_id(hosts[i])
            &&& forall|k: int|
                0 <= k < hosts[i].services@.len() ==> #[trigger] cells_of(hosts)[at + 1 + k]
                    == service_id(hosts[i], hosts[i].services@[k])
        }),
    decreases hosts.len(),
{
    let before = hosts.drop_last();
    cells_count(before);
    if i < hosts.len() - 1 {
        cells_keep_config_order(before, i);
        assert(before.take(i) =~= hosts.take(i));
        let at = i + service_total(hosts.take(i));
        assert forall|k: int| 0 <= k < hosts[i].services@.len() implies #[trigger] cells_of(
            hosts,
        )[at + 1 + k] == service_id(hosts[i], hosts[i].services@[k]) by {
            assert(cells_of(before)[at + 1 + k] == service_id(hosts[i], hosts[i].services@[k]));
        }
    } else {
        assert(hosts.take(i) =~= before);
        let at = i + service_total(before);
        assert forall|k: int| 0 <= k < hosts[i].services@.len() implies #[trigger] cells_of(
            hosts,
        )[at + 1 + k] == service_id(hosts[i], hosts[i].services@[k]) by {
            assert(cells_of(hosts)[at + 1 + k] == host_cells(hosts[i])[1 + k]);
        }
    }
}

/// Every cell belongs to a host of the configuration.
proof fn cell_has_host(hosts: Seq<HostConfig>, n: int) -> (i: int)
    requires
        0 <= n < cells_of(hosts).len(),
    ensures
        0 <= i < hosts.len(),
        host_cells(hosts[i]).contains(cells_of(hosts)[n]),
    decreases hosts.len(),
{
    let before = cells_of(hosts.drop_last());
    if n < before.len() {
        let i = cell_has_host(hosts.drop_last(), n);
        assert(before[n] == cells_of(hosts)[n]);
        i
    } else {
        let own = host_cells(hosts.last());
        assert(cells_of(hosts)[n] == own[n - before.len()]);
        hosts.len() - 1
    }
}

/// The host that a cell is named after.
spec fn host_name_of(id: CellId) -> Seq<char> {
    match id {
        CellId::Host(name) => name,
        CellId::Service { host, .. } => host,
    }
}

/// Whether no two services of a host have one name.
pub open spec fn services_distinct(host: HostConfig) -> bool {
    forall|k: int, m: int|
        0 <= k < m < host.services@.len() ==> (#[trigger] host.services@[k]).name@ != (
        #[trigger] host.services@[m]).name@
}

/// Where hosts, and the services of each host, have names of their own, every
/// one of them has a cell of its own.
pub proof fn cells_are_distinct(hosts: Seq<HostConfig>)
    requires
        all_distinct(names_of(hosts)),
        forall|i: int| 0 <= i < hosts.len() ==> services_distinct(#[trigger] hosts[i]),
    ensures
        cells_of(hosts).no_duplicates(),
    decreases hosts.len(),
{
    if hosts.len() > 0 {
        let before = hosts.drop_last();
        assert forall|i: int, j: int| 0 <= i < j < before.len() implies #[trigger] names_of(
            before,
        )[i] != #[trigger] names_of(before)[j] by {
            assert(names_of(before)[i] == names_of(hosts)[i]);
            assert(names_of(before)[j] == names_of(hosts)[j]);
        }
        assert forall|i: int| 0 <= i < before.len() implies services_distinct(
            #[trigger] before[i],
        ) by {
            assert(before[i] == hosts[i]);
        }
        cells_are_distinct(before);
        let cells = cells_of(hosts);
        let old_cells = cells_of(before);
        let host = hosts.last();
        let own = host_cells(host);
        assert(services_distinct(hosts[hosts.len() - 1]));
        assert forall|a: int, b: int| 0 <= a < b < cells.len() implies cells[a] != cells[b] by {
            if b < old_cells.len() {
                assert(cells[a] == old_cells[a] && cells[b] == old_cells[b]);
            } else if a < old_cells.len() {
                let i = cell_has_host(before, a);
                let m = choose|m: int|
                    0 <= m < host_cells(before[i]).len() && host_cells(before[i])[m] == old_cells[a];
                assert(host_name_of(old_cells[a]) == name_of(before[i]));
                assert(cells[b] == own[b - old_cells.len()]);
                assert(host_name_of(cells[b]) == name_of(host));
                assert(names_of(hosts)[i] != names_of(hosts)[hosts.len() - 1]);
            } else {
                let k = a - old_cells.len();
                let m = b - old_cells.len();
                assert(cells[a] == own[k] && cells[b] == own[m]);
                if k > 0 {
                    assert(host.services@[k - 1].name@ != host.services@[m - 1].name@);
                }
            }
        }
    }
}

/// A cell follows its own result and that of no other: where two cycles tell the
/// same of a cell, its state after them is the same.
pub proof fn cell_follows_its_own_result(
    board: Map<CellId, HostState>,
    these: Map<CellId, CheckResult>,
    those: Map<CellId, CheckResult>,
    id: CellId,
    now: Instant,
)
    requires
        board.contains_key(id),
        these.contains_key(id) == those.contains_key(id),
        these.contains_key(id) ==> these[id] == those[id],
    ensures
        board_after(board, these, now)[id] == board_after(board, those, now)[id],
{
}

/// A cycle neither adds a cell nor drops one, and keeps exactly one counter
/// running in each; what was probed has the status that the probe told.
pub proof fn cycle_keeps_the_board(
    board: Map<CellId, HostState>,
    results: Map<CellId, CheckResult>,
    now: Instant,
)
    requires
        forall|id: CellId| #[trigger] board.contains_key(id) ==> board[id].wf(),
    ensures
        board_after(board, results, now).dom() == board.dom(),
        forall|id: CellId| #[trigger]
            board_after(board, results, now).contains_key(id) ==> board_after(
                board,
                results,
                now,
            )[id].wf(),
        forall|id: CellId| #[trigger]
            board_after(board, results, now).contains_key(id) && results.contains_key(id)
                ==> board_after(board, results, now)[id].status == results[id],
{
    assert(board_after(board, results, now).dom() =~= board.dom());
}

/// A cycle that tells nothing new changes nothing, and no change is logged.
pub proof fn no_news_no_change(
    cells: Seq<CellId>,
    board: Map<CellId, HostState>,
    results: Map<CellId, CheckResult>,
    now: Instant,
)
    requires
        forall|id: CellId| #[trigger]
            board.contains_key(id) ==> results.contains_key(id) && results[id] == board[id].status,
        forall|i: int| 0 <= i < cells.len() ==> board.contains_key(#[trigger] cells[i]),
    ensures
        board_after(board, results, now) == board,
        changes(cells, results, board).len() == 0,
    decreases cells.len(),
{
    assert(board_after(board, results, now) =~= board);
    if cells.len() > 0 {
        let before = cells.drop_last();
        assert forall|i: int| 0 <= i < before.len() implies board.contains_key(
            #[trigger] before[i],
        ) by {
            assert(before[i] == cells[i]);
        }
        assert(board.contains_key(cells[cells.len() - 1]));
        no_news_no_change(before, board, results, now);
    }
}

/// The changes that are told are those that happen: each is from one status to
/// another, and is that of a cell whose result differs from its status; and the
/// change of every such cell is told.
pub proof fn every_change_is_told(
    cells: Seq<CellId>,
    results: Map<CellId, CheckResult>,
    board: Map<CellId, HostState>,
)
    ensures
        forall|n: int|
            0 <= n < changes(cells, results, board).len() ==> exists|i: int|
                0 <= i < cells.len() && is_change(
                    #[trigger] cells[i],
                    results,
                    board,
                    #[trigger] changes(cells, results, board)[n],
                ),
        forall|i: int|
            0 <= i < cells.len() && results[cells[i]] != board[cells[i]].status ==> changes(
                cells,
                results,
                board,
            ).contains(change_of(#[trigger] cells[i], results, board)),
    decreases cells.len(),
{
    if cells.len() > 0 {
        let before = cells.drop_last();
        let id = cells.last();
        let sofar = changes(before, results, board);
        let all = changes(cells, results, board);
        every_change_is_told(before, results, board);
        assert(cells[cells.len() - 1] == id);
        assert forall|n: int| 0 <= n < all.len() implies exists|i: int|
            0 <= i < cells.len() && is_change(
                #[trigger] cells[i],
                results,
                board,
                #[trigger] all[n],
            ) by {
            if n < sofar.len() {
                assert(all[n] == sofar[n]);
                let i = choose|i: int|
                    0 <= i < before.len() && is_change(#[trigger] before[i], results, board, sofar[n]);
                assert(before[i] == cells[i]);
                assert(is_change(cells[i], results, board, all[n]));
            } else {
                assert(is_change(cells[cells.len() - 1], results, board, all[n]));
            }
        }
        assert forall|i: int|
            0 <= i < cells.len() && results[cells[i]] != board[cells[i]].status implies all.contains(
            change_of(#[trigger] cells[i], results, board),
        ) by {
            if before.contains(cells[i]) {
                let j = choose|j: int| 0 <= j < before.len() && before[j] == cells[i];
                let change = change_of(before[j], results, board);
                assert(sofar.contains(change));
                let n = choose|n: int| 0 <= n < sofar.len() && sofar[n] == change;
                assert(all[n] == change);
            } else {
                if i < before.len() {
                    assert(before[i] == cells[i]);
                }
                assert(all[all.len() - 1] == change_of(id, results, board));
            }
        }
    }
}

// -- what a cycle means

/// A counter belongs to its own status: while a cell is up the time since it came up
/// is told, and while it is down the time since it went down.
pub proof fn counter_is_that_of_the_status(state: HostState, since: Instant, now: Instant)
    requires
        instant_nanos(since) <= instant_nanos(now),
    ensures
        state.status == CheckResult::Up && state.up_since == Some(since) ==> state.status_nanos(now)
            == instant_nanos(now) - instant_nanos(since),
        state.status == CheckResult::Down && state.down_since == Some(since)
            ==> state.status_nanos(now) == instant_nanos(now) - instant_nanos(since),
        state.wf() <==> (state.status == CheckResult::Up && state.up_since is Some
            && state.down_since is None) || (state.status == CheckResult::Down && state.up_since
            is None && state.down_since is Some),
{
}

/// The hosts are listed one after the other: each adds its own cell and then one for
/// every service, under its own name and that of the service.
pub proof fn each_host_adds_its_cells(hosts: Seq<HostConfig>, host: HostConfig)
    ensures
        cells_of(seq![]) == Seq::<CellId>::empty(),
        cells_of(hosts.push(host)) == cells_of(hosts).push(CellId::Host(host.name.value()@))
            + host.services@.map_values(
            |svc: ServiceConfig|
                CellId::Service { host: host.name.value()@, service: svc.name@ },
        ),
        service_total(seq![]) == 0,
        service_total(hosts.push(host)) == service_total(hosts) + host.services@.len(),
{
    assert(hosts.push(host).drop_last() =~= hosts);
    assert(cells_of(hosts.push(host)) =~= cells_of(hosts).push(CellId::Host(host.name.value()@))
        + host.services@.map_values(
        |svc: ServiceConfig| CellId::Service { host: host.name.value()@, service: svc.name@ },
    ));
}

/// The hosts are probed one after the other: each is pinged at its address, and then
/// each of its services is probed for its own cell.
pub proof fn each_host_adds_its_jobs(hosts: Seq<HostConfig>, host: HostConfig)
    ensures
        jobs_of(seq![]) == Seq::<(CellId, ProbeKind)>::empty(),
        jobs_of(hosts.push(host)) == jobs_of(hosts).push(
            (CellId::Host(host.name.value()@), ProbeKind::Ping { address: host.address@ }),
        ) + host.services@.map_values(
            |svc: ServiceConfig|
                (
                    CellId::Service { host: host.name.value()@, service: svc.name@ },
                    service_probe(host, svc),
                ),
        ),
{
    assert(hosts.push(host).drop_last() =~= hosts);
    assert(jobs_of(hosts.push(host)) =~= jobs_of(hosts).push(
        (CellId::Host(host.name.value()@), ProbeKind::Ping { address: host.address@ }),
    ) + host.services@.map_values(
        |svc: ServiceConfig|
            (
                CellId::Service { host: host.name.value()@, service: svc.name@ },
                service_probe(host, svc),
            ),
    ));
}

/// The type of a service decides how it is probed: `http` and `https` by a request, and
/// any other by a connection, always at the address of its host, at its own port and
/// within five seconds.
pub proof fn service_type_decides_the_probe(host: HostConfig, svc: ServiceConfig)
    ensures
        ({
            let port = (svc.port.value() as int % 65536) as nat;
            let kind = svc.service_type@;
            let path = if svc.path is Some && svc.path->Some_0@.len() > 0 {
                svc.path->Some_0@
            } else {
                seq!['/']
            };
            let by_http = |use_tls: bool| ProbeKind::Http {
                address: host.address@,
                port,
                path,
                use_tls,
                expected_status: svc.expected_status,
                timeout: 5_000_000_000,
            };
            &&& kind == "http"@ ==> service_probe(host, svc) == by_http(false)
            &&& kind == "https"@ ==> service_probe(host, svc) == by_http(true)
            &&& kind != "http"@ && kind != "https"@ ==> service_probe(host, svc) == (
            ProbeKind::Port { address: host.address@, port, timeout: 5_000_000_000 })
        }),
{
    reveal_strlit("/");
    reveal_strlit("http");
    reveal_strlit("https");
    assert("/"@ =~= seq!['/']);
    assert("http"@.len() != "https"@.len());
}

/// A probe is read with all that it holds, and a job with its cell.
pub proof fn probes_are_read_in_full(probe: Probe, jobs: Seq<Job>, i: int)
    requires
        0 <= i < jobs.len(),
    ensures
        job_views(jobs).len() == jobs.len(),
        job_views(jobs)[i] == (jobs[i].key@, jobs[i].probe@),
        match probe {
            Probe::Ping { address } => probe@ == (ProbeKind::Ping { address: address@ }),
            Probe::Port { address, port, timeout } => probe@ == (ProbeKind::Port {
                address: address@,
                port: port as nat,
                timeout: duration_nanos(timeout),
            }),
            Probe::Http { address, port, path, use_tls, expected_status, timeout } => probe@ == (
            ProbeKind::Http {
                address: address@,
                port: port as nat,
                path: path@,
                use_tls,
                expected_status,
                timeout: duration_nanos(timeout),
            }),
        },
{
}

/// The last probe of a cell in a cycle is the one that counts: the result is up exactly
/// where that probe was made and found the cell up.
pub proof fn last_probe_counts(cells: Seq<CellId>, outcomes: Seq<JobOutcome>, i: int)
    requires
        cells.len() == outcomes.len(),
        0 <= i < cells.len(),
        forall|j: int| i < j < cells.len() ==> #[trigger] cells[j] != cells[i],
    ensures
        collected(cells, outcomes).contains_key(cells[i]),
        collected(cells, outcomes)[cells[i]] == CheckResult::Up <==> outcomes[i]
            == JobOutcome::Checked(Ok(CheckResult::Up)),
    decreases cells.len(),
{
    if i < cells.len() - 1 {
        assert forall|j: int| i < j < cells.drop_last().len() implies #[trigger] cells.drop_last()[j]
            != cells.drop_last()[i] by {
            assert(cells[j] != cells[i]);
        }
        assert(cells[cells.len() - 1] != cells[i]);
        last_probe_counts(cells.drop_last(), outcomes.drop_last(), i);
    }
}

/// Only what was probed has a result.
pub proof fn only_cells_have_results(cells: Seq<CellId>, outcomes: Seq<JobOutcome>, id: CellId)
    requires
        cells.len() == outcomes.len(),
    ensures
        collected(cells, outcomes).contains_key(id) <==> cells.contains(id),
{
    collected_cells(cells, outcomes);
}

/// After a cycle a cell is up only where its probe was answered so. One that was probed
/// in vain is down: for whatever error, for want of a permit, or because its task was
/// lost. Its counter runs on where that is no news, and starts at the time of the cycle
/// where it is.
pub proof fn failed_probe_means_down(
    board: Map<CellId, HostState>,
    cells: Seq<CellId>,
    outcomes: Seq<JobOutcome>,
    now: Instant,
    i: int,
)
    requires
        cells.len() == outcomes.len(),
        0 <= i < cells.len(),
        forall|j: int| i < j < cells.len() ==> #[trigger] cells[j] != cells[i],
        board.contains_key(cells[i]),
    ensures
        ({
            let before = board[cells[i]];
            let after = board_after(board, collected(cells, outcomes), now)[cells[i]];
            let up = outcomes[i] == JobOutcome::Checked(Ok(CheckResult::Up));
            &&& board_after(board, collected(cells, outcomes), now).contains_key(cells[i])
            &&& up ==> after.status == CheckResult::Up
            &&& !up ==> after.status == CheckResult::Down
            &&& outcomes[i] matches JobOutcome::Checked(Err(_)) ==> after.status == CheckResult::Down
            &&& outcomes[i] == JobOutcome::NoPermit ==> after.status == CheckResult::Down
            &&& outcomes[i] == JobOutcome::Lost ==> after.status == CheckResult::Down
            &&& after.status == before.status ==> after == before
            &&& after.status != before.status && up ==> after.up_since == Some(now)
                && after.down_since is None
            &&& after.status != before.status && !up ==> after.down_since == Some(now)
                && after.up_since is None
        }),
{
    last_probe_counts(cells, outcomes, i);
}

/// What was not probed stays as it was, and a cycle adds no cell.
pub proof fn unprobed_cells_stay(
    board: Map<CellId, HostState>,
    results: Map<CellId, CheckResult>,
    now: Instant,
    id: CellId,
)
    ensures
        board_after(board, results, now).contains_key(id) <==> board.contains_key(id),
        board.contains_key(id) && !results.contains_key(id) ==> board_after(board, results, now)[id]
            == board[id],
{
}

/// A change is told where a result is news and the cell was not told of yet: by the label
/// of the cell, its status before, and its result. The changes stand in the order of the
/// cells.
pub proof fn changes_are_told_in_order(
    cells: Seq<CellId>,
    id: CellId,
    results: Map<CellId, CheckResult>,
    board: Map<CellId, HostState>,
)
    ensures
        changes(seq![], results, board).len() == 0,
        changes(cells.push(id), results, board) == if results[id] != board[id].status
            && !cells.contains(id) {
            changes(cells, results, board).push((id.label(), board[id].status, results[id]))
        } else {
            changes(cells, results, board)
        },
{
    assert(cells.push(id).drop_last() =~= cells);
}

/// Changes are read as they stand in a list.
pub proof fn transitions_are_read_in_full(transitions: Seq<Transition>, i: int)
    requires
        0 <= i < transitions.len(),
    ensures
        transition_views(transitions).len() == transitions.len(),
        transition_views(transitions)[i] == (
            transitions[i].label@,
            transitions[i].from,
            transitions[i].to,
        ),
{
}

/// As many cells are down after a cycle as it reports: those whose result is down are
/// those whose status is, where every cell has a result.
pub proof fn report_counts_what_is_down(
    board: Map<CellId, HostState>,
    results: Map<CellId, CheckResult>,
    now: Instant,
)
    requires
        board.dom() == results.dom(),
    ensures
        keys_with(results, CheckResult::Down) == board_after(board, results, now).dom().filter(
            |id: CellId| board_after(board, results, now)[id].status == CheckResult::Down,
        ),
{
    assert(keys_with(results, CheckResult::Down) =~= board_after(board, results, now).dom().filter(
        |id: CellId| board_after(board, results, now)[id].status == CheckResult::Down,
    ));
}

/// A status is written by its name.
pub proof fn statuses_have_names()
    ensures
        status_text(CheckResult::Up) == seq!['U', 'p'],
        status_text(CheckResult::Down) == seq!['D', 'o', 'w', 'n'],
        SERVICE_TIMEOUT_SECS == 5,
{
    reveal_strlit("Up");
    reveal_strlit("Down");
    assert(status_text(CheckResult::Up) =~= seq!['U', 'p']);
    assert(status_text(CheckResult::Down) =~= seq!['D', 'o', 'w', 'n']);
}

}
