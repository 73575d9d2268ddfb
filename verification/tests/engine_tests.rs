use std::time::{Duration, Instant};
use tmonitor::cells::{CellKey, CellTable};
use tmonitor::check::{CheckError, CheckResult, ConcurrencyError};
use tmonitor::config::{Config, HostConfig, ServiceConfig, Spanned};
use tmonitor::engine::{
    settle, Engine, EngineError, HostState, JobOutcome, Probe, RunAction, RunEvent,
};

fn host(name: &str, address: &str, services: Vec<ServiceConfig>) -> HostConfig {
    HostConfig {
        name: Spanned::new(0..0, name.to_string()),
        address: address.to_string(),
        services,
    }
}

fn service(name: &str, port: u32, service_type: &str) -> ServiceConfig {
    ServiceConfig {
        name: name.to_string(),
        port: Spanned::new(0..0, port),
        service_type: service_type.to_string(),
        path: None,
        expected_status: None,
        danger_accept_invalid_certs: false,
    }
}

fn service_key(host: &str, service: &str) -> CellKey {
    CellKey::Service { host: host.to_string(), service: service.to_string() }
}

fn test_config() -> Config {
    Config {
        interval_secs: 60,
        concurrency: 10,
        hosts: vec![host("localhost", "127.0.0.1", vec![])],
    }
}

#[test]
fn test_host_state_initial() {
    let state = HostState::new();
    assert_eq!(state.status, CheckResult::Up);
    assert!(state.up_since.is_some());
    assert!(state.down_since.is_none());
}

#[test]
fn test_host_state_default() {
    let state = HostState::default();
    assert_eq!(state.status, CheckResult::Up);
}

#[test]
fn test_host_state_up_to_down_transition() {
    let state = HostState {
        status: CheckResult::Down,
        up_since: None,
        down_since: Some(Instant::now()),
    };

    assert_eq!(state.status, CheckResult::Down);
    assert!(state.up_since.is_none());
    assert!(state.down_since.is_some());
    assert_eq!(state.uptime_duration(), Duration::ZERO);
    assert!(state.downtime_duration() < Duration::from_millis(100));
}

#[test]
fn test_host_state_down_to_up_transition() {
    let mut state = HostState {
        status: CheckResult::Down,
        up_since: None,
        down_since: Some(Instant::now()),
    };

    let now = Instant::now();
    state.observe(CheckResult::Up, now);

    assert_eq!(state.status, CheckResult::Up);
    assert!(state.down_since.is_none());
    assert!(state.up_since.is_some());
    assert_eq!(state.up_since, Some(now));
    assert_eq!(state.downtime_duration(), Duration::ZERO);
    assert!(state.uptime_duration() < Duration::from_millis(100));
}

#[test]
fn test_host_state_no_transition_preserves_fields() {
    let up_since = Instant::now() - Duration::from_secs(3600);
    let mut state = HostState {
        status: CheckResult::Up,
        up_since: Some(up_since),
        down_since: None,
    };

    assert_eq!(state.up_since, Some(up_since));
    assert!(state.down_since.is_none());
    assert!(state.uptime_duration() >= Duration::from_secs(3600));

    state.observe(CheckResult::Up, Instant::now());
    assert_eq!(state.up_since, Some(up_since));
    assert!(state.down_since.is_none());
}

#[test]
fn counters_start_from_zero() {
    let start = Instant::now();
    let mut state = HostState::new();
    let failed = start + Duration::from_secs(10);
    state.observe(CheckResult::Down, failed);
    assert_eq!(state.downtime_at(failed), Duration::ZERO);
    assert_eq!(state.downtime_at(failed + Duration::from_secs(7)), Duration::from_secs(7));
    assert_eq!(state.status_duration(failed + Duration::from_secs(7)), Duration::from_secs(7));
    assert_eq!(state.uptime_at(failed + Duration::from_secs(7)), Duration::ZERO);
    let recovered = failed + Duration::from_secs(20);
    state.observe(CheckResult::Up, recovered);
    assert_eq!(state.uptime_at(recovered), Duration::ZERO);
    assert_eq!(state.downtime_at(recovered + Duration::from_secs(1)), Duration::ZERO);
    // A reading from before the counter started counts as none.
    assert_eq!(state.uptime_at(failed), Duration::ZERO);
}

#[test]
fn test_engine_new_initializes_state() {
    let config = test_config();
    let engine = Engine::new(config).unwrap();
    assert_eq!(engine.cell_order().len(), 1);
    assert_eq!(engine.cell_order()[0], CellKey::Host("localhost".to_string()));
    assert_eq!(engine.guard().available_permits(), 10);
}

#[test]
fn test_engine_shared_state_and_cell_order() {
    let config = test_config();
    let engine = Engine::new(config).unwrap();
    let order = engine.cell_order();
    assert_eq!(order.len(), 1);
    assert!(engine.shared_state().contains_key(&order[0]));
    assert!(!engine.shared_state().contains_key(&CellKey::Host("other".to_string())));
}

#[test]
fn test_engine_empty_hosts() {
    let config = Config { interval_secs: 60, concurrency: 5, hosts: vec![] };
    let engine = Engine::new(config).unwrap();
    assert!(engine.cell_order().is_empty());
    assert!(engine.shared_state().is_empty());
}

#[test]
fn test_engine_config_order_preserved() {
    let config = Config {
        interval_secs: 60,
        concurrency: 5,
        hosts: vec![host("beta", "10.0.0.2", vec![]), host("alpha", "10.0.0.1", vec![])],
    };
    let engine = Engine::new(config).unwrap();
    assert_eq!(engine.cell_order()[0], CellKey::Host("beta".to_string()));
    assert_eq!(engine.cell_order()[1], CellKey::Host("alpha".to_string()));
}

#[test]
fn test_cell_key_label() {
    assert_eq!(CellKey::Host("router".to_string()).label(), "router");
    assert_eq!(
        CellKey::Service { host: "router".to_string(), service: "ssh".to_string() }.label(),
        "router/ssh"
    );
}

#[test]
fn test_engine_cell_order_includes_services() {
    let config = Config {
        interval_secs: 60,
        concurrency: 5,
        hosts: vec![host(
            "server",
            "10.0.0.1",
            vec![service("ssh", 22, "tcp"), service("web", 80, "tcp")],
        )],
    };
    let engine = Engine::new(config).unwrap();
    assert_eq!(engine.cell_order().len(), 3);
    assert_eq!(engine.cell_order()[0], CellKey::Host("server".to_string()));
    assert_eq!(engine.cell_order()[1], service_key("server", "ssh"));
    assert_eq!(engine.cell_order()[2], service_key("server", "web"));
}

#[test]
fn engine_needs_a_permit_and_a_client() {
    let mut config = test_config();
    config.concurrency = 0;
    match Engine::new(config) {
        Err(e) => {
            assert!(matches!(e, EngineError::Concurrency(ConcurrencyError::ZeroCapacity(0))));
            assert_eq!(
                e.message(),
                "concurrency error: max_concurrent must be at least 1, got 0"
            );
        }
        Ok(_) => panic!("expected an error"),
    }
    let broken = Err(CheckError::Http("no certificates".to_string()));
    match Engine::with_client(test_config(), broken) {
        Err(e) => assert_eq!(e.message(), "check error: HTTP error: no certificates"),
        Ok(_) => panic!("expected an error"),
    }
}

fn small_engine() -> Engine {
    Engine::new(Config {
        interval_secs: 30,
        concurrency: 3,
        hosts: vec![
            host("a", "10.0.0.1", vec![service("ssh", 22, "tcp")]),
            host("b", "10.0.0.2", vec![]),
        ],
    })
    .unwrap()
}

fn up() -> JobOutcome {
    JobOutcome::Checked(Ok(CheckResult::Up))
}

fn down() -> JobOutcome {
    JobOutcome::Checked(Ok(CheckResult::Down))
}

/// One turn of the loop of an engine, with these outcomes of its jobs.
fn run_once(engine: &mut Engine, outcomes: Vec<JobOutcome>) {
    assert!(matches!(engine.run(RunEvent::Ready { cancelled: false }), RunAction::Cycle));
    assert_eq!(engine.plan().len(), outcomes.len());
    engine.record_cycle(&outcomes, Instant::now());
    let done = RunEvent::CycleDone { elapsed: Duration::from_millis(5) };
    assert!(matches!(engine.run(done), RunAction::Wait(_)));
    assert!(matches!(engine.run(RunEvent::WaitEnded { cancelled: true }), RunAction::Stop));
}

#[test]
fn test_engine_run_updates_state() {
    let mut config = test_config();
    config.interval_secs = 1;
    for outcome in [up(), down(), JobOutcome::NoPermit] {
        let mut engine = Engine::new(config.clone()).unwrap();
        run_once(&mut engine, vec![outcome]);
        let cell_key = CellKey::Host("localhost".to_string());
        let cell_state = engine.shared_state().get(&cell_key).unwrap();
        assert!(cell_state.up_since.is_some() || cell_state.down_since.is_some());
    }
}

#[test]
fn test_engine_host_and_service_independent() {
    let config = Config {
        interval_secs: 1,
        concurrency: 10,
        hosts: vec![host("test-host", "127.0.0.1", vec![service("ssh", 22, "tcp")])],
    };
    let mut engine = Engine::new(config).unwrap();
    run_once(&mut engine, vec![up(), down()]);
    let state = engine.shared_state();

    let host_key = CellKey::Host("test-host".to_string());
    let svc_key = service_key("test-host", "ssh");
    assert!(state.contains_key(&host_key));
    assert!(state.contains_key(&svc_key));

    let host_state = state.get(&host_key).unwrap();
    let svc_state = state.get(&svc_key).unwrap();
    assert!(host_state.up_since.is_some() || host_state.down_since.is_some());
    assert!(svc_state.up_since.is_some() || svc_state.down_since.is_some());
}

#[test]
fn plan_probes_every_cell_in_order() {
    let mut web = service("web", 443, "https");
    web.path = Some("/health".to_string());
    web.expected_status = Some(204);
    let mut api = service("api", 65536 + 80, "http");
    api.path = Some(String::new());
    let config = Config {
        interval_secs: 60,
        concurrency: 5,
        hosts: vec![host("a", "10.0.0.1", vec![web, api, service("ssh", 22, "HTTP")])],
    };
    let engine = Engine::new(config).unwrap();
    let jobs = engine.plan();
    let keys: Vec<CellKey> = jobs.iter().map(|j| j.key.clone()).collect();
    assert_eq!(keys, engine.cell_order());
    assert!(matches!(&jobs[0].probe, Probe::Ping { address } if address == "10.0.0.1"));
    match &jobs[1].probe {
        Probe::Http { address, port, path, use_tls, expected_status, timeout } => {
            assert_eq!((address.as_str(), *port, path.as_str()), ("10.0.0.1", 443, "/health"));
            assert!(*use_tls);
            assert_eq!(*expected_status, Some(204));
            assert_eq!(*timeout, Duration::from_secs(5));
        }
        probe => panic!("expected HTTPS, got {:?}", probe),
    }
    match &jobs[2].probe {
        Probe::Http { port, path, use_tls, expected_status, .. } => {
            assert_eq!((*port, path.as_str(), *use_tls, *expected_status), (80, "/", false, None));
        }
        probe => panic!("expected HTTP, got {:?}", probe),
    }
    match &jobs[3].probe {
        Probe::Port { address, port, timeout } => {
            assert_eq!((address.as_str(), *port), ("10.0.0.1", 22));
            assert_eq!(*timeout, Duration::from_secs(5));
        }
        probe => panic!("expected a port, got {:?}", probe),
    }
}

#[test]
fn whatever_goes_wrong_is_down() {
    assert_eq!(settle(&up()), CheckResult::Up);
    assert_eq!(settle(&down()), CheckResult::Down);
    let failed = JobOutcome::Checked(Err(CheckError::Http("x".to_string())));
    assert_eq!(settle(&failed), CheckResult::Down);
    assert_eq!(settle(&JobOutcome::NoPermit), CheckResult::Down);
    assert_eq!(settle(&JobOutcome::Lost), CheckResult::Down);
}

#[test]
fn cycle_reports_what_changed() {
    let mut engine = small_engine();
    let now = Instant::now() + Duration::from_secs(5);
    let report = engine.record_cycle(&vec![up(), down(), JobOutcome::Lost], now);
    assert_eq!((report.hosts, report.services, report.down), (2, 1, 2));
    let said: Vec<String> = report.transitions.iter().map(|t| t.message()).collect();
    assert_eq!(
        said,
        vec![
            "a/ssh transitioned: Up → Down".to_string(),
            "b transitioned: Up → Down".to_string()
        ]
    );
    assert_eq!(
        report.message("4.21"),
        "Cycle complete: 2 hosts, 1 services, 2 down, 4.21s"
    );
    let state = engine.shared_state();
    let b = state.get(&CellKey::Host("b".to_string())).unwrap();
    assert_eq!(b.status, CheckResult::Down);
    assert_eq!(b.down_since, Some(now));
    assert!(b.up_since.is_none());
}

#[test]
fn cells_change_on_their_own() {
    let mut engine = small_engine();
    let now = Instant::now();
    engine.record_cycle(&vec![up(), down(), up()], now);
    let state = engine.shared_state();
    let host_state = state.get(&CellKey::Host("a".to_string())).unwrap();
    let svc_state = state.get(&service_key("a", "ssh")).unwrap();
    assert!(host_state.up_since.is_some() && host_state.down_since.is_none());
    assert!(svc_state.up_since.is_none() && svc_state.down_since.is_some());
}

#[test]
fn no_news_changes_nothing() {
    let mut engine = small_engine();
    let start = Instant::now();
    engine.record_cycle(&vec![down(), up(), up()], start);
    let later = start + Duration::from_secs(30);
    let report = engine.record_cycle(&vec![down(), up(), up()], later);
    assert!(report.transitions.is_empty());
    assert_eq!(report.down, 1);
    let a = engine.shared_state().get(&CellKey::Host("a".to_string())).unwrap();
    assert_eq!(a.down_since, Some(start));
    let last = later + Duration::from_secs(30);
    let report = engine.record_cycle(&vec![up(), up(), up()], last);
    assert_eq!(report.transitions.len(), 1);
    assert_eq!(report.transitions[0].message(), "a transitioned: Down → Up");
    let a = engine.shared_state().get(&CellKey::Host("a".to_string())).unwrap();
    assert_eq!((a.up_since, a.down_since), (Some(last), None));
}

#[test]
fn services_of_one_name_share_a_cell() {
    let mut engine = Engine::new(Config {
        interval_secs: 30,
        concurrency: 3,
        hosts: vec![host(
            "a",
            "10.0.0.1",
            vec![service("s", 1, "tcp"), service("s", 2, "tcp")],
        )],
    })
    .unwrap();
    let report = engine.record_cycle(&vec![up(), up(), down()], Instant::now());
    assert_eq!((report.services, report.down, report.transitions.len()), (2, 1, 1));
    let report = engine.record_cycle(&vec![up(), down(), up()], Instant::now());
    assert_eq!((report.down, report.transitions.len()), (0, 1));
}

#[test]
fn test_engine_concurrency_cap() {
    let config = Config {
        interval_secs: 1,
        concurrency: 3,
        hosts: (0..10).map(|i| host(&format!("host-{}", i), "198.51.100.1", vec![])).collect(),
    };
    let engine = Engine::new(config).unwrap();
    let guard = engine.guard();
    let held: Vec<_> =
        (0..3).map(|_| guard.semaphore().try_acquire_owned().unwrap()).collect();
    assert!(engine.guard().semaphore().try_acquire_owned().is_err());
    drop(held);
    assert_eq!(guard.available_permits(), 3);
}

#[test]
fn cycles_begin_an_interval_apart() {
    let engine = small_engine();
    assert!(matches!(engine.run(RunEvent::Ready { cancelled: true }), RunAction::Stop));
    assert!(matches!(engine.run(RunEvent::Ready { cancelled: false }), RunAction::Cycle));
    let elapsed = Duration::from_millis(4210);
    match engine.run(RunEvent::CycleDone { elapsed }) {
        RunAction::Wait(rest) => assert_eq!(rest + elapsed, Duration::from_secs(30)),
        action => panic!("expected a wait, got {:?}", action),
    }
    let exact = RunEvent::CycleDone { elapsed: Duration::from_secs(30) };
    assert!(matches!(engine.run(exact), RunAction::Again));
    let late = RunEvent::CycleDone { elapsed: Duration::from_secs(31) };
    assert!(matches!(engine.run(late), RunAction::Again));
    assert!(matches!(engine.run(RunEvent::WaitEnded { cancelled: true }), RunAction::Stop));
    assert!(matches!(engine.run(RunEvent::WaitEnded { cancelled: false }), RunAction::Again));
}

#[test]
fn cancelled_cycle_stops_the_engine() {
    let engine = small_engine();
    assert!(matches!(engine.run(RunEvent::Ready { cancelled: false }), RunAction::Cycle));
    assert!(matches!(engine.run(RunEvent::CycleCut), RunAction::Stop));
}

#[test]
fn guards_of_an_engine_share_their_permits() {
    let mut engine = small_engine();
    let before = engine.guard();
    engine.record_cycle(&vec![up(), up(), up()], Instant::now());
    let permit = before.semaphore().try_acquire_owned().unwrap();
    assert_eq!(engine.guard().available_permits(), 2);
    drop(permit);
    assert_eq!(engine.guard().available_permits(), 3);
}

#[test]
fn counters_count_up_by_what_passes() {
    let since = Instant::now();
    let down = HostState { status: CheckResult::Down, up_since: None, down_since: Some(since) };
    let mut last = Duration::ZERO;
    for millis in [0u64, 1, 250, 60_000, 86_400_000] {
        let shown = down.status_duration(since + Duration::from_millis(millis));
        assert_eq!(shown, Duration::from_millis(millis));
        assert!(shown >= last);
        last = shown;
    }
    assert_eq!(down.uptime_at(since + Duration::from_secs(9)), Duration::ZERO);
}

#[test]
fn counters_follow_the_clock() {
    let since = Instant::now() - Duration::from_secs(90);
    let up = HostState { status: CheckResult::Up, up_since: Some(since), down_since: None };
    let down = HostState { status: CheckResult::Down, up_since: None, down_since: Some(since) };
    assert!(up.uptime_duration() >= Duration::from_secs(90));
    assert!(down.downtime_duration() >= Duration::from_secs(90));
    assert!(HostState::new().up_since.unwrap() <= Instant::now());
}

#[test]
fn table_holds_one_value_for_a_key() {
    let mut table = CellTable::new();
    assert!(table.is_empty());
    let (host, svc) = (CellKey::Host("a/s".to_string()), service_key("a", "s"));
    table.insert(host.clone(), CheckResult::Up);
    table.insert(svc.clone(), CheckResult::Down);
    assert_eq!(table.get(&host), Some(&CheckResult::Up));
    assert_eq!(table.get(&svc), Some(&CheckResult::Down));
    assert_eq!(table.count(CheckResult::Down), 1);
    table.insert(host.clone(), CheckResult::Down);
    assert_eq!(table.get(&host), Some(&CheckResult::Down));
    assert_eq!(table.count(CheckResult::Down), 2);
    assert_eq!(table.get(&service_key("s", "a")), None);
}
