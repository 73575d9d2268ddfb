use std::time::Duration;
use tmonitor::check::{
    build_http_client, check_client_options, client_or_error, endpoint, http_request, judge_http, judge_probe, ping_host,
    CheckError, CheckResult, ConcurrencyError, ConcurrencyGuard, HttpReply, IoError, IoErrorKind,
    PingEvent, PingStep, ProbeReply,
};

#[test]
fn test_concurrency_guard_basic() {
    let guard = ConcurrencyGuard::new(5).unwrap();
    assert_eq!(guard.available_permits(), 5);

    let permit = guard.semaphore().try_acquire_owned().unwrap();
    assert_eq!(guard.available_permits(), 4);
    drop(permit);
    assert_eq!(guard.available_permits(), 5);
}

#[test]
fn test_concurrency_guard_max_enforced() {
    let guard = ConcurrencyGuard::new(3).unwrap();
    let p1 = guard.semaphore().try_acquire_owned().unwrap();
    let p2 = guard.semaphore().try_acquire_owned().unwrap();
    let p3 = guard.semaphore().try_acquire_owned().unwrap();
    assert_eq!(guard.available_permits(), 0);
    assert!(guard.clone().semaphore().try_acquire_owned().is_err());

    drop(p1);
    assert_eq!(guard.available_permits(), 1);
    drop(p2);
    drop(p3);
    assert_eq!(guard.available_permits(), 3);
}

#[test]
fn test_concurrency_guard_acquire_release_cycle() {
    let guard = ConcurrencyGuard::new(2).unwrap();

    for _ in 0..6 {
        let permit = guard.semaphore().try_acquire_owned().unwrap();
        assert!(guard.available_permits() <= 1);
        drop(permit);
    }
    assert_eq!(guard.available_permits(), 2);
}

#[test]
fn test_concurrency_guard_zero_capacity() {
    let result = ConcurrencyGuard::new(0);
    assert!(result.is_err());
    assert!(matches!(result, Err(ConcurrencyError::ZeroCapacity(0))));
}

#[test]
fn largest_guard_is_made() {
    assert_eq!(ConcurrencyGuard::new(usize::MAX / 8).unwrap().available_permits(), usize::MAX / 8);
}

#[test]
fn test_check_http_200_up() {
    assert_eq!(judge_http(HttpReply::Status(200), None), CheckResult::Up);
}

#[test]
fn test_check_http_404_down() {
    assert_eq!(judge_http(HttpReply::Status(404), None), CheckResult::Down);
}

#[test]
fn test_check_http_500_down() {
    assert_eq!(judge_http(HttpReply::Status(500), None), CheckResult::Down);
}

#[test]
fn test_check_http_expected_status_match() {
    assert_eq!(judge_http(HttpReply::Status(200), Some(200)), CheckResult::Up);
    assert_eq!(judge_http(HttpReply::Status(404), Some(404)), CheckResult::Up);
}

#[test]
fn test_check_http_expected_status_mismatch() {
    assert_eq!(judge_http(HttpReply::Status(301), Some(200)), CheckResult::Down);
}

#[test]
fn test_check_http_3xx_up_by_default() {
    assert_eq!(judge_http(HttpReply::Status(301), None), CheckResult::Up);
    assert_eq!(judge_http(HttpReply::Status(399), None), CheckResult::Up);
    assert_eq!(judge_http(HttpReply::Status(400), None), CheckResult::Down);
    assert_eq!(judge_http(HttpReply::Status(199), None), CheckResult::Down);
}

#[test]
fn test_check_http_closed_port_down() {
    assert_eq!(judge_http(HttpReply::Failed, None), CheckResult::Down);
}

#[test]
fn test_check_http_unreachable_down() {
    assert_eq!(judge_http(HttpReply::TimedOut, None), CheckResult::Down);
    assert_eq!(judge_http(HttpReply::TimedOut, Some(200)), CheckResult::Down);
}

#[test]
fn only_an_answer_is_up() {
    assert_eq!(judge_probe(ProbeReply::Answered), CheckResult::Up);
    assert_eq!(judge_probe(ProbeReply::Failed), CheckResult::Down);
    assert_eq!(judge_probe(ProbeReply::TimedOut), CheckResult::Down);
}

#[test]
fn ping_goes_to_an_address_or_what_it_resolves_to() {
    assert!(matches!(ping_host("127.0.0.1", PingEvent::Parsed(Some(7))), PingStep::Send(7)));
    assert!(matches!(ping_host::<u8>("host", PingEvent::Parsed(None)), PingStep::LookUp));
    let found = PingEvent::Resolved(Ok(vec![3, 4]));
    assert!(matches!(ping_host("host", found), PingStep::Send(3)));
    let reply = PingEvent::<u8>::Replied(ProbeReply::TimedOut);
    assert!(matches!(ping_host("host", reply), PingStep::Done(Ok(CheckResult::Down))));
}

#[test]
fn test_invalid_address() {
    match ping_host::<u8>("not-an-ip", PingEvent::Resolved(Err("no such host".to_string()))) {
        PingStep::Done(Err(e)) => {
            assert!(matches!(e, CheckError::InvalidAddress(_)));
            assert_eq!(e.message(), "invalid address: not-an-ip: no such host");
        }
        _ => panic!("expected an invalid address"),
    }
    match ping_host::<u8>("nowhere", PingEvent::Resolved(Ok(vec![]))) {
        PingStep::Done(Err(CheckError::InvalidAddress(why))) => {
            assert_eq!(why, "nowhere: no addresses found")
        }
        _ => panic!("expected an invalid address"),
    }
    match ping_host::<u8>("host", PingEvent::SocketFailed("not permitted".to_string())) {
        PingStep::Done(Err(e)) => assert_eq!(e.message(), "I/O error: not permitted"),
        _ => panic!("expected an input or output error"),
    }
}

#[test]
fn request_of_an_http_check() {
    let timeout = Duration::from_secs(5);
    let plain = http_request("10.0.0.1", 8080, "/health", false, timeout, None);
    assert_eq!(plain.url, "http://10.0.0.1:8080/health");
    assert_eq!(
        plain.headers,
        vec![("User-Agent".to_string(), "tmonitor/0.1.0".to_string())]
    );
    assert_eq!(plain.timeout, timeout);
    let secure = http_request("::1", 443, "/", true, timeout, Some("example.org"));
    assert_eq!(secure.url, "https://[::1]:443/");
    assert_eq!(secure.headers[1], ("Host".to_string(), "example.org".to_string()));
    let bracketed = http_request("[::1]", 80, "/", false, timeout, None);
    assert_eq!(bracketed.url, "http://[::1]:80/");
}

#[test]
fn endpoint_of_a_port_check() {
    assert_eq!(endpoint("10.0.0.1", 22), "10.0.0.1:22");
    assert_eq!(endpoint("host", 65535), "host:65535");
}

#[test]
fn client_is_built() {
    assert!(build_http_client(Duration::from_secs(2), false).is_ok());
    assert!(build_http_client(Duration::from_secs(2), true).is_ok());
    match client_or_error(Err("no certificates".to_string())) {
        Err(e) => assert_eq!(e.message(), "HTTP error: no certificates"),
        Ok(_) => panic!("expected an error"),
    }
}

#[test]
fn options_of_the_client() {
    for danger in [false, true] {
        let options = check_client_options(Duration::from_millis(300), danger);
        assert!(options.no_proxy && options.http1_only);
        assert_eq!(options.tcp_keepalive, Duration::from_secs(2));
        assert_eq!(options.connect_timeout, Duration::from_millis(300));
        assert_eq!(options.timeout, Duration::from_millis(300));
        assert_eq!(options.idle_connections_per_host, 0);
        assert_eq!(options.idle_timeout, Duration::ZERO);
        assert_eq!(options.redirect_limit, 5);
        assert_eq!(options.accept_invalid_certs, danger);
    }
}

#[test]
fn client_keeps_its_limits() {
    let brief = format!("{:?}", build_http_client(Duration::from_millis(300), true).unwrap());
    assert!(brief.contains("imeout: 300ms"), "no timeout in {}", brief);
    assert!(brief.contains("Limit(5)") || brief.contains("Limit(\n5"), "no limit in {}", brief);
    let long = format!("{:?}", build_http_client(Duration::from_secs(7), false).unwrap());
    assert!(long.contains("imeout: 7s"), "no timeout in {}", long);
}

#[test]
fn messages_of_the_errors() {
    assert_eq!(
        ConcurrencyError::ZeroCapacity(0).message(),
        "max_concurrent must be at least 1, got 0"
    );
    assert_eq!(ConcurrencyError::SemaphoreClosed.message(), "semaphore closed");
    let io = CheckError::Io(IoError { kind: IoErrorKind::Other, message: "x".to_string() });
    assert_eq!(io.message(), "I/O error: x");
}
