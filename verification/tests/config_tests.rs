use tmonitor::check::{IoError, IoErrorKind};
use tmonitor::config::{
    byte_offset_to_line, default_concurrency, default_interval, default_port, default_service_type,
    truncate_hostnames, Config, ConfigError, HostConfig, LoadEvent, LoadStep, ServiceConfig,
    Spanned,
};

/// The bytes at which the values of a key stand, in the sections of a kind.
fn value_starts(content: &str, section: &str, key: &str) -> Vec<usize> {
    let mut starts = Vec::new();
    let mut current = String::new();
    let mut at = 0;
    let prefix = format!("{} = ", key);
    for line in content.split_inclusive('\n') {
        let text = line.trim();
        if text.starts_with('[') {
            current = text.to_string();
        } else if current == section && text.starts_with(prefix.as_str()) {
            starts.push(at + prefix.len());
        }
        at += line.len();
    }
    starts
}

fn text_of(table: &toml::Table, key: &str) -> String {
    table.get(key).and_then(|v| v.as_str()).unwrap_or("").to_string()
}

fn parse(content: &str) -> Result<Config, String> {
    let table: toml::Table = content.parse().map_err(|e: toml::de::Error| e.to_string())?;
    let names = value_starts(content, "[[hosts]]", "name");
    let ports = value_starts(content, "[[hosts.services]]", "port");
    let mut hosts = Vec::new();
    let mut n_ports = 0;
    let empty = Vec::new();
    let listed = table.get("hosts").and_then(|v| v.as_array()).unwrap_or(&empty);
    for (i, host) in listed.iter().enumerate() {
        let host = host.as_table().unwrap();
        let mut services = Vec::new();
        let none = Vec::new();
        for svc in host.get("services").and_then(|v| v.as_array()).unwrap_or(&none) {
            let svc = svc.as_table().unwrap();
            let port = match svc.get("port").and_then(|v| v.as_integer()) {
                Some(p) => {
                    let start = ports[n_ports];
                    n_ports += 1;
                    Spanned::new(start..start + p.to_string().len(), p as u32)
                }
                None => default_port(),
            };
            services.push(ServiceConfig {
                name: text_of(svc, "name"),
                port,
                service_type: default_service_type(),
                path: None,
                expected_status: None,
                danger_accept_invalid_certs: false,
            });
        }
        let name = text_of(host, "name");
        hosts.push(HostConfig {
            name: Spanned::new(names[i]..names[i] + name.len() + 2, name),
            address: text_of(host, "address"),
            services,
        });
    }
    let number = |key: &str| table.get(key).and_then(|v| v.as_integer());
    Ok(Config {
        interval_secs: number("interval_secs").map_or(default_interval(), |n| n as u64),
        concurrency: number("concurrency").map_or(default_concurrency(), |n| n as usize),
        hosts,
    })
}

/// Loads the configuration from a file that holds `content`.
fn load(content: &str) -> Result<Config, ConfigError> {
    let mut event = LoadEvent::Begin(Some("/etc/tmonitor.toml".to_string()));
    loop {
        event = match Config::load(event) {
            LoadStep::Probe { path, required } => {
                assert_eq!(path, "/etc/tmonitor.toml");
                assert!(required);
                LoadEvent::Probed { path, required, exists: true, is_file: true }
            }
            LoadStep::Read(path) => {
                assert_eq!(path, "/etc/tmonitor.toml");
                LoadEvent::Read(Ok(content.to_string()))
            }
            LoadStep::Parse(text) => {
                let parsed = parse(&text);
                LoadEvent::Parsed { content: text, parsed }
            }
            LoadStep::Done(outcome) => return outcome,
        };
    }
}

/// Loads the configuration from a path that is not a readable file.
fn load_from(path: Option<&str>, exists: bool, is_file: bool) -> Result<Config, ConfigError> {
    match Config::load(LoadEvent::Begin(path.map(|p| p.to_string()))) {
        LoadStep::Probe { path, required } => {
            match Config::load(LoadEvent::Probed { path, required, exists, is_file }) {
                LoadStep::Done(outcome) => outcome,
                _ => panic!("expected the loading to end"),
            }
        }
        _ => panic!("expected a path to be looked at"),
    }
}

#[test]
fn test_valid_config_parses() {
    let toml = r#"
interval_secs = 30
concurrency = 5

[[hosts]]
name = "router"
address = "192.168.1.1"

[[hosts.services]]
name = "ssh"
port = 22
"#;
    let config = load(toml).unwrap();
    assert_eq!(config.interval_secs, 30);
    assert_eq!(config.concurrency, 5);
    assert_eq!(config.hosts.len(), 1);
    assert_eq!(config.hosts[0].name.get_ref(), "router");
    assert_eq!(*config.hosts[0].services[0].port.get_ref(), 22);
}

#[test]
fn test_default_config_when_no_file_and_no_flag() {
    let config = load_from(None, false, false).unwrap();
    assert_eq!(config.interval_secs, 60);
    assert_eq!(config.concurrency, 10);
    assert_eq!(config.hosts.len(), 1);
    assert_eq!(config.hosts[0].address, "127.0.0.1");
    assert_eq!(config.hosts[0].name.get_ref(), "localhost");
    assert!(config.hosts[0].services.is_empty());
}

#[test]
fn test_config_file_not_found() {
    let result = load_from(Some("/nonexistent/path/tmonitor.toml"), false, false);
    assert!(result.is_err());
    match result.unwrap_err() {
        ConfigError::Io(e) => {
            assert_eq!(e.kind, IoErrorKind::NotFound);
            assert_eq!(e.message, "config file not found: /nonexistent/path/tmonitor.toml");
        }
        e => panic!("expected Io, got {:?}", e),
    }
}

#[test]
fn test_config_path_is_directory() {
    let result = load_from(Some("/tmp"), true, false);
    assert!(result.is_err());
    match result.unwrap_err() {
        ConfigError::BadPath(path) => assert_eq!(path, "/tmp"),
        _ => panic!("expected BadPath error"),
    }
}

#[test]
fn test_hostname_truncation() {
    let toml = r#"
[[hosts]]
name = "this-is-a-very-long-hostname-exceeding-22-chars"
address = "10.0.0.1"
"#;
    let config = load(toml).unwrap();
    assert_eq!(config.hosts[0].name.get_ref().chars().count(), 23);
    assert!(config.hosts[0].name.get_ref().ends_with('…'));
    assert_eq!(config.hosts[0].name.get_ref(), "this-is-a-very-long-ho…");
}

#[test]
fn test_empty_hostname_fails() {
    let toml = r#"
[[hosts]]
name = ""
address = "10.0.0.1"
"#;
    let result = load(toml);
    assert!(result.is_err());
    match result.unwrap_err() {
        ConfigError::EmptyHostname { .. } => {}
        _ => panic!("expected EmptyHostname error"),
    }
}

#[test]
fn test_duplicate_hostname_fails() {
    let toml = r#"
[[hosts]]
name = "router"
address = "10.0.0.1"

[[hosts]]
name = "router"
address = "10.0.0.2"
"#;
    let result = load(toml);
    assert!(result.is_err());
    match result.unwrap_err() {
        ConfigError::DuplicateHostname { .. } => {}
        _ => panic!("expected DuplicateHostname error"),
    }
}

#[test]
fn test_invalid_port_zero_fails() {
    let toml = r#"
[[hosts]]
name = "server"
address = "10.0.0.1"

[[hosts.services]]
name = "bad"
port = 0
"#;
    let result = load(toml);
    assert!(result.is_err());
    match result.unwrap_err() {
        ConfigError::InvalidPort { .. } => {}
        _ => panic!("expected InvalidPort error"),
    }
}

#[test]
fn test_valid_port_65535_accepted() {
    let toml = r#"
[[hosts]]
name = "server"
address = "10.0.0.1"

[[hosts.services]]
name = "rpc"
port = 65535
"#;
    let config = load(toml).unwrap();
    assert_eq!(*config.hosts[0].services[0].port.get_ref(), 65535);
}

#[test]
fn test_concurrency_zero_fails() {
    let toml = r#"
concurrency = 0

[[hosts]]
name = "server"
address = "10.0.0.1"
"#;
    let result = load(toml);
    assert!(result.is_err());
    match result.unwrap_err() {
        ConfigError::Io(e) => {
            assert_eq!(e.kind, IoErrorKind::InvalidInput);
            assert_eq!(e.message, "concurrency must be greater than 0");
        }
        e => panic!("expected Io, got {:?}", e),
    }
}

#[test]
fn test_interval_zero_fails() {
    let toml = r#"
interval_secs = 0

[[hosts]]
name = "server"
address = "10.0.0.1"
"#;
    let result = load(toml);
    assert!(result.is_err());
    match result.unwrap_err() {
        ConfigError::InvalidInterval(0) => {}
        e => panic!("expected InvalidInterval(0), got {:?}", e),
    }
}

#[test]
fn test_config_with_defaults_applied() {
    let toml = r#"
[[hosts]]
name = "switch"
address = "10.0.0.2"
"#;
    let config = load(toml).unwrap();
    assert_eq!(config.interval_secs, 60);
    assert_eq!(config.concurrency, 10);
}

#[test]
fn test_invalid_toml_syntax() {
    let toml = "[[hosts\nname = \"x\"\naddress = \"1.2.3.4\"\n";
    let result = load(toml);
    assert!(result.is_err());
    let msg = result.unwrap_err().message();
    assert!(msg.contains("line") || msg.contains("line"), "expected line number in error: {}", msg);
    assert!(msg.starts_with("failed to parse TOML config: "));
}

#[test]
fn test_empty_hostname_with_line() {
    let toml = "[[hosts]]\nname = \"\"\naddress = \"10.0.0.1\"\n";
    let result = load(toml);
    assert!(result.is_err());
    let msg = result.unwrap_err().message();
    assert!(msg.contains("line ~2"), "expected line ~2 in error: {}", msg);
    assert!(msg.contains("empty name"), "expected 'empty name' in error: {}", msg);
    assert_eq!(msg, "host at index 0 has an empty name (line ~2)");
}

#[test]
fn test_duplicate_hostname_with_lines() {
    let toml = "[[hosts]]\nname = \"router\"\naddress = \"10.0.0.1\"\n\n[[hosts]]\nname = \"router\"\naddress = \"10.0.0.2\"\n";
    let result = load(toml);
    assert!(result.is_err());
    let msg = result.unwrap_err().message();
    assert!(msg.contains("line ~2"), "expected first line reference in error: {}", msg);
    assert!(msg.contains("line ~6"), "expected second line reference in error: {}", msg);
    assert_eq!(
        msg,
        "duplicate hostname 'router' at index 1 (line ~6), first defined at index 0 (line ~2)"
    );
}

#[test]
fn test_port_zero_with_line() {
    let toml = "[[hosts]]\nname = \"server\"\naddress = \"10.0.0.1\"\n\n[[hosts.services]]\nname = \"bad\"\nport = 0\n";
    let result = load(toml);
    assert!(result.is_err());
    let msg = result.unwrap_err().message();
    assert!(msg.contains("line ~7"), "expected line ~7 in error: {}", msg);
    assert!(msg.contains("invalid port"), "expected 'invalid port' in error: {}", msg);
    assert_eq!(msg, "host 'server' service 'bad' has invalid port 0 (line ~7)");
}

#[test]
fn test_port_65536_fails() {
    let toml = "[[hosts]]\nname = \"server\"\naddress = \"10.0.0.1\"\n\n[[hosts.services]]\nname = \"bad\"\nport = 65536\n";
    let result = load(toml);
    assert!(result.is_err());
    let msg = result.unwrap_err().message();
    assert!(msg.contains("invalid port"), "expected 'invalid port' in error: {}", msg);
}

#[test]
fn test_truncation_collision_fails() {
    let toml = "[[hosts]]\nname = \"abc-01234567890123456789\"\naddress = \"10.0.0.1\"\n\n[[hosts]]\nname = \"abc-0123456789012345678X\"\naddress = \"10.0.0.2\"\n";
    let result = load(toml);
    assert!(result.is_err());
    match result.unwrap_err() {
        ConfigError::TruncationCollision { name1, name2, line1, line2 } => {
            assert_eq!(name1, "abc-012345678901234567…");
            assert_eq!(name2, name1);
            assert_eq!((line1, line2), (2, 6));
        }
        e => panic!("expected TruncationCollision, got: {:?}", e),
    }
}

#[test]
fn messages_of_the_other_errors() {
    assert_eq!(
        ConfigError::Io(IoError { kind: IoErrorKind::Other, message: "denied".to_string() })
            .message(),
        "failed to read config file: denied"
    );
    assert_eq!(
        ConfigError::BadPath("/tmp".to_string()).message(),
        "config path is not a file: /tmp"
    );
    assert_eq!(
        ConfigError::InvalidInterval(0).message(),
        "interval_secs must be at least 1, got 0"
    );
    assert_eq!(
        ConfigError::TruncationCollision {
            name1: "a".to_string(),
            name2: "b".to_string(),
            line1: 12,
            line2: 345
        }
        .message(),
        "hostnames 'a' and 'b' become identical after truncation to 22 characters (lines ~12 and ~345)"
    );
}

#[test]
fn default_file_is_looked_for_and_read() {
    match Config::load(LoadEvent::Begin(None)) {
        LoadStep::Probe { path, required } => {
            assert_eq!(path, "tmonitor.toml");
            assert!(!required);
            let probed = LoadEvent::Probed { path, required, exists: true, is_file: true };
            match Config::load(probed) {
                LoadStep::Read(path) => assert_eq!(path, "tmonitor.toml"),
                _ => panic!("expected the file to be read"),
            }
        }
        _ => panic!("expected a path to be looked at"),
    }
    let failed = IoError { kind: IoErrorKind::Other, message: "denied".to_string() };
    match Config::load(LoadEvent::Read(Err(failed))) {
        LoadStep::Done(Err(ConfigError::Io(e))) => assert_eq!(e.message, "denied"),
        _ => panic!("expected the loading to fail"),
    }
}

#[test]
fn white_space_is_no_name() {
    let toml = "[[hosts]]\nname = \"web\"\naddress = \"a\"\n\n[[hosts]]\nname = \" \u{3000} \"\naddress = \"b\"\n";
    match load(toml).unwrap_err() {
        ConfigError::EmptyHostname { index, line } => assert_eq!((index, line), (1, 6)),
        e => panic!("expected EmptyHostname, got: {:?}", e),
    }
}

#[test]
fn first_problem_is_told() {
    // The port of the first host comes before the name of the second one.
    let toml = "[[hosts]]\nname = \"a\"\naddress = \"x\"\n\n[[hosts.services]]\nname = \"s\"\nport = 70000\n\n[[hosts]]\nname = \"\"\naddress = \"y\"\n";
    match load(toml).unwrap_err() {
        ConfigError::InvalidPort { host, service, port, line } => {
            assert_eq!((host.as_str(), service.as_str(), port, line), ("a", "s", 70000, 7));
        }
        e => panic!("expected InvalidPort, got: {:?}", e),
    }
}

#[test]
fn missing_port_is_invalid() {
    let toml = "[[hosts]]\nname = \"a\"\naddress = \"x\"\n\n[[hosts.services]]\nname = \"s\"\n";
    match load(toml).unwrap_err() {
        ConfigError::InvalidPort { port, line, .. } => assert_eq!((port, line), (0, 1)),
        e => panic!("expected InvalidPort, got: {:?}", e),
    }
}

#[test]
fn lines_count_breaks_before() {
    let content = "ä\nb\n\nc";
    assert_eq!(byte_offset_to_line(content, 0), 1);
    assert_eq!(byte_offset_to_line(content, 2), 1);
    assert_eq!(byte_offset_to_line(content, 3), 2);
    assert_eq!(byte_offset_to_line(content, 5), 3);
    assert_eq!(byte_offset_to_line(content, 6), 4);
    assert_eq!(byte_offset_to_line(content, 1000), 4);
    for (offset, _) in content.char_indices() {
        let expected = content[..offset].chars().filter(|&c| c == '\n').count() + 1;
        assert_eq!(byte_offset_to_line(content, offset), expected);
    }
}

#[test]
fn truncation_keeps_the_rest() {
    let mut config = parse(
        "[[hosts]]\nname = \"äbcdefghijklmnopqrstuvwxyz\"\naddress = \"x\"\n\n[[hosts.services]]\nname = \"s\"\nport = 1\n\n[[hosts]]\nname = \"abcdefghijklmnopqrstuv\"\naddress = \"y\"\n",
    )
    .unwrap();
    let span = config.hosts[0].name.span();
    truncate_hostnames(&mut config);
    assert_eq!(config.hosts[0].name.get_ref(), "äbcdefghijklmnopqrstuv…");
    assert_eq!(config.hosts[0].name.span(), span);
    assert_eq!(config.hosts[0].address, "x");
    assert_eq!(config.hosts[0].services.len(), 1);
    assert_eq!(config.hosts[1].name.get_ref(), "abcdefghijklmnopqrstuv");
    // Once more changes nothing.
    truncate_hostnames(&mut config);
    assert_eq!(config.hosts[0].name.get_ref(), "äbcdefghijklmnopqrstuv…");
}

#[test]
fn accepted_config_is_valid() {
    let toml = "[[hosts]]\nname = \"this-is-a-very-long-hostname\"\naddress = \"x\"\n\n[[hosts.services]]\nname = \"s\"\nport = 1\n";
    let config = load(toml).unwrap();
    assert!(config.validate(toml).is_ok());
    assert!(config.validate_truncation_collisions(toml).is_ok());
    let default = Config::default_config();
    assert!(default.validate("").is_ok());
}
