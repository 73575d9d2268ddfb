use tmonitor::cli::{parse_args_from, plan_logging, to_lower, CliArgs, CliExit, LoggingPlan};

fn args(list: &[&str]) -> Vec<String> {
    list.iter().map(|a| a.to_string()).collect()
}

fn parse(list: &[&str]) -> CliArgs {
    parse_args_from(&args(list)).unwrap()
}

fn refuse(list: &[&str]) -> CliExit {
    parse_args_from(&args(list)).unwrap_err()
}

fn assert_no_log(args: &CliArgs) {
    assert!(args.log_file.is_none());
    assert!(args.log_level.is_none());
}

#[test]
fn test_parse_args_no_args() {
    let result = parse(&[]);
    assert!(result.config_path.is_none());
    assert_no_log(&result);
}

#[test]
fn test_parse_args_with_config() {
    let result = parse(&["--config", "/path/to/config.toml"]);
    assert_eq!(result.config_path, Some("/path/to/config.toml".to_string()));
    assert_no_log(&result);
}

#[test]
fn test_parse_args_with_config_equals() {
    let result = parse(&["--config=/path/to/config.toml"]);
    assert_eq!(result.config_path, Some("/path/to/config.toml".to_string()));
    assert_no_log(&result);
}

#[test]
fn test_parse_args_log_file() {
    let result = parse(&["--log-file", "/tmp/test.log"]);
    assert!(result.config_path.is_none());
    assert_eq!(result.log_file, Some("/tmp/test.log".to_string()));
    assert!(result.log_level.is_none());
}

#[test]
fn test_parse_args_log_file_equals() {
    let result = parse(&["--log-file=/tmp/test.log"]);
    assert_eq!(result.log_file, Some("/tmp/test.log".to_string()));
    assert!(result.log_level.is_none());
}

#[test]
fn test_parse_args_log_level() {
    let result = parse(&["--log-level", "debug"]);
    assert!(result.log_file.is_none());
    assert_eq!(result.log_level, Some("debug".to_string()));
}

#[test]
fn test_parse_args_log_level_equals() {
    let result = parse(&["--log-level=debug"]);
    assert!(result.log_file.is_none());
    assert_eq!(result.log_level, Some("debug".to_string()));
}

#[test]
fn test_parse_args_log_file_and_level() {
    let result = parse(&["--log-file", "/tmp/t.log", "--log-level", "warn"]);
    assert_eq!(result.log_file, Some("/tmp/t.log".to_string()));
    assert_eq!(result.log_level, Some("warn".to_string()));
}

#[test]
fn test_parse_args_all_flags() {
    let result = parse(&["--config", "cfg.toml", "--log-file", "log.txt", "--log-level", "error"]);
    assert_eq!(result.config_path, Some("cfg.toml".to_string()));
    assert_eq!(result.log_file, Some("log.txt".to_string()));
    assert_eq!(result.log_level, Some("error".to_string()));
}

#[test]
fn test_parse_args_log_level_case_insensitive() {
    let result = parse(&["--log-level", "DEBUG"]);
    assert_eq!(result.log_level, Some("debug".to_string()));
}

#[test]
fn refusals_and_their_words() {
    let said = |list: &[&str]| refuse(list).message();
    assert_eq!(said(&["--config"]), "Error: --config requires a path argument");
    assert_eq!(said(&["--config="]), "Error: --config= requires a non-empty path");
    assert_eq!(said(&["--log-file"]), "Error: --log-file requires a path argument");
    assert_eq!(said(&["--log-file", "--config"]), "Error: --log-file requires a path argument");
    assert_eq!(said(&["--log-file="]), "Error: --log-file= requires a non-empty path");
    assert_eq!(said(&["--log-level"]), "Error: --log-level requires a level argument");
    assert_eq!(
        said(&["--log-level", "Loud"]),
        "Error: invalid log level 'Loud'. Valid values: error, warn, info, debug"
    );
    assert_eq!(
        said(&["--log-level=LÄUT"]),
        "Error: invalid log level 'läut'. Valid values: error, warn, info, debug"
    );
    assert_eq!(said(&["--config=a", "extra"]), "Error: unknown argument 'extra'");
    assert_eq!(
        said(&["-h"]),
        "Usage: tmonitor [--config <path>] [--log-file <path>] [--log-level <level>]"
    );
    assert!(matches!(refuse(&["--help"]), CliExit::Help));
    assert_eq!(refuse(&["--help"]).code(), 0);
    assert_eq!(refuse(&["--version"]).code(), 1);
}

#[test]
fn first_problem_ends_it_and_last_value_counts() {
    assert!(matches!(refuse(&["--config=", "--help"]), CliExit::ConfigEmpty));
    assert!(matches!(refuse(&["--help", "--config="]), CliExit::Help));
    assert_eq!(parse(&["--config=a", "--config", "b"]).config_path, Some("b".to_string()));
    // A path may look like a flag behind --config, and may even be empty.
    assert_eq!(parse(&["--config", "--help"]).config_path, Some("--help".to_string()));
    assert_eq!(parse(&["--config", ""]).config_path, Some("".to_string()));
}

#[test]
fn both_spellings_give_the_same() {
    for level in ["error", "WARN", "Info", "debug"] {
        let apart = parse(&["--log-level", level]);
        let joined = parse(&[format!("--log-level={}", level).as_str()]);
        assert_eq!(apart.log_level, joined.log_level);
        assert_eq!(apart.log_level, Some(level.to_lowercase()));
    }
}

#[test]
fn lower_case_follows_unicode() {
    assert_eq!(to_lower("ÀB-Ω"), "àb-ω");
    assert_eq!(to_lower("[AZ] az 09"), "[az] az 09");
}

#[test]
fn log_is_written_only_to_a_file() {
    match plan_logging(&parse(&["--log-file=f"])) {
        LoggingPlan::Write { path, level } => {
            assert_eq!((path.as_str(), level.as_str()), ("f", "info"))
        }
        plan => panic!("expected a log, got {:?}", plan),
    }
    match plan_logging(&parse(&["--log-file=f", "--log-level=WARN"])) {
        LoggingPlan::Write { level, .. } => assert_eq!(level, "warn"),
        plan => panic!("expected a log, got {:?}", plan),
    }
    assert!(matches!(plan_logging(&parse(&["--log-level=warn"])), LoggingPlan::LevelIgnored));
    assert!(matches!(plan_logging(&parse(&[])), LoggingPlan::Off));
}
