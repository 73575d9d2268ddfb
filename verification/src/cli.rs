//! The command line.

use crate::logging::{level_named, parse_level, words_name_levels};
use crate::text::{after_prefix, begins_with, has_prefix, same_text, without_prefix};
use vstd::prelude::*;
use vstd::string::*;
use vstd::utf8::*;

verus! {

/// What is printed on `--help`.
pub const USAGE: &'static str =
    "Usage: tmonitor [--config <path>] [--log-file <path>] [--log-level <level>]";

/// What the command line asks for.
#[derive(Debug)]
pub struct CliArgs {
    pub config_path: Option<String>,
    pub log_file: Option<String>,
    pub log_level: Option<String>,
}

/// A `CliArgs` with its texts as characters.
pub struct CliRequest {
    pub config_path: Option<Seq<char>>,
    pub log_file: Option<Seq<char>>,
    pub log_level: Option<Seq<char>>,
}

/// The characters of an optional text.
pub open spec fn chars_of(s: Option<String>) -> Option<Seq<char>> {
    match s {
        Some(t) => Some(t@),
        None => None,
    }
}

impl View for CliArgs {
    type V = CliRequest;

    open spec fn view(&self) -> CliRequest {
        CliRequest {
            config_path: chars_of(self.config_path),
            log_file: chars_of(self.log_file),
            log_level: chars_of(self.log_level),
        }
    }
}

/// Why the program ends before it begins.
#[derive(Debug)]
pub enum CliExit {
    Help,
    ConfigMissing,
    ConfigEmpty,
    LogFileMissing,
    LogFileEmpty,
    LogLevelMissing,
    InvalidLogLevel(String),
    Unknown(String),
}

/// A `CliExit` with its texts as characters.
pub enum CliEnd {
    Help,
    ConfigMissing,
    ConfigEmpty,
    LogFileMissing,
    LogFileEmpty,
    LogLevelMissing,
    InvalidLogLevel(Seq<char>),
    Unknown(Seq<char>),
}

impl View for CliExit {
    type V = CliEnd;

    open spec fn view(&self) -> CliEnd {
        match *self {
            CliExit::Help => CliEnd::Help,
            CliExit::ConfigMissing => CliEnd::ConfigMissing,
            CliExit::ConfigEmpty => CliEnd::ConfigEmpty,
            CliExit::LogFileMissing => CliEnd::LogFileMissing,
            CliExit::LogFileEmpty => CliEnd::LogFileEmpty,
            CliExit::LogLevelMissing => CliEnd::LogLevelMissing,
            CliExit::InvalidLogLevel(level) => CliEnd::InvalidLogLevel(level@),
            CliExit::Unknown(arg) => CliEnd::Unknown(arg@),
        }
    }
}

impl CliEnd {
    /// What is printed.
    pub open spec fn text(self) -> Seq<char> {
        match self {
            CliEnd::Help => USAGE@,
            CliEnd::ConfigMissing => "Error: --config requires a path argument"@,
            CliEnd::ConfigEmpty => "Error: --config= requires a non-empty path"@,
            CliEnd::LogFileMissing => "Error: --log-file requires a path argument"@,
            CliEnd::LogFileEmpty => "Error: --log-file= requires a non-empty path"@,
            CliEnd::LogLevelMissing => "Error: --log-level requires a level argument"@,
            CliEnd::InvalidLogLevel(level) => "Error: invalid log level '"@ + level
                + "'. Valid values: error, warn, info, debug"@,
            CliEnd::Unknown(arg) => "Error: unknown argument '"@ + arg + "'"@,
        }
    }
}

impl CliExit {
    /// Writes what is printed.
    pub fn message(&self) -> (message: String)
        ensures
            message@ == self@.text(),
            match *self {
                CliExit::Help => message@
                    == "Usage: tmonitor [--config <path>] [--log-file <path>] [--log-level <level>]"@,
                CliExit::ConfigMissing => message@ == "Error: --config requires a path argument"@,
                CliExit::ConfigEmpty => message@ == "Error: --config= requires a non-empty path"@,
                CliExit::LogFileMissing => message@ == "Error: --log-file requires a path argument"@,
                CliExit::LogFileEmpty => message@ == "Error: --log-file= requires a non-empty path"@,
                CliExit::LogLevelMissing => message@
                    == "Error: --log-level requires a level argument"@,
                CliExit::InvalidLogLevel(level) => message@ == "Error: invalid log level '"@
                    + level@ + "'. Valid values: error, warn, info, debug"@,
                CliExit::Unknown(arg) => message@ == "Error: unknown argument '"@ + arg@ + "'"@,
            },
    {
        match self {
            CliExit::Help => USAGE.to_owned(),
            CliExit::ConfigMissing => "Error: --config requires a path argument".to_owned(),
            CliExit::ConfigEmpty => "Error: --config= requires a non-empty path".to_owned(),
            CliExit::LogFileMissing => "Error: --log-file requires a path argument".to_owned(),
            CliExit::LogFileEmpty => "Error: --log-file= requires a non-empty path".to_owned(),
            CliExit::LogLevelMissing => "Error: --log-level requires a level argument".to_owned(),
            CliExit::InvalidLogLevel(level) => "Error: invalid log level '".to_owned().concat(
                level.as_str(),
            ).concat("'. Valid values: error, warn, info, debug"),
            CliExit::Unknown(arg) => "Error: unknown argument '".to_owned().concat(
                arg.as_str(),
            ).concat("'"),
        }
    }

    /// The exit code: to ask for help is no error.
    pub fn code(&self) -> (code: i32)
        ensures
            code == if self is Help {
                0i32
            } else {
                1
            },
    {
        match self {
            CliExit::Help => 0,
            _ => 1,
        }
    }
}

/// What `str::to_lowercase` makes of a text.
pub uninterp spec fn lowercase(s: Seq<char>) -> Seq<char>;

/// A text with its ASCII capitals in lower case.
pub open spec fn ascii_lowercase(s: Seq<char>) -> Seq<char> {
    s.map_values(
        |c: char|
            if 'A' <= c <= 'Z' {
                (c as u32 + 32) as char
            } else {
                c
            },
    )
}

/// `str::to_lowercase` puts a text in lower case, as Unicode has it. Of a text in
/// ASCII it changes the capitals only.
pub assume_specification[ str::to_lowercase ](s: &str) -> (lower: String)
    ensures
        lower@ == lowercase(s@),
        is_ascii_chars(s@) ==> lower@ == ascii_lowercase(s@),
;

/// Puts a text in lower case.
pub fn to_lower(s: &str) -> (lower: String)
    ensures
        lower@ == lowercase(s@),
        is_ascii_chars(s@) ==> lowercase(s@) == ascii_lowercase(s@),
{
    s.to_lowercase()
}

/// What a list of arguments asks for, beyond what `sofar` holds. Where a flag is
/// given twice the last one counts; the first thing wrong ends it all.
pub open spec fn parsed(args: Seq<Seq<char>>, sofar: CliRequest) -> Result<CliRequest, CliEnd>
    decreases args.len(),
{
    if args.len() == 0 {
        Ok(sofar)
    } else {
        let arg = args[0];
        let next = args.skip(1);
        let rest = args.skip(2);
        if arg == "--config"@ {
            if args.len() > 1 {
                parsed(rest, CliRequest { config_path: Some(args[1]), ..sofar })
            } else {
                Err(CliEnd::ConfigMissing)
            }
        } else if let Some(path) = after_prefix(arg, "--config="@) {
            if path.len() == 0 {
                Err(CliEnd::ConfigEmpty)
            } else {
                parsed(next, CliRequest { config_path: Some(path), ..sofar })
            }
        } else if arg == "--log-file"@ {
            if args.len() > 1 && !begins_with(args[1], "--"@) {
                parsed(rest, CliRequest { log_file: Some(args[1]), ..sofar })
            } else {
                Err(CliEnd::LogFileMissing)
            }
        } else if let Some(path) = after_prefix(arg, "--log-file="@) {
            if path.len() == 0 {
                Err(CliEnd::LogFileEmpty)
            } else {
                parsed(next, CliRequest { log_file: Some(path), ..sofar })
            }
        } else if arg == "--log-level"@ {
            if args.len() > 1 {
                let level = lowercase(args[1]);
                if level_named(level) is None {
                    Err(CliEnd::InvalidLogLevel(args[1]))
                } else {
                    parsed(rest, CliRequest { log_level: Some(level), ..sofar })
                }
            } else {
                Err(CliEnd::LogLevelMissing)
            }
        } else if let Some(given) = after_prefix(arg, "--log-level="@) {
            let level = lowercase(given);
            if level_named(level) is None {
                Err(CliEnd::InvalidLogLevel(level))
            } else {
                parsed(next, CliRequest { log_level: Some(level), ..sofar })
            }
        } else if arg == "--help"@ || arg == "-h"@ {
            Err(CliEnd::Help)
        } else {
            Err(CliEnd::Unknown(arg))
        }
    }
}

/// The arguments as characters.
pub open spec fn arg_texts(args: Seq<String>) -> Seq<Seq<char>> {
    args.map_values(|arg: String| arg@)
}

/// The request that no arguments make.
pub open spec fn no_request() -> CliRequest {
    CliRequest { config_path: None, log_file: None, log_level: None }
}

/// Reads the arguments of the command line, without the name of the program.
pub fn parse_args_from(args: &Vec<String>) -> (outcome: Result<CliArgs, CliExit>)
    ensures
        match outcome {
            Ok(asked) => parsed(arg_texts(args@), no_request()) == Ok::<CliRequest, CliEnd>(asked@),
            Err(end) => parsed(arg_texts(args@), no_request()) == Err::<CliRequest, CliEnd>(end@),
        },
{
    let ghost texts = arg_texts(args@);
    let mut asked = CliArgs { config_path: None, log_file: None, log_level: None };
    let mut i: usize = 0;
    assert(texts.skip(0) =~= texts);
    while i < args.len()
        invariant
            i <= args@.len(),
            texts == arg_texts(args@),
            parsed(texts, no_request()) == parsed(texts.skip(i as int), asked@),
        decreases args@.len() - i,
    {
        let arg: &str = args[i].as_str();
        proof {
            assert(texts.skip(i as int)[0] == arg@);
            assert(texts.skip(i as int).skip(1) =~= texts.skip(i + 1));
            if i + 1 < args@.len() {
                assert(texts.skip(i as int)[1] == args@[i + 1]@);
                assert(texts.skip(i as int).skip(2) =~= texts.skip(i + 2));
            }
        }
        if same_text(arg, "--config") {
            i = i + 1;
            if i < args.len() {
                asked.config_path = Some(args[i].clone());
            } else {
                return Err(CliExit::ConfigMissing);
            }
        } else if let Some(path) = without_prefix(arg, "--config=") {
            if path.as_str().is_empty() {
                return Err(CliExit::ConfigEmpty);
            }
            asked.config_path = Some(path);
        } else if same_text(arg, "--log-file") {
            i = i + 1;
            if i < args.len() && !has_prefix(args[i].as_str(), "--") {
                asked.log_file = Some(args[i].clone());
            } else {
                return Err(CliExit::LogFileMissing);
            }
        } else if let Some(path) = without_prefix(arg, "--log-file=") {
            if path.as_str().is_empty() {
                return Err(CliExit::LogFileEmpty);
            }
            asked.log_file = Some(path);
        } else if same_text(arg, "--log-level") {
            i = i + 1;
            if i < args.len() {
                let level: String = to_lower(args[i].as_str());
                if parse_level(level.as_str()).is_none() {
                    return Err(CliExit::InvalidLogLevel(args[i].clone()));
                }
                asked.log_level = Some(level);
            } else {
                return Err(CliExit::LogLevelMissing);
            }
        } else if let Some(given) = without_prefix(arg, "--log-level=") {
            let level: String = to_lower(given.as_str());
            if parse_level(level.as_str()).is_none() {
                return Err(CliExit::InvalidLogLevel(level));
            }
            asked.log_level = Some(level);
        } else if same_text(arg, "--help") || same_text(arg, "-h") {
            return Err(CliExit::Help);
        } else {
            return Err(CliExit::Unknown(args[i].clone()));
        }
        i = i + 1;
    }
    Ok(asked)
}

/// What becomes of the log.
#[derive(Debug)]
pub enum LoggingPlan {
    /// It is written to a file, from a level on.
    Write { path: String, level: String },
    /// A level was given, but no file: there is none, and that is said.
    LevelIgnored,
    /// There is none.
    Off,
}

/// What is said where a level is given and no file.
pub const LEVEL_IGNORED: &'static str = "Warning: --log-level requires --log-file to be effective";

/// Decides what becomes of the log. It is written only where a file is named,
/// from `info` on unless another level is given.
pub fn plan_logging(args: &CliArgs) -> (plan: LoggingPlan)
    ensures
        match args@.log_file {
            Some(file) => plan matches LoggingPlan::Write { path, level } && path@ == file && level@
                == match args@.log_level {
                Some(given) => given,
                None => "info"@,
            },
            None => plan == if args@.log_level is Some {
                LoggingPlan::LevelIgnored
            } else {
                LoggingPlan::Off
            },
        },
        plan is Write <==> args.log_file is Some,
        plan is LevelIgnored <==> args.log_file is None && args.log_level is Some,
        plan matches LoggingPlan::Write { path, level } ==> {
            &&& args.log_file matches Some(file) && path@ == file@
            &&& args.log_level matches Some(given) ==> level@ == given@
            &&& args.log_level is None ==> level@ == "info"@
        },
{
    match &args.log_file {
        Some(path) => {
            let level: String = match &args.log_level {
                Some(level) => level.clone(),
                None => "info".to_owned(),
            };
            LoggingPlan::Write { path: path.clone(), level }
        },
        None => if args.log_level.is_some() {
            LoggingPlan::LevelIgnored
        } else {
            LoggingPlan::Off
        },
    }
}

// ----------------------------------------------------------------------------- laws

/// A level that is asked for is one that there is.
pub proof fn level_asked_for_exists(args: Seq<Seq<char>>, sofar: CliRequest)
    requires
        sofar.log_level matches Some(level) ==> level_named(level) is Some,
    ensures
        parsed(args, sofar) matches Ok(asked) ==> (asked.log_level matches Some(level)
            ==> level_named(level) is Some),
    decreases args.len(),
{
    if args.len() > 0 {
        let arg = args[0];
        let next = args.skip(1);
        let rest = args.skip(2);
        if arg == "--config"@ {
            if args.len() > 1 {
                level_asked_for_exists(rest, CliRequest { config_path: Some(args[1]), ..sofar });
            }
        } else if let Some(path) = after_prefix(arg, "--config="@) {
            level_asked_for_exists(next, CliRequest { config_path: Some(path), ..sofar });
        } else if arg == "--log-file"@ {
            if args.len() > 1 {
                level_asked_for_exists(rest, CliRequest { log_file: Some(args[1]), ..sofar });
            }
        } else if let Some(path) = after_prefix(arg, "--log-file="@) {
            level_asked_for_exists(next, CliRequest { log_file: Some(path), ..sofar });
        } else if arg == "--log-level"@ {
            if args.len() > 1 && level_named(lowercase(args[1])) is Some {
                level_asked_for_exists(
                    rest,
                    CliRequest { log_level: Some(lowercase(args[1])), ..sofar },
                );
            }
        } else if let Some(given) = after_prefix(arg, "--log-level="@) {
            if level_named(lowercase(given)) is Some {
                level_asked_for_exists(
                    next,
                    CliRequest { log_level: Some(lowercase(given)), ..sofar },
                );
            }
        }
    }
}

proof fn prefix_is_taken_off(prefix: Seq<char>, value: Seq<char>)
    ensures
        after_prefix(prefix + value, prefix) == Some(value),
{
    let whole = prefix + value;
    assert(whole.subrange(0, prefix.len() as int) =~= prefix);
    assert(whole.subrange(prefix.len() as int, whole.len() as int) =~= value);
}

/// It makes no difference whether the value of a flag follows in an argument of
/// its own or behind an equals sign: for a path that is not empty and, as that of
/// a log file, does not look like a flag; and for a level that there is.
pub proof fn both_spellings_agree(value: Seq<char>, rest: Seq<Seq<char>>, sofar: CliRequest)
    ensures
        value.len() > 0 ==> parsed(seq!["--config"@, value] + rest, sofar) == parsed(
            seq!["--config="@ + value] + rest,
            sofar,
        ),
        value.len() > 0 && !begins_with(value, "--"@) ==> parsed(
            seq!["--log-file"@, value] + rest,
            sofar,
        ) == parsed(seq!["--log-file="@ + value] + rest, sofar),
        level_named(lowercase(value)) is Some ==> parsed(seq!["--log-level"@, value] + rest, sofar)
            == parsed(seq!["--log-level="@ + value] + rest, sofar),
{
    reveal_strlit("--config");
    reveal_strlit("--log-file");
    reveal_strlit("--log-level");
    reveal_strlit("--config=");
    reveal_strlit("--log-file=");
    reveal_strlit("--log-level=");
    prefix_is_taken_off("--config="@, value);
    prefix_is_taken_off("--log-file="@, value);
    prefix_is_taken_off("--log-level="@, value);
    flags_differ(value);
    assert((seq!["--config"@, value] + rest).skip(2) =~= rest);
    assert((seq!["--log-file"@, value] + rest).skip(2) =~= rest);
    assert((seq!["--log-level"@, value] + rest).skip(2) =~= rest);
    assert((seq!["--config="@ + value] + rest).skip(1) =~= rest);
    assert((seq!["--log-file="@ + value] + rest).skip(1) =~= rest);
    assert((seq!["--log-level="@ + value] + rest).skip(1) =~= rest);
}

/// No flag is taken for another.
proof fn flags_differ(value: Seq<char>)
    ensures
        "--config="@ + value != "--config"@,
        "--log-file"@ != "--config"@,
        after_prefix("--log-file"@, "--config="@) is None,
        "--log-file="@ + value != "--config"@,
        "--log-file="@ + value != "--log-file"@,
        after_prefix("--log-file="@ + value, "--config="@) is None,
        "--log-level"@ != "--config"@,
        "--log-level"@ != "--log-file"@,
        after_prefix("--log-level"@, "--config="@) is None,
        after_prefix("--log-level"@, "--log-file="@) is None,
        "--log-level="@ + value != "--config"@,
        "--log-level="@ + value != "--log-file"@,
        "--log-level="@ + value != "--log-level"@,
        after_prefix("--log-level="@ + value, "--config="@) is None,
        after_prefix("--log-level="@ + value, "--log-file="@) is None,
{
    reveal_strlit("--config");
    reveal_strlit("--log-file");
    reveal_strlit("--log-level");
    reveal_strlit("--config=");
    reveal_strlit("--log-file=");
    reveal_strlit("--log-level=");
    let c = "--config="@ + value;
    let f = "--log-file="@ + value;
    let l = "--log-level="@ + value;
    assert(c.len() > "--config"@.len());
    assert("--log-file"@[2] == 'l' && "--config"@[2] == 'c');
    assert("--config="@[2] == 'c');
    assert(f[2] == 'l');
    assert(f.len() > "--log-file"@.len());
    assert(l[2] == 'l' && l[6] == 'l');
    assert("--log-file"@[6] == 'f' && "--log-file="@[6] == 'f');
    assert("--log-level"@[6] == 'l');
    assert("--log-level"@[2] == 'l');
    assert(l.len() > "--log-level"@.len());
    differ_at("--log-file"@, "--config="@, 2);
    differ_at(f, "--config="@, 2);
    differ_at("--log-level"@, "--config="@, 2);
    differ_at("--log-level"@, "--log-file="@, 6);
    differ_at(l, "--config="@, 2);
    differ_at(l, "--log-file="@, 6);
}

proof fn differ_at(s: Seq<char>, prefix: Seq<char>, i: int)
    requires
        0 <= i < prefix.len(),
        i < s.len(),
        s[i] != prefix[i],
    ensures
        after_prefix(s, prefix) is None,
{
    if begins_with(s, prefix) {
        assert(s.subrange(0, prefix.len() as int)[i] == prefix[i]);
    }
}

/// A request reads the arguments as they were given: each of its three values is the
/// text of its own field.
pub proof fn request_tells_all_three(args: CliArgs)
    ensures
        args@.config_path is Some <==> args.config_path is Some,
        args@.log_file is Some <==> args.log_file is Some,
        args@.log_level is Some <==> args.log_level is Some,
        args.config_path matches Some(path) ==> args@.config_path == Some(path@),
        args.log_file matches Some(path) ==> args@.log_file == Some(path@),
        args.log_level matches Some(level) ==> args@.log_level == Some(level@),
        no_request().config_path is None,
        no_request().log_file is None,
        no_request().log_level is None,
{
}

/// A flag sets its own value and leaves the two others as they are, and reading goes
/// on behind it.
pub proof fn flag_sets_its_own_value(value: Seq<char>, rest: Seq<Seq<char>>, sofar: CliRequest)
    ensures
        parsed(seq!["--config"@, value] + rest, sofar) == parsed(
            rest,
            CliRequest {
                config_path: Some(value),
                log_file: sofar.log_file,
                log_level: sofar.log_level,
            },
        ),
        value.len() > 0 ==> parsed(seq!["--config="@ + value] + rest, sofar) == parsed(
            rest,
            CliRequest {
                config_path: Some(value),
                log_file: sofar.log_file,
                log_level: sofar.log_level,
            },
        ),
        !(value.len() >= 2 && value[0] == '-' && value[1] == '-') ==> parsed(
            seq!["--log-file"@, value] + rest,
            sofar,
        ) == parsed(
            rest,
            CliRequest {
                config_path: sofar.config_path,
                log_file: Some(value),
                log_level: sofar.log_level,
            },
        ),
        value.len() > 0 ==> parsed(seq!["--log-file="@ + value] + rest, sofar) == parsed(
            rest,
            CliRequest {
                config_path: sofar.config_path,
                log_file: Some(value),
                log_level: sofar.log_level,
            },
        ),
        is_level_word(lowercase(value)) ==> {
            let asked = CliRequest {
                config_path: sofar.config_path,
                log_file: sofar.log_file,
                log_level: Some(lowercase(value)),
            };
            &&& parsed(seq!["--log-level"@, value] + rest, sofar) == parsed(rest, asked)
            &&& parsed(seq!["--log-level="@ + value] + rest, sofar) == parsed(rest, asked)
        },
{
    reveal_strlit("--");
    words_name_levels(lowercase(value));
    prefix_is_taken_off("--config="@, value);
    prefix_is_taken_off("--log-file="@, value);
    prefix_is_taken_off("--log-level="@, value);
    flags_differ(value);
    if begins_with(value, "--"@) {
        assert(value.subrange(0, 2)[0] == value[0] && value.subrange(0, 2)[1] == value[1]);
    }
    assert((seq!["--config"@, value] + rest).skip(2) =~= rest);
    assert((seq!["--log-file"@, value] + rest).skip(2) =~= rest);
    assert((seq!["--log-level"@, value] + rest).skip(2) =~= rest);
    assert((seq!["--config="@ + value] + rest).skip(1) =~= rest);
    assert((seq!["--log-file="@ + value] + rest).skip(1) =~= rest);
    assert((seq!["--log-level="@ + value] + rest).skip(1) =~= rest);
}

/// Whether a word is one of those that name a level.
pub open spec fn is_level_word(word: Seq<char>) -> bool {
    word == "error"@ || word == "warn"@ || word == "info"@ || word == "debug"@
}

/// No arguments ask for no more. A flag without its value, with an empty one, or with
/// one that it cannot have ends it all, and so do a flag for help and what is no flag.
pub proof fn first_wrong_argument_ends_it(
    value: Seq<char>,
    rest: Seq<Seq<char>>,
    sofar: CliRequest,
)
    ensures
        parsed(seq![], sofar) == Ok::<CliRequest, CliEnd>(sofar),
        parsed(seq!["--config"@], sofar) == Err::<CliRequest, CliEnd>(CliEnd::ConfigMissing),
        parsed(seq!["--config="@] + rest, sofar) == Err::<CliRequest, CliEnd>(CliEnd::ConfigEmpty),
        parsed(seq!["--log-file"@], sofar) == Err::<CliRequest, CliEnd>(CliEnd::LogFileMissing),
        value.len() >= 2 && value[0] == '-' && value[1] == '-' ==> parsed(
            seq!["--log-file"@, value] + rest,
            sofar,
        ) == Err::<CliRequest, CliEnd>(CliEnd::LogFileMissing),
        parsed(seq!["--log-file="@] + rest, sofar) == Err::<CliRequest, CliEnd>(
            CliEnd::LogFileEmpty,
        ),
        parsed(seq!["--log-level"@], sofar) == Err::<CliRequest, CliEnd>(CliEnd::LogLevelMissing),
        !is_level_word(lowercase(value)) ==> {
            &&& parsed(seq!["--log-level"@, value] + rest, sofar) == Err::<CliRequest, CliEnd>(
                CliEnd::InvalidLogLevel(value),
            )
            &&& parsed(seq!["--log-level="@ + value] + rest, sofar) == Err::<CliRequest, CliEnd>(
                CliEnd::InvalidLogLevel(lowercase(value)),
            )
        },
        parsed(seq!["--help"@] + rest, sofar) == Err::<CliRequest, CliEnd>(CliEnd::Help),
        parsed(seq!["-h"@] + rest, sofar) == Err::<CliRequest, CliEnd>(CliEnd::Help),
        value != "--config"@ && !begins_with(value, "--config="@) && value != "--log-file"@
            && !begins_with(value, "--log-file="@) && value != "--log-level"@ && !begins_with(
            value,
            "--log-level="@,
        ) && value != "--help"@ && value != "-h"@ ==> parsed(seq![value] + rest, sofar) == Err::<
            CliRequest,
            CliEnd,
        >(CliEnd::Unknown(value)),
{
    reveal_strlit("--");
    reveal_strlit("--help");
    reveal_strlit("-h");
    reveal_strlit("--config");
    reveal_strlit("--log-file");
    reveal_strlit("--log-level");
    reveal_strlit("--config=");
    reveal_strlit("--log-file=");
    reveal_strlit("--log-level=");
    words_name_levels(lowercase(value));
    let none = Seq::<char>::empty();
    flags_differ(value);
    flags_differ(none);
    assert("--config="@ + none =~= "--config="@);
    assert("--log-file="@ + none =~= "--log-file="@);
    prefix_is_taken_off("--config="@, none);
    prefix_is_taken_off("--log-file="@, none);
    prefix_is_taken_off("--log-level="@, value);
    if value.len() >= 2 && value[0] == '-' && value[1] == '-' {
        assert(value.subrange(0, 2) =~= "--"@);
    }
    assert("--help"@[2] == 'h' && "--config"@[2] == 'c' && "--config="@[2] == 'c');
    assert("--log-file"@[2] == 'l' && "--log-file="@[2] == 'l');
    assert("--log-level"@[2] == 'l' && "--log-level="@[2] == 'l');
    differ_at("--help"@, "--config="@, 2);
    differ_at("--help"@, "--log-file="@, 2);
    differ_at("--help"@, "--log-level="@, 2);
    assert((seq!["--log-file"@, value] + rest)[1] == value);
    assert((seq!["--log-level"@, value] + rest)[1] == value);
    assert((seq![value] + rest)[0] == value);
}

/// Arguments are read in turn: what is asked for by those in front is what those behind
/// them add to.
pub proof fn arguments_are_read_in_turn(
    front: Seq<Seq<char>>,
    behind: Seq<Seq<char>>,
    sofar: CliRequest,
)
    ensures
        parsed(front, sofar) matches Ok(asked) ==> parsed(front + behind, sofar) == parsed(
            behind,
            asked,
        ),
    decreases front.len(),
{
    let all = front + behind;
    if front.len() == 0 {
        assert(all =~= behind);
    } else if parsed(front, sofar) is Ok {
        let arg = front[0];
        let next = front.skip(1);
        let rest = front.skip(2);
        assert(all[0] == arg);
        assert(all.skip(1) =~= next + behind);
        if front.len() > 1 {
            assert(all[1] == front[1]);
            assert(all.skip(2) =~= rest + behind);
        }
        if arg == "--config"@ {
            arguments_are_read_in_turn(
                rest,
                behind,
                CliRequest { config_path: Some(front[1]), ..sofar },
            );
        } else if let Some(path) = after_prefix(arg, "--config="@) {
            arguments_are_read_in_turn(
                next,
                behind,
                CliRequest { config_path: Some(path), ..sofar },
            );
        } else if arg == "--log-file"@ {
            arguments_are_read_in_turn(
                rest,
                behind,
                CliRequest { log_file: Some(front[1]), ..sofar },
            );
        } else if let Some(path) = after_prefix(arg, "--log-file="@) {
            arguments_are_read_in_turn(next, behind, CliRequest { log_file: Some(path), ..sofar });
        } else if arg == "--log-level"@ {
            arguments_are_read_in_turn(
                rest,
                behind,
                CliRequest { log_level: Some(lowercase(front[1])), ..sofar },
            );
        } else if let Some(given) = after_prefix(arg, "--log-level="@) {
            arguments_are_read_in_turn(
                next,
                behind,
                CliRequest { log_level: Some(lowercase(given)), ..sofar },
            );
        }
    }
}

/// Whether a flag is nowhere among the arguments, in either spelling.
pub open spec fn lacks_flag(args: Seq<Seq<char>>, flag: Seq<char>) -> bool {
    forall|i: int|
        0 <= i < args.len() ==> #[trigger] args[i] != flag && !begins_with(args[i], flag + seq!['='])
}

proof fn lacks_flag_behind(args: Seq<Seq<char>>, flag: Seq<char>, n: int)
    requires
        lacks_flag(args, flag),
        0 <= n <= args.len(),
    ensures
        lacks_flag(args.skip(n), flag),
{
    assert forall|i: int| 0 <= i < args.skip(n).len() implies #[trigger] args.skip(n)[i] != flag
        && !begins_with(args.skip(n)[i], flag + seq!['=']) by {
        assert(args.skip(n)[i] == args[i + n]);
    }
}

/// What is asked for stays as it is where its flag is not among the arguments,
/// whatever other flags are.
pub proof fn other_flags_leave_it(args: Seq<Seq<char>>, sofar: CliRequest)
    ensures
        parsed(args, sofar) matches Ok(asked) ==> {
            &&& lacks_flag(args, "--config"@) ==> asked.config_path == sofar.config_path
            &&& lacks_flag(args, "--log-file"@) ==> asked.log_file == sofar.log_file
            &&& lacks_flag(args, "--log-level"@) ==> asked.log_level == sofar.log_level
        },
    decreases args.len(),
{
    if args.len() > 0 && parsed(args, sofar) is Ok {
        let arg = args[0];
        let next = args.skip(1);
        let rest = args.skip(2);
        reveal_strlit("--config");
        reveal_strlit("--log-file");
        reveal_strlit("--log-level");
        reveal_strlit("--config=");
        reveal_strlit("--log-file=");
        reveal_strlit("--log-level=");
        assert("--config="@ =~= "--config"@ + seq!['=']);
        assert("--log-file="@ =~= "--log-file"@ + seq!['=']);
        assert("--log-level="@ =~= "--log-level"@ + seq!['=']);
        assert forall|flag: Seq<char>, n: int|
            #![trigger lacks_flag(args.skip(n), flag)]
            lacks_flag(args, flag) && 0 <= n <= args.len() implies lacks_flag(
            args.skip(n),
            flag,
        ) by {
            lacks_flag_behind(args, flag, n);
        }
        assert(lacks_flag(args, "--config"@) ==> lacks_flag(next, "--config"@));
        assert(lacks_flag(args, "--log-file"@) ==> lacks_flag(next, "--log-file"@));
        assert(lacks_flag(args, "--log-level"@) ==> lacks_flag(next, "--log-level"@));
        if args.len() > 1 {
            assert(lacks_flag(args, "--config"@) ==> lacks_flag(rest, "--config"@));
            assert(lacks_flag(args, "--log-file"@) ==> lacks_flag(rest, "--log-file"@));
            assert(lacks_flag(args, "--log-level"@) ==> lacks_flag(rest, "--log-level"@));
        }
        if arg == "--config"@ {
            other_flags_leave_it(rest, CliRequest { config_path: Some(args[1]), ..sofar });
        } else if let Some(path) = after_prefix(arg, "--config="@) {
            other_flags_leave_it(next, CliRequest { config_path: Some(path), ..sofar });
        } else if arg == "--log-file"@ {
            other_flags_leave_it(rest, CliRequest { log_file: Some(args[1]), ..sofar });
        } else if let Some(path) = after_prefix(arg, "--log-file="@) {
            other_flags_leave_it(next, CliRequest { log_file: Some(path), ..sofar });
        } else if arg == "--log-level"@ {
            other_flags_leave_it(rest, CliRequest { log_level: Some(lowercase(args[1])), ..sofar });
        } else if let Some(given) = after_prefix(arg, "--log-level="@) {
            other_flags_leave_it(next, CliRequest { log_level: Some(lowercase(given)), ..sofar });
        }
    }
}

/// The last flag of a kind counts, whatever was asked for before it and whatever other
/// flags follow.
pub proof fn last_flag_counts(
    front: Seq<Seq<char>>,
    value: Seq<char>,
    behind: Seq<Seq<char>>,
    sofar: CliRequest,
)
    requires
        parsed(front, sofar) is Ok,
    ensures
        lacks_flag(behind, "--config"@) ==> (parsed(
            front + (seq!["--config"@, value] + behind),
            sofar,
        ) matches Ok(asked) ==> asked.config_path == Some(value)),
        lacks_flag(behind, "--log-file"@) ==> (parsed(
            front + (seq!["--log-file"@, value] + behind),
            sofar,
        ) matches Ok(asked) ==> asked.log_file == Some(value)),
        lacks_flag(behind, "--log-level"@) ==> (parsed(
            front + (seq!["--log-level"@, value] + behind),
            sofar,
        ) matches Ok(asked) ==> asked.log_level == Some(lowercase(value))),
{
    let asked = parsed(front, sofar)->Ok_0;
    arguments_are_read_in_turn(front, seq!["--config"@, value] + behind, sofar);
    arguments_are_read_in_turn(front, seq!["--log-file"@, value] + behind, sofar);
    arguments_are_read_in_turn(front, seq!["--log-level"@, value] + behind, sofar);
    flag_sets_its_own_value(value, behind, asked);
    first_wrong_argument_ends_it(value, behind, asked);
    other_flags_leave_it(behind, CliRequest { config_path: Some(value), ..asked });
    other_flags_leave_it(behind, CliRequest { log_file: Some(value), ..asked });
    other_flags_leave_it(behind, CliRequest { log_level: Some(lowercase(value)), ..asked });
}

/// Flags ask for the same in any order.
pub proof fn order_of_flags_is_free(
    config: Seq<char>,
    file: Seq<char>,
    level: Seq<char>,
    rest: Seq<Seq<char>>,
    sofar: CliRequest,
)
    requires
        !(file.len() >= 2 && file[0] == '-' && file[1] == '-'),
        is_level_word(lowercase(level)),
    ensures
        parsed(seq!["--config"@, config] + (seq!["--log-file"@, file] + rest), sofar) == parsed(
            seq!["--log-file"@, file] + (seq!["--config"@, config] + rest),
            sofar,
        ),
        parsed(seq!["--config"@, config] + (seq!["--log-level"@, level] + rest), sofar) == parsed(
            seq!["--log-level"@, level] + (seq!["--config"@, config] + rest),
            sofar,
        ),
        parsed(seq!["--log-file"@, file] + (seq!["--log-level"@, level] + rest), sofar) == parsed(
            seq!["--log-level"@, level] + (seq!["--log-file"@, file] + rest),
            sofar,
        ),
{
    let by_config = CliRequest { config_path: Some(config), ..sofar };
    let by_file = CliRequest { log_file: Some(file), ..sofar };
    let by_level = CliRequest { log_level: Some(lowercase(level)), ..sofar };
    flag_sets_its_own_value(config, seq!["--log-file"@, file] + rest, sofar);
    flag_sets_its_own_value(config, seq!["--log-level"@, level] + rest, sofar);
    flag_sets_its_own_value(file, seq!["--config"@, config] + rest, sofar);
    flag_sets_its_own_value(file, seq!["--log-level"@, level] + rest, sofar);
    flag_sets_its_own_value(level, seq!["--config"@, config] + rest, sofar);
    flag_sets_its_own_value(level, seq!["--log-file"@, file] + rest, sofar);
    flag_sets_its_own_value(file, rest, by_config);
    flag_sets_its_own_value(level, rest, by_config);
    flag_sets_its_own_value(config, rest, by_file);
    flag_sets_its_own_value(level, rest, by_file);
    flag_sets_its_own_value(config, rest, by_level);
    flag_sets_its_own_value(file, rest, by_level);
}

/// What the program says of a level without a file is that it has no effect.
pub proof fn ignored_level_is_said()
    ensures
        LEVEL_IGNORED@ == "Warning: --log-level requires --log-file to be effective"@,
{
}

/// The arguments are read as they stand, and each way to end is told as it is.
pub proof fn arguments_and_ends_are_read_as_they_are(args: Seq<String>, i: int, end: CliExit)
    requires
        0 <= i < args.len(),
    ensures
        arg_texts(args).len() == args.len(),
        arg_texts(args)[i] == args[i]@,
        match end {
            CliExit::Help => end@ == CliEnd::Help,
            CliExit::ConfigMissing => end@ == CliEnd::ConfigMissing,
            CliExit::ConfigEmpty => end@ == CliEnd::ConfigEmpty,
            CliExit::LogFileMissing => end@ == CliEnd::LogFileMissing,
            CliExit::LogFileEmpty => end@ == CliEnd::LogFileEmpty,
            CliExit::LogLevelMissing => end@ == CliEnd::LogLevelMissing,
            CliExit::InvalidLogLevel(level) => end@ == CliEnd::InvalidLogLevel(level@),
            CliExit::Unknown(arg) => end@ == CliEnd::Unknown(arg@),
        },
{
}

}
