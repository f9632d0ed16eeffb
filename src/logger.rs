//! Settings of the rolling log file: size threshold, retention, level and
//! the packer for retired files, each read from a short text.

use vstd::prelude::*;
use vstd::string::*;
use crate::config::AppConfig;
use crate::text::{
    as_i64, as_u64, digit_value, digits_value, ends_with, find_from, first_match_from, is_prefix, is_suffix, parse_i64,
    parse_u64, same_text, signed_text, starts_with, unsigned_text,
};

verus! {

/// Size at which the active log file is rotated.
#[derive(Clone, Copy, Debug, PartialEq, Eq, Structural)]
pub enum LogSize {
    KB(u64),
    MB(u64),
    GB(u64),
}

/// Which retired log files are kept: a number of them, those younger than a
/// number of seconds, or all.
#[derive(Clone, Copy, Debug, PartialEq, Eq, Structural)]
pub enum RollingType {
    KeepNum(i64),
    KeepTime(u64),
    All,
}

#[derive(Clone, Copy, Debug, PartialEq, Eq, Structural)]
pub enum LogLevel {
    Error,
    Warn,
    Info,
    Debug,
    Trace,
}

/// How retired log files are compressed.
#[derive(Clone, Copy, Debug, PartialEq, Eq, Structural)]
pub enum PackerKind {
    LZ4,
    Zip,
    GZip,
    Plain,
}

pub open spec fn packer_of(s: Seq<char>) -> PackerKind {
    if s == "lz4"@ {
        PackerKind::LZ4
    } else if s == "zip"@ {
        PackerKind::Zip
    } else if s == "gzip"@ {
        PackerKind::GZip
    } else {
        PackerKind::Plain
    }
}

pub open spec fn level_of(s: Seq<char>) -> LogLevel {
    if s == "warn"@ {
        LogLevel::Warn
    } else if s == "error"@ {
        LogLevel::Error
    } else if s == "trace"@ {
        LogLevel::Trace
    } else if s == "info"@ {
        LogLevel::Info
    } else if s == "debug"@ {
        LogLevel::Debug
    } else {
        LogLevel::Info
    }
}

/// The number written before the first occurrence of `unit` in `s`.
pub open spec fn amount_before(s: Seq<char>, unit: Seq<char>) -> Option<u64> {
    match first_match_from(s, unit, 0) {
        Some(end) => as_u64(unsigned_text(s.subrange(0, end))),
        None => None,
    }
}

/// A size such as `100MB`, `512KB` or `2GB`; any other text means 100 MB.
/// `None` when the number is not an unsigned integer.
pub open spec fn temp_size_of(s: Seq<char>) -> Option<LogSize> {
    if is_suffix("MB"@, s) {
        match amount_before(s, "MB"@) {
            Some(n) => Some(LogSize::MB(n)),
            None => None,
        }
    } else if is_suffix("KB"@, s) {
        match amount_before(s, "KB"@) {
            Some(n) => Some(LogSize::KB(n)),
            None => None,
        }
    } else if is_suffix("GB"@, s) {
        match amount_before(s, "GB"@) {
            Some(n) => Some(LogSize::GB(n)),
            None => None,
        }
    } else {
        Some(LogSize::MB(100))
    }
}

/// The text between `head` and the first `)` after it.
pub open spec fn inside_parens(s: Seq<char>, head: Seq<char>) -> Option<Seq<char>> {
    match first_match_from(s, ")"@, head.len() as int) {
        Some(end) => Some(s.subrange(head.len() as int, end)),
        None => None,
    }
}

/// `KeepNum(n)` or `KeepTime(seconds)`; any other text keeps all files.
/// `None` when the closing parenthesis or the number is missing or malformed.
pub open spec fn rolling_of(s: Seq<char>) -> Option<RollingType> {
    if is_prefix("KeepNum("@, s) {
        match inside_parens(s, "KeepNum("@) {
            Some(t) => match as_i64(signed_text(t)) {
                Some(n) => Some(RollingType::KeepNum(n)),
                None => None,
            },
            None => None,
        }
    } else if is_prefix("KeepTime("@, s) {
        match inside_parens(s, "KeepTime("@) {
            Some(t) => match as_u64(unsigned_text(t)) {
                Some(n) => Some(RollingType::KeepTime(n)),
                None => None,
            },
            None => None,
        }
    } else {
        Some(RollingType::All)
    }
}

/// The packer named `lz4`, `zip` or `gzip`; any other name packs nothing.
pub fn choose_packer(packer: &str) -> (r: PackerKind)
    ensures
        r == packer_of(packer@),
{
    if same_text(packer, "lz4") {
        PackerKind::LZ4
    } else if same_text(packer, "zip") {
        PackerKind::Zip
    } else if same_text(packer, "gzip") {
        PackerKind::GZip
    } else {
        PackerKind::Plain
    }
}

fn amount_before_unit(arg: &str, unit: &str) -> (r: Option<u64>)
    ensures
        r == amount_before(arg@, unit@),
{
    match find_from(arg, unit, 0) {
        Some(end) => parse_u64(arg.substring_char(0, end)),
        None => None,
    }
}

/// Reads a rotation size.
pub fn str_to_temp_size(arg: &str) -> (r: Option<LogSize>)
    ensures
        r == temp_size_of(arg@),
{
    if ends_with(arg, "MB") {
        match amount_before_unit(arg, "MB") {
            Some(n) => Some(LogSize::MB(n)),
            None => None,
        }
    } else if ends_with(arg, "KB") {
        match amount_before_unit(arg, "KB") {
            Some(n) => Some(LogSize::KB(n)),
            None => None,
        }
    } else if ends_with(arg, "GB") {
        match amount_before_unit(arg, "GB") {
            Some(n) => Some(LogSize::GB(n)),
            None => None,
        }
    } else {
        Some(LogSize::MB(100))
    }
}

fn text_inside_parens<'a>(arg: &'a str, head: &str) -> (r: Option<&'a str>)
    ensures
        match r {
            Some(t) => inside_parens(arg@, head@) == Some(t@),
            None => inside_parens(arg@, head@) is None,
        },
{
    let start = head.unicode_len();
    match find_from(arg, ")", start) {
        Some(end) => Some(arg.substring_char(start, end)),
        None => None,
    }
}

/// Reads a retention rule.
pub fn str_to_rolling(arg: &str) -> (r: Option<RollingType>)
    ensures
        r == rolling_of(arg@),
{
    if starts_with(arg, "KeepNum(") {
        match text_inside_parens(arg, "KeepNum(") {
            Some(t) => match parse_i64(t) {
                Some(n) => Some(RollingType::KeepNum(n)),
                None => None,
            },
            None => None,
        }
    } else if starts_with(arg, "KeepTime(") {
        match text_inside_parens(arg, "KeepTime(") {
            Some(t) => match parse_u64(t) {
                Some(n) => Some(RollingType::KeepTime(n)),
                None => None,
            },
            None => None,
        }
    } else {
        Some(RollingType::All)
    }
}

/// Reads a log level; an unknown name means `Info`.
pub fn str_to_log_level(arg: &str) -> (r: LogLevel)
    ensures
        r == level_of(arg@),
{
    if same_text(arg, "warn") {
        LogLevel::Warn
    } else if same_text(arg, "error") {
        LogLevel::Error
    } else if same_text(arg, "trace") {
        LogLevel::Trace
    } else if same_text(arg, "info") {
        LogLevel::Info
    } else if same_text(arg, "debug") {
        LogLevel::Debug
    } else {
        LogLevel::Info
    }
}

/// The job's own rotation size and retention rule read as 100 MB and the 20
/// newest files.
pub proof fn lemma_job_log_texts()
    ensures
        temp_size_of("100MB"@) == Some(LogSize::MB(100)),
        rolling_of("KeepNum(20)"@) == Some(RollingType::KeepNum(20)),
{
    reveal_strlit("100MB");
    reveal_strlit("MB");
    reveal_strlit("KB");
    reveal_strlit("GB");
    let s = "100MB"@;
    let unit = "MB"@;
    assert(s.subrange(3, 5) =~= unit);
    assert(s.subrange(0, 2)[0] != unit[0]);
    assert(s.subrange(1, 3)[0] != unit[0]);
    assert(s.subrange(2, 4)[0] != unit[0]);
    assert(first_match_from(s, unit, 3) == Some(3int));
    assert(first_match_from(s, unit, 2) == Some(3int));
    assert(first_match_from(s, unit, 1) == Some(3int));
    assert(first_match_from(s, unit, 0) == Some(3int));
    let t = s.subrange(0, 3);
    assert(t.subrange(0, 3) =~= t);
    let t1 = seq!['1'];
    let t2 = seq!['1', '0'];
    assert(t1.drop_last() =~= Seq::<char>::empty());
    assert(digits_value(t1.drop_last()) == 0);
    assert(digit_value(t1.last()) == 1);
    assert(digits_value(t1) == 1);
    assert(t2.drop_last() =~= t1);
    assert(digits_value(t2) == 10);
    assert(t =~= t2.push('0'));
    assert(t.drop_last() =~= t2);
    assert(digits_value(t) == 100);
    assert(unsigned_text(t) == Some(100nat));

    reveal_strlit("KeepNum(20)");
    reveal_strlit("KeepNum(");
    reveal_strlit(")");
    let r = "KeepNum(20)"@;
    let head = "KeepNum("@;
    let close = ")"@;
    assert(r.subrange(0, 8) =~= head);
    assert(r.subrange(8, 9)[0] != close[0]);
    assert(r.subrange(9, 10)[0] != close[0]);
    assert(r.subrange(10, 11) =~= close);
    assert(first_match_from(r, close, 10) == Some(10int));
    assert(first_match_from(r, close, 9) == Some(10int));
    assert(first_match_from(r, close, 8) == Some(10int));
    let n = r.subrange(8, 10);
    assert(n.subrange(0, 2) =~= n);
    let n1 = seq!['2'];
    assert(n1.drop_last() =~= Seq::<char>::empty());
    assert(digits_value(n1.drop_last()) == 0);
    assert(digit_value(n1.last()) == 2);
    assert(digits_value(n1) == 2);
    assert(n.drop_last() =~= n1);
    assert(digits_value(n) == 20);
    assert(signed_text(n) == Some(20int));
}

/// Everything the rolling log file is opened with.
pub struct LogSettings {
    pub file_path: String,
    pub temp_size: LogSize,
    pub rolling: RollingType,
    pub level: LogLevel,
    pub excluded_module: String,
    pub packer: PackerKind,
    pub debug: bool,
}

/// The job's log: the configured file, rotated at 100 MB, the 20 newest
/// retired files kept and zipped, level `info`, and the SQL query tracer left
/// out.
pub fn log_settings(config: &AppConfig) -> (r: LogSettings)
    ensures
        r.file_path@ == config.log_dir_file_name@,
        r.temp_size == LogSize::MB(100),
        r.rolling == RollingType::KeepNum(20),
        r.level == LogLevel::Info,
        r.packer == PackerKind::Zip,
        r.excluded_module@ == "sqlx::query"@,
        r.debug == config.debug,
{
    proof {
        lemma_job_log_texts();
        reveal_strlit("info");
        reveal_strlit("warn");
        reveal_strlit("error");
        reveal_strlit("trace");
        reveal_strlit("zip");
        reveal_strlit("lz4");
        assert("info"@[0] != "warn"@[0]);
        assert("info"@.len() != "error"@.len());
        assert("info"@.len() != "trace"@.len());
        assert("zip"@[0] != "lz4"@[0]);
    }
    let temp_size = str_to_temp_size("100MB").unwrap();
    let rolling = str_to_rolling("KeepNum(20)").unwrap();
    LogSettings {
        file_path: config.log_dir_file_name.clone(),
        temp_size,
        rolling,
        level: str_to_log_level("info"),
        excluded_module: String::from_str("sqlx::query"),
        packer: choose_packer("zip"),
        debug: config.debug,
    }
}

} // verus!
