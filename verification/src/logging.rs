//! Debug logging: whether a line is written, and what it says. The log
//! file itself is opened and appended to by the application.

use vstd::prelude::*;
use crate::text::{collect_chars, opt_view, str_chars};

verus! {

/// The logger's settings: whether debug logging is on, and the file the
/// lines go to.
#[derive(Debug, Clone)]
pub struct Logger {
    pub enabled: bool,
    pub path: String,
}

/// `level` left-aligned in a field of five characters.
pub open spec fn spec_pad_level(level: Seq<char>) -> Seq<char> {
    if level.len() < 5 {
        level + Seq::new((5 - level.len()) as nat, |i: int| ' ')
    } else {
        level
    }
}

/// One log line: `[timestamp] LEVEL message` and a newline, the level
/// padded to five characters.
pub open spec fn spec_log_line(timestamp: Seq<char>, level: Seq<char>, message: Seq<char>) -> Seq<
    char,
> {
    seq!['['] + timestamp + seq![']', ' '] + spec_pad_level(level) + seq![' '] + message + seq!['\n']
}

/// The line `logger` writes for a message, if it writes one: only while
/// debug logging is enabled.
pub open spec fn spec_written(logger: Logger, timestamp: Seq<char>, level: Seq<char>, message: Seq<char>) -> Option<
    Seq<char>,
> {
    if logger.enabled {
        Some(spec_log_line(timestamp, level, message))
    } else {
        None
    }
}

fn push_all(out: &mut Vec<char>, s: &str)
    ensures
        final(out)@ == old(out)@ + s@,
{
    let cs = str_chars(s);
    let mut i: usize = 0;
    while i < cs.len()
        invariant
            i <= cs@.len(),
            cs@ == s@,
            out@ == old(out)@ + cs@.take(i as int),
        decreases cs.len() - i,
    {
        out.push(cs[i]);
        assert(cs@.take(i + 1) =~= cs@.take(i as int).push(cs@[i as int]));
        i = i + 1;
    }
    assert(cs@.take(cs@.len() as int) =~= cs@);
}

/// Formats one log line.
pub fn format_line(timestamp: &str, level: &str, message: &str) -> (r: String)
    ensures
        r@ == spec_log_line(timestamp@, level@, message@),
{
    let mut out: Vec<char> = Vec::new();
    out.push('[');
    push_all(&mut out, timestamp);
    out.push(']');
    out.push(' ');
    let ghost before_level = out@;
    push_all(&mut out, level);
    let lv = str_chars(level);
    let mut n: usize = lv.len();
    while n < 5
        invariant
            lv@ == level@,
            lv@.len() <= n <= 5 || (n == lv@.len() && n >= 5),
            out@ == before_level + level@ + Seq::new((n - lv@.len()) as nat, |i: int| ' '),
        decreases 5 - n,
    {
        out.push(' ');
        assert(Seq::new((n + 1 - lv@.len()) as nat, |i: int| ' ') =~= Seq::new(
            (n - lv@.len()) as nat,
            |i: int| ' ',
        ).push(' '));
        n = n + 1;
    }
    assert(before_level + level@ + Seq::new((n - lv@.len()) as nat, |i: int| ' ') =~= before_level
        + spec_pad_level(level@));
    out.push(' ');
    push_all(&mut out, message);
    out.push('\n');
    assert(out@ =~= spec_log_line(timestamp@, level@, message@));
    collect_chars(out.as_slice())
}

/// Starts (or restarts) the logger with debug logging on or off and the
/// given log file. When debug logging is on, the line announcing it is
/// returned for writing.
pub fn init(debug: bool, path: String, timestamp: &str) -> (r: (Logger, Option<String>))
    ensures
        r.0.enabled == debug,
        r.0.path@ == path@,
        match r.1 {
            Some(line) => debug && line@ == spec_log_line(timestamp@, "INFO"@, "debug logging started"@),
            None => !debug,
        },
{
    let logger = Logger { enabled: debug, path };
    let line = write_log(&logger, timestamp, "INFO", "debug logging started");
    (logger, line)
}

/// The line to append to the log file for a message at `level`, or nothing
/// when debug logging is off.
pub fn write_log(logger: &Logger, timestamp: &str, level: &str, message: &str) -> (r: Option<String>)
    ensures
        opt_view(r) == spec_written(*logger, timestamp@, level@, message@),
{
    if logger.enabled {
        Some(format_line(timestamp, level, message))
    } else {
        None
    }
}

/// A message at level `DEBUG`.
pub fn debug(logger: &Logger, timestamp: &str, message: &str) -> (r: Option<String>)
    ensures
        opt_view(r) == spec_written(*logger, timestamp@, "DEBUG"@, message@),
{
    write_log(logger, timestamp, "DEBUG", message)
}

/// A message at level `INFO`.
pub fn info(logger: &Logger, timestamp: &str, message: &str) -> (r: Option<String>)
    ensures
        opt_view(r) == spec_written(*logger, timestamp@, "INFO"@, message@),
{
    write_log(logger, timestamp, "INFO", message)
}

/// A message at level `WARN`.
pub fn warn(logger: &Logger, timestamp: &str, message: &str) -> (r: Option<String>)
    ensures
        opt_view(r) == spec_written(*logger, timestamp@, "WARN"@, message@),
{
    write_log(logger, timestamp, "WARN", message)
}

/// A message at level `ERROR`.
pub fn error(logger: &Logger, timestamp: &str, message: &str) -> (r: Option<String>)
    ensures
        opt_view(r) == spec_written(*logger, timestamp@, "ERROR"@, message@),
{
    write_log(logger, timestamp, "ERROR", message)
}

} // verus!
