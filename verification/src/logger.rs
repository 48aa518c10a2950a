//! Logging front end.
//!
//! The engine keeps an explicit logger value instead of global state: records
//! below the active filter are dropped, the rest are buffered until a sink
//! (serial or framebuffer writer, supplied by the surrounding shell) drains
//! them.

use vstd::prelude::*;

verus! {

/// Severity of a single log record.
#[derive(Clone, Copy, PartialEq, Eq, Structural, Debug)]
pub enum Level {
    Error,
    Warn,
    Info,
    Debug,
    Trace,
}

/// Upper bound on the records that are kept.
#[derive(Clone, Copy, PartialEq, Eq, Structural, Debug)]
pub enum LevelFilter {
    Off,
    Error,
    Warn,
    Info,
    Debug,
    Trace,
}

/// Numeric rank of a filter; `Off` is 0, `Trace` is 5.
pub open spec fn filter_rank(f: LevelFilter) -> int {
    match f {
        LevelFilter::Off => 0,
        LevelFilter::Error => 1,
        LevelFilter::Warn => 2,
        LevelFilter::Info => 3,
        LevelFilter::Debug => 4,
        LevelFilter::Trace => 5,
    }
}

/// Numeric rank of a record level; `Error` is 1, `Trace` is 5.
pub open spec fn level_rank(l: Level) -> int {
    match l {
        Level::Error => 1,
        Level::Warn => 2,
        Level::Info => 3,
        Level::Debug => 4,
        Level::Trace => 5,
    }
}

/// A record is visible when its level does not exceed the filter.
pub open spec fn level_enabled(l: Level, f: LevelFilter) -> bool {
    level_rank(l) <= filter_rank(f)
}

/// Encodes a filter as its numeric rank.
pub fn level_filter_to_usize(filter: LevelFilter) -> (r: usize)
    ensures
        r == filter_rank(filter),
{
    match filter {
        LevelFilter::Off => 0,
        LevelFilter::Error => 1,
        LevelFilter::Warn => 2,
        LevelFilter::Info => 3,
        LevelFilter::Debug => 4,
        LevelFilter::Trace => 5,
    }
}

/// Decodes a numeric rank back into a filter; out-of-range values fall back
/// to `Off`.
pub fn usize_to_level_filter(val: usize) -> (r: LevelFilter)
    ensures
        0 <= val <= 5 ==> filter_rank(r) == val,
        val > 5 ==> r == LevelFilter::Off,
{
    match val {
        0 => LevelFilter::Off,
        1 => LevelFilter::Error,
        2 => LevelFilter::Warn,
        3 => LevelFilter::Info,
        4 => LevelFilter::Debug,
        5 => LevelFilter::Trace,
        _ => LevelFilter::Off,
    }
}

/// A sink that carries finished log lines to the outside world (a serial
/// port, a framebuffer console). Implemented by the surrounding shell.
pub trait LogWriter {
    fn write_line(&mut self, line: &str);
}

/// Buffering logger with an adjustable level filter.
pub struct Logger {
    level_filter: LevelFilter,
    lines: Vec<String>,
}

impl Logger {
    /// The active filter.
    pub closed spec fn spec_level(&self) -> LevelFilter {
        self.level_filter
    }

    /// The buffered lines, oldest first.
    pub closed spec fn spec_lines(&self) -> Seq<Seq<char>> {
        self.lines.deep_view()
    }

    /// True when a record of level `l` would be kept.
    pub fn enabled(&self, l: Level) -> (r: bool)
        ensures
            r == level_enabled(l, self.spec_level()),
    {
        level_filter_to_usize(level_to_filter(l)) <= level_filter_to_usize(self.level_filter)
    }

    /// Buffers `message` when its level passes the filter, drops it
    /// otherwise.
    pub fn log(&mut self, l: Level, message: &str) -> (kept: bool)
        ensures
            kept == level_enabled(l, old(self).spec_level()),
            final(self).spec_level() == old(self).spec_level(),
            final(self).spec_lines() == if level_enabled(l, old(self).spec_level()) {
                old(self).spec_lines().push(message@)
            } else {
                old(self).spec_lines()
            },
    {
        if self.enabled(l) {
            self.lines.push(message.to_owned());
            proof {
                assert(self.lines.deep_view() =~= old(self).lines.deep_view().push(message@));
            }
            true
        } else {
            proof {
                assert(self.lines.deep_view() =~= old(self).lines.deep_view());
            }
            false
        }
    }

    /// Hands every buffered line to `sink` and empties the buffer.
    pub fn flush<W: LogWriter>(&mut self, sink: &mut W)
        ensures
            final(self).spec_level() == old(self).spec_level(),
            final(self).spec_lines() == Seq::<Seq<char>>::empty(),
    {
        let mut i: usize = 0;
        let n = self.lines.len();
        while i < n
            invariant
                n == self.lines.len(),
                i <= n,
                self.level_filter == old(self).level_filter,
            decreases n - i,
        {
            sink.write_line(self.lines[i].as_str());
            i = i + 1;
        }
        self.lines = Vec::new();
        proof {
            assert(self.lines.deep_view() =~= Seq::<Seq<char>>::empty());
        }
    }

    /// Number of buffered lines.
    pub fn buffered(&self) -> (r: usize)
        ensures
            r == self.spec_lines().len(),
    {
        self.lines.len()
    }
}

/// The filter that keeps exactly the records of level `l` and above.
fn level_to_filter(l: Level) -> (r: LevelFilter)
    ensures
        filter_rank(r) == level_rank(l),
{
    match l {
        Level::Error => LevelFilter::Error,
        Level::Warn => LevelFilter::Warn,
        Level::Info => LevelFilter::Info,
        Level::Debug => LevelFilter::Debug,
        Level::Trace => LevelFilter::Trace,
    }
}

/// Creates the logger with the given initial filter and no buffered lines.
pub fn init_global_logger(max_level: LevelFilter) -> (r: Logger)
    ensures
        r.spec_level() == max_level,
        r.spec_lines() == Seq::<Seq<char>>::empty(),
{
    let l = Logger { level_filter: max_level, lines: Vec::new() };
    proof {
        assert(l.lines.deep_view() =~= Seq::<Seq<char>>::empty());
    }
    l
}

/// Changes the active filter; buffered lines are kept.
pub fn set_log_level(logger: &mut Logger, level: LevelFilter)
    ensures
        final(logger).spec_level() == level,
        final(logger).spec_lines() == old(logger).spec_lines(),
{
    logger.level_filter = level;
}

/// The active filter.
pub fn get_log_level(logger: &Logger) -> (r: LevelFilter)
    ensures
        r == logger.spec_level(),
{
    logger.level_filter
}

} // verus!
