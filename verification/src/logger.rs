//! In-memory log buffer shown in the log panel: a bounded window of the
//! most recent entries.

use std::collections::VecDeque;
use std::sync::Arc;
use std::sync::RwLock;
use vstd::prelude::*;
use crate::text::is_datetime_text;

verus! {

/// `std::sync::RwLock`, carried through opaquely.
#[verifier::external_type_specification]
#[verifier::external_body]
#[verifier::reject_recursive_types(T)]
pub struct ExRwLock<T: ?Sized>(RwLock<T>);

/// Severity of a log entry.
#[derive(Debug, Clone, Copy, PartialEq, Eq, Structural)]
pub enum LogLevel {
    Debug,
    Info,
    Warn,
    Error,
}

/// The label printed for each level.
pub open spec fn level_label(level: LogLevel) -> Seq<char> {
    match level {
        LogLevel::Debug => "DEBUG"@,
        LogLevel::Info => "INFO"@,
        LogLevel::Warn => "WARN"@,
        LogLevel::Error => "ERROR"@,
    }
}

impl LogLevel {
    /// The label of this level.
    pub fn as_str(&self) -> (s: &'static str)
        ensures
            s@ == level_label(*self),
    {
        match self {
            LogLevel::Debug => "DEBUG",
            LogLevel::Info => "INFO",
            LogLevel::Warn => "WARN",
            LogLevel::Error => "ERROR",
        }
    }
}

/// One line of the log.
#[derive(Debug, Clone)]
pub struct LogEntry {
    pub timestamp: String,
    pub level: LogLevel,
    pub message: String,
}

/// The window of the last `max` elements of `s` (all of `s` when it is short enough).
pub open spec fn keep_last<A>(s: Seq<A>, max: nat) -> Seq<A> {
    if s.len() <= max {
        s
    } else {
        s.subrange(s.len() - max, s.len() as int)
    }
}

/// What logging `level`/`message` does to the entries `old`: the new entry,
/// stamped with a local time, is appended and the window is kept.
pub open spec fn logged(
    old: Seq<LogEntry>,
    new: Seq<LogEntry>,
    max: nat,
    level: LogLevel,
    message: Seq<char>,
) -> bool {
    exists|e: LogEntry|
        #![trigger keep_last(old.push(e), max)]
        e.level == level && e.message@ == message && is_datetime_text(e.timestamp@) && new
            == keep_last(old.push(e), max)
}

/// A bounded log that keeps only the most recent `max_entries` entries.
pub struct Logger {
    entries: VecDeque<LogEntry>,
    max_entries: usize,
}

impl View for Logger {
    type V = Seq<LogEntry>;

    closed spec fn view(&self) -> Seq<LogEntry> {
        self.entries@
    }
}

/// `chrono::Local::now()` formatted as `%Y-%m-%d %H:%M:%S`: the current local
/// time. Which time it is depends on the clock and is not stated; what is
/// stated is the shape chrono's numeric fields give it (a zero-padded year of
/// at least four digits, signed outside 0 to 9999, and two-digit month, day,
/// hour, minute and second).
#[verifier::external_body]
fn local_timestamp() -> (r: String)
    ensures
        is_datetime_text(r@),
{
    chrono::Local::now().format("%Y-%m-%d %H:%M:%S").to_string()
}

/// `RwLock::new`: a lock around `value`. Nothing is stated of the lock: the
/// value a `std::sync::RwLock` has for Verus does not hold its contents, which
/// change through shared references.
#[verifier::external_body]
fn new_rwlock<T>(value: T) -> RwLock<T> {
    RwLock::new(value)
}

impl Logger {
    /// The capacity this logger was made with.
    pub closed spec fn max(&self) -> nat {
        self.max_entries as nat
    }

    /// The buffer never holds more entries than its capacity.
    #[verifier::type_invariant]
    spec fn within_capacity(&self) -> bool {
        self.entries@.len() <= self.max_entries
    }

    /// An empty logger keeping at most `max_entries` entries.
    pub fn new(max_entries: usize) -> (l: Self)
        ensures
            l@ == Seq::<LogEntry>::empty(),
            l.max() == max_entries,
    {
        Logger { entries: VecDeque::with_capacity(max_entries), max_entries }
    }

    /// Appends `entry`, then drops the oldest entries until the capacity is respected.
    pub fn push_entry(&mut self, entry: LogEntry)
        ensures
            final(self).max() == old(self).max(),
            final(self)@ == keep_last(old(self)@.push(entry), old(self).max()),
    {
        proof {
            use_type_invariant(&*self);
        }
        let max = self.max_entries;
        let mut entries: VecDeque<LogEntry> = VecDeque::new();
        std::mem::swap(&mut entries, &mut self.entries);
        let ghost pushed = entries@.push(entry);
        entries.push_back(entry);
        while entries.len() > max
            invariant
                entries@.len() <= pushed.len(),
                entries@ == pushed.subrange(pushed.len() - entries@.len(), pushed.len() as int),
                pushed.len() <= max + 1,
                pushed.len() <= max ==> entries@.len() == pushed.len(),
                entries@.len() >= max || entries@.len() == pushed.len(),
            decreases entries@.len(),
        {
            entries.pop_front();
        }
        proof {
            if pushed.len() <= max {
                assert(pushed.subrange(0, pushed.len() as int) =~= pushed);
            }
        }
        self.entries = entries;
    }

    /// Records `message` at `level`, stamped with the current local time.
    pub fn log(&mut self, level: LogLevel, message: String)
        ensures
            final(self).max() == old(self).max(),
            logged(old(self)@, final(self)@, old(self).max(), level, message@),
    {
        let timestamp = local_timestamp();
        let entry = LogEntry { timestamp, level, message };
        let ghost e = entry;
        self.push_entry(entry);
        assert(e.level == level && e.message@ == message@ && is_datetime_text(e.timestamp@));
    }

    /// Records `message` at the debug level.
    pub fn debug(&mut self, message: String)
        ensures
            final(self).max() == old(self).max(),
            logged(old(self)@, final(self)@, old(self).max(), LogLevel::Debug, message@),
    {
        self.log(LogLevel::Debug, message);
    }

    /// Records `message` at the info level.
    pub fn info(&mut self, message: String)
        ensures
            final(self).max() == old(self).max(),
            logged(old(self)@, final(self)@, old(self).max(), LogLevel::Info, message@),
    {
        self.log(LogLevel::Info, message);
    }

    /// Records `message` at the warning level.
    pub fn warn(&mut self, message: String)
        ensures
            final(self).max() == old(self).max(),
            logged(old(self)@, final(self)@, old(self).max(), LogLevel::Warn, message@),
    {
        self.log(LogLevel::Warn, message);
    }

    /// Records `message` at the error level.
    pub fn error(&mut self, message: String)
        ensures
            final(self).max() == old(self).max(),
            logged(old(self)@, final(self)@, old(self).max(), LogLevel::Error, message@),
    {
        self.log(LogLevel::Error, message);
    }

    /// The entries, oldest first.
    pub fn get_entries(&self) -> (r: &VecDeque<LogEntry>)
        ensures
            r@ == self@,
            r@.len() <= self.max(),
    {
        proof {
            use_type_invariant(self);
        }
        &self.entries
    }
}

/// A logger shared between the UI and background work.
pub type SharedLogger = Arc<RwLock<Logger>>;

/// A shared logger around an empty logger of capacity `max_entries`.
pub fn create_logger(max_entries: usize) -> SharedLogger {
    Arc::new(new_rwlock(Logger::new(max_entries)))
}

/// Law: logging keeps the buffer within its capacity, drops nothing while
/// there is room, and (with a non-zero capacity) the newest entry is last.
pub proof fn law_log_window(old: Seq<LogEntry>, e: LogEntry, max: nat)
    requires
        old.len() <= max,
    ensures
        keep_last(old.push(e), max).len() <= max,
        keep_last(old.push(e), max).len() == if old.len() < max { old.len() + 1 } else { max },
        old.len() < max ==> keep_last(old.push(e), max) == old.push(e),
        max > 0 ==> keep_last(old.push(e), max).last() == e,
        old.len() == max && max > 0 ==> keep_last(old.push(e), max) == old.drop_first().push(e),
{
    if old.len() == max && max > 0 {
        assert(keep_last(old.push(e), max) =~= old.drop_first().push(e));
    }
}

} // verus!
