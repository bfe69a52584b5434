//! The Logs page: the core's log lines as they stream in, at most the
//! 500 most recent, with an auto-scroll switch.

use vstd::prelude::*;

use crate::history::BoundedLog;
use crate::home::{to_uppercase, unicode_upper};
use crate::text::{chars_of, dec, push_decimal, push_str, str_eq, string_of};

verus! {

/// How many log lines the page keeps.
pub const MAX_LOGS: usize = 500;

/// One log line of the core.
#[derive(Debug, Clone)]
pub struct LogEntry {
    /// `error`, `warning`, `info`, `debug`, ... (the `type` field).
    pub level: String,
    pub payload: String,
}

/// The last `cap` items of `s` (all of them when there are fewer).
pub open spec fn keep_last<T>(s: Seq<T>, cap: nat) -> Seq<T> {
    if s.len() <= cap {
        s
    } else {
        s.subrange(s.len() - cap, s.len() as int)
    }
}

/// Keeping the last `cap` items, then adding one and keeping the last
/// `cap` again, is keeping the last `cap` of everything.
pub proof fn lemma_keep_last_push<T>(s: Seq<T>, x: T, cap: nat)
    requires
        cap > 0,
    ensures
        ({
            let k = keep_last(s, cap);
            let next = if k.len() < cap {
                k.push(x)
            } else {
                k.drop_first().push(x)
            };
            next == keep_last(s.push(x), cap)
        }),
{
    let k = keep_last(s, cap);
    if k.len() < cap {
        assert(k.push(x) =~= keep_last(s.push(x), cap));
    } else {
        assert(k.drop_first().push(x) =~= keep_last(s.push(x), cap));
    }
}

/// State of the Logs page.
pub struct LogsState {
    entries: BoundedLog<LogEntry>,
    auto_scroll: bool,
}

impl LogsState {
    /// The kept lines, oldest first.
    pub closed spec fn lines(&self) -> Seq<LogEntry> {
        self.entries.view_items()
    }

    /// Whether the list follows new lines.
    pub closed spec fn follows(&self) -> bool {
        self.auto_scroll
    }

    /// The internal bound holds.
    pub closed spec fn wf(&self) -> bool {
        &&& self.entries.wf()
        &&& self.entries.capacity() == MAX_LOGS
    }

    /// An empty page that follows new lines.
    pub fn new() -> (r: Self)
        ensures
            r.wf(),
            r.lines().len() == 0,
            r.follows(),
    {
        LogsState { entries: BoundedLog::new(MAX_LOGS), auto_scroll: true }
    }

    /// Appends a batch of new lines, dropping the oldest beyond 500.
    pub fn ingest(&mut self, batch: Vec<LogEntry>)
        requires
            old(self).wf(),
        ensures
            final(self).wf(),
            final(self).lines() == keep_last(old(self).lines() + batch@, MAX_LOGS as nat),
            final(self).follows() == old(self).follows(),
    {
        let ghost start = self.lines();
        proof {
            assert(keep_last(start + batch@.take(0), MAX_LOGS as nat) =~= start);
        }
        let mut i: usize = 0;
        let n = batch.len();
        let mut rest = batch;
        let ghost all = rest@;
        while i < n
            invariant
                self.wf(),
                n == all.len(),
                i <= n,
                rest@ == all.subrange(i as int, n as int),
                self.lines() == keep_last(start + all.take(i as int), MAX_LOGS as nat),
                self.follows() == old(self).follows(),
            decreases n - i,
        {
            let ghost before = self.lines();
            let e = rest.remove(0);
            assert(e == all[i as int]);
            self.entries.push(e);
            proof {
                lemma_keep_last_push(start + all.take(i as int), e, MAX_LOGS as nat);
                assert((start + all.take(i as int)).push(e) =~= start + all.take(i + 1));
            }
            i = i + 1;
        }
        assert(all.take(n as int) =~= all);
    }

    /// Flips whether the list follows new lines.
    pub fn toggle_auto_scroll(&mut self)
        requires
            old(self).wf(),
        ensures
            final(self).wf(),
            final(self).follows() == !old(self).follows(),
            final(self).lines() == old(self).lines(),
    {
        self.auto_scroll = !self.auto_scroll;
    }

    /// Drops every line.
    pub fn clear(&mut self)
        requires
            old(self).wf(),
        ensures
            final(self).wf(),
            final(self).lines().len() == 0,
            final(self).follows() == old(self).follows(),
    {
        self.entries.clear();
    }

    /// Whether the list follows new lines.
    pub fn auto_scroll(&self) -> (r: bool)
        ensures
            r == self.follows(),
    {
        self.auto_scroll
    }

    /// Number of kept lines.
    pub fn len(&self) -> (n: usize)
        ensures
            n == self.lines().len(),
    {
        self.entries.len()
    }

    /// The line at `i` (0 is the oldest).
    pub fn line(&self, i: usize) -> (r: &LogEntry)
        requires
            i < self.lines().len(),
        ensures
            *r == self.lines()[i as int],
    {
        self.entries.get(i)
    }

    /// The header's count: `<n> lines`.
    pub fn count_text(&self) -> (r: String)
        ensures
            r@ == dec(self.lines().len()) + " lines"@,
    {
        let mut v: Vec<char> = Vec::new();
        push_decimal(&mut v, self.entries.len() as u64);
        push_str(&mut v, " lines");
        string_of(v.as_slice())
    }
}

/// The colour family of a log level.
#[derive(Debug, Clone, Copy, PartialEq, Eq, Structural)]
pub enum LevelTone {
    /// Red.
    Error,
    /// Amber.
    Warning,
    /// Muted.
    Info,
    /// The ordinary text colour.
    Plain,
}

/// The colour family of a level name.
pub open spec fn tone_of(level: Seq<char>) -> LevelTone {
    if level == "error"@ {
        LevelTone::Error
    } else if level == "warning"@ {
        LevelTone::Warning
    } else if level == "info"@ {
        LevelTone::Info
    } else {
        LevelTone::Plain
    }
}

/// The colour family a level is shown in.
pub fn level_tone(level: &str) -> (r: LevelTone)
    ensures
        r == tone_of(level@),
{
    if str_eq(level, "error") {
        LevelTone::Error
    } else if str_eq(level, "warning") {
        LevelTone::Warning
    } else if str_eq(level, "info") {
        LevelTone::Info
    } else {
        LevelTone::Plain
    }
}

/// The level as shown: upper-cased.
pub fn level_label(level: &str) -> (r: String)
    ensures
        r@ == unicode_upper(level@),
{
    to_uppercase(level)
}

} // verus!
