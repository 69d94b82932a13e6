use vstd::prelude::*;

verus! {

/// A command of the replicated state machine.
#[derive(Debug, PartialEq, Eq)]
pub enum Command {
    Put { key: String, value: String },
    Delete { key: String },
    Noop,
}

impl Clone for Command {
    fn clone(&self) -> (c: Self)
        ensures
            c == *self,
    {
        match self {
            Command::Put { key, value } => Command::Put { key: key.clone(), value: value.clone() },
            Command::Delete { key } => Command::Delete { key: key.clone() },
            Command::Noop => Command::Noop,
        }
    }
}

/// One entry of the replicated log.
#[derive(Debug, PartialEq, Eq)]
pub struct LogEntry {
    pub term: u64,
    pub index: u64,
    pub command: Command,
}

impl Clone for LogEntry {
    fn clone(&self) -> (e: Self)
        ensures
            e == *self,
    {
        LogEntry { term: self.term, index: self.index, command: self.command.clone() }
    }
}

impl LogEntry {
    pub fn new(term: u64, index: u64, command: Command) -> (e: Self)
        ensures
            e == (LogEntry { term, index, command }),
    {
        LogEntry { term, index, command }
    }

    /// An entry that changes nothing, used by a new leader to claim its term.
    pub fn noop(term: u64, index: u64) -> (e: Self)
        ensures
            e == (LogEntry { term, index, command: Command::Noop }),
    {
        LogEntry { term, index, command: Command::Noop }
    }
}

/// What a log holds: its entries, and the index and term it reports as its last.
pub struct LogView {
    pub entries: Seq<LogEntry>,
    pub last_index: u64,
    pub last_term: u64,
}

impl LogView {
    /// The entry stored for a one-based `index`, if the log reaches it.
    pub open spec fn entry_at(self, index: u64) -> Option<LogEntry> {
        if index == 0 || index > self.last_index || index > self.entries.len() {
            None
        } else {
            Some(self.entries[index - 1])
        }
    }

    /// The term at `index`; index zero, before the first entry, has term zero.
    pub open spec fn term_at(self, index: u64) -> Option<u64> {
        if index == 0 {
            Some(0)
        } else {
            match self.entry_at(index) {
                Some(e) => Some(e.term),
                None => None,
            }
        }
    }

    /// Whether the log holds `prev_log_term` at `prev_log_index`.
    pub open spec fn matches(self, prev_log_index: u64, prev_log_term: u64) -> bool {
        prev_log_index == 0 || self.term_at(prev_log_index) == Some(prev_log_term)
    }

    /// Whether a candidate whose log ends with the given term and index is at least as
    /// up to date as this log.
    pub open spec fn is_up_to_date(self, candidate_last_term: u64, candidate_last_index: u64) -> bool {
        if candidate_last_term != self.last_term {
            candidate_last_term >= self.last_term
        } else {
            candidate_last_index >= self.last_index
        }
    }

    /// The log with every entry after `index` removed.
    pub open spec fn truncated_after(self, index: u64) -> LogView {
        if index >= self.last_index {
            self
        } else {
            let kept = if index <= self.entries.len() {
                self.entries.subrange(0, index as int)
            } else {
                self.entries
            };
            LogView {
                entries: kept,
                last_index: index,
                last_term: if index == 0 || kept.len() == 0 {
                    0
                } else {
                    kept.last().term
                },
            }
        }
    }

    /// The log with `e` added at its end, reporting `e` as its last entry.
    pub open spec fn pushed(self, e: LogEntry) -> LogView {
        LogView { entries: self.entries.push(e), last_index: e.index, last_term: e.term }
    }

    /// How one entry sent by a leader changes the log: a new index is added, an
    /// index held with another term is replaced together with all that follows it,
    /// and an index held with the same term is kept.
    pub open spec fn receive(self, e: LogEntry) -> LogView {
        match self.entry_at(e.index) {
            Some(existing) => if existing.term != e.term {
                self.truncated_after((e.index - 1) as u64).pushed(e)
            } else {
                self
            },
            None => self.pushed(e),
        }
    }

    /// The log after receiving `es` in order.
    pub open spec fn receive_all(self, es: Seq<LogEntry>) -> LogView
        decreases es.len(),
    {
        if es.len() == 0 {
            self
        } else {
            self.receive_all(es.drop_last()).receive(es.last())
        }
    }

    /// How `append_multiple_entries` takes one entry: only past the last index.
    pub open spec fn extend(self, e: LogEntry) -> LogView {
        if e.index > self.last_index {
            self.pushed(e)
        } else {
            self
        }
    }

    /// The log after `extend` with each of `es` in order.
    pub open spec fn extend_all(self, es: Seq<LogEntry>) -> LogView
        decreases es.len(),
    {
        if es.len() == 0 {
            self
        } else {
            self.extend_all(es.drop_last()).extend(es.last())
        }
    }
}

/// The replicated log of a Raft node, with one-based indices.
#[derive(Debug)]
pub struct RaftLog {
    entries: Vec<LogEntry>,
    last_index: u64,
    last_term: u64,
}

impl View for RaftLog {
    type V = LogView;

    closed spec fn view(&self) -> LogView {
        LogView { entries: self.entries@, last_index: self.last_index, last_term: self.last_term }
    }
}

impl Clone for RaftLog {
    fn clone(&self) -> (c: Self)
        ensures
            c@ == self@,
    {
        let entries = copy_entries(&self.entries, 0, self.entries.len());
        assert(entries@ =~= self.entries@);
        RaftLog { entries, last_index: self.last_index, last_term: self.last_term }
    }
}

/// A copy of `v[start..end]`.
pub(crate) fn copy_entries(v: &Vec<LogEntry>, start: usize, end: usize) -> (r: Vec<LogEntry>)
    requires
        start <= end <= v.len(),
    ensures
        r@ == v@.subrange(start as int, end as int),
{
    let mut r: Vec<LogEntry> = Vec::new();
    let mut i: usize = start;
    while i < end
        invariant
            start <= i <= end <= v.len(),
            r@ == v@.subrange(start as int, i as int),
        decreases end - i,
    {
        r.push(v[i].clone());
        i = i + 1;
        assert(r@ =~= v@.subrange(start as int, i as int));
    }
    r
}

impl Default for RaftLog {
    fn default() -> (log: Self)
        ensures
            log@ == (LogView { entries: Seq::empty(), last_index: 0, last_term: 0 }),
    {
        RaftLog::new()
    }
}

impl RaftLog {
    /// An empty log.
    pub fn new() -> (log: Self)
        ensures
            log@ == (LogView { entries: Seq::empty(), last_index: 0, last_term: 0 }),
    {
        RaftLog { entries: Vec::new(), last_index: 0, last_term: 0 }
    }

    /// Adds a command in `term` after the last index; returns the new entry's index.
    pub fn append(&mut self, term: u64, command: Command) -> (index: u64)
        requires
            old(self)@.last_index < u64::MAX,
        ensures
            index == old(self)@.last_index + 1,
            final(self)@ == old(self)@.pushed(LogEntry { term, index, command }),
    {
        let index = self.last_index + 1;
        let entry = LogEntry::new(term, index, command);
        self.entries.push(entry);
        self.last_index = index;
        self.last_term = term;
        index
    }

    /// Adds each entry whose index lies past the current last index.
    pub fn append_multiple_entries(&mut self, entries: Vec<LogEntry>)
        ensures
            final(self)@ == old(self)@.extend_all(entries@),
    {
        let mut i: usize = 0;
        while i < entries.len()
            invariant
                i <= entries.len(),
                self@ == old(self)@.extend_all(entries@.take(i as int)),
            decreases entries.len() - i,
        {
            let entry = entries[i].clone();
            assert(entries@.take(i + 1).drop_last() =~= entries@.take(i as int));
            if entry.index > self.last_index {
                self.last_index = entry.index;
                self.last_term = entry.term;
                self.entries.push(entry);
            }
            i = i + 1;
        }
        assert(entries@.take(entries.len() as int) =~= entries@);
    }

    /// The entry at `index`, if the log reaches it.
    pub fn get(&self, index: u64) -> (r: Option<&LogEntry>)
        ensures
            match r {
                Some(e) => self@.entry_at(index) == Some(*e),
                None => self@.entry_at(index) is None,
            },
    {
        if index == 0 || index > self.last_index {
            return None;
        }
        if index - 1 < self.entries.len() as u64 {
            Some(&self.entries[(index - 1) as usize])
        } else {
            None
        }
    }

    /// The term of the entry at `index`; zero for index zero.
    pub fn term_at(&self, index: u64) -> (r: Option<u64>)
        ensures
            r == self@.term_at(index),
    {
        if index == 0 {
            return Some(0);
        }
        if index > self.last_index {
            return None;
        }
        match self.get(index) {
            Some(e) => Some(e.term),
            None => None,
        }
    }

    /// The entries from one-based `start_index` up to the `end_index`-th entry of the
    /// vector; empty when `start_index` is zero or past the last index.
    pub fn get_range(&self, start_index: u64, end_index: u64) -> (r: Vec<LogEntry>)
        requires
            start_index == 0 || start_index > self@.last_index || start_index - 1 <= (
            if end_index < self@.entries.len() {
                end_index as int
            } else {
                self@.entries.len() as int
            }),
        ensures
            start_index == 0 || start_index > self@.last_index ==> r@ == Seq::<LogEntry>::empty(),
            !(start_index == 0 || start_index > self@.last_index) ==> r@ == self@.entries.subrange(
                start_index - 1,
                if end_index < self@.entries.len() {
                    end_index as int
                } else {
                    self@.entries.len() as int
                },
            ),
    {
        if start_index == 0 || start_index > self.last_index {
            return Vec::new();
        }
        let start = (start_index - 1) as usize;
        let end = if end_index < self.entries.len() as u64 {
            end_index as usize
        } else {
            self.entries.len()
        };
        copy_entries(&self.entries, start, end)
    }

    /// The entries from one-based `start_index` to the end of the vector; empty when
    /// `start_index` is zero or past the last index.
    pub fn get_from(&self, start_index: u64) -> (r: Vec<LogEntry>)
        requires
            self@.from_is_defined(start_index),
        ensures
            r@ == self@.entries_from(start_index),
    {
        if start_index == 0 || start_index > self.last_index {
            return Vec::new();
        }
        let start = (start_index - 1) as usize;
        copy_entries(&self.entries, start, self.entries.len())
    }

    pub fn last_index(&self) -> (r: u64)
        ensures
            r == self@.last_index,
    {
        self.last_index
    }

    pub fn last_term(&self) -> (r: u64)
        ensures
            r == self@.last_term,
    {
        self.last_term
    }

    /// Whether a candidate's log, ending at the given term and index, is at least as
    /// up to date as this one: a later last term wins, and on equal terms the longer log.
    pub fn is_up_to_date(&self, candidate_last_term: u64, candidate_last_index: u64) -> (r: bool)
        ensures
            r == self@.is_up_to_date(candidate_last_term, candidate_last_index),
    {
        if candidate_last_term != self.last_term {
            return candidate_last_term >= self.last_term;
        }
        candidate_last_index >= self.last_index
    }

    /// Whether this log holds `prev_log_term` at `prev_log_index`; index zero always matches.
    pub fn matches(&self, prev_log_index: u64, prev_log_term: u64) -> (r: bool)
        ensures
            r == self@.matches(prev_log_index, prev_log_term),
    {
        if prev_log_index == 0 {
            return true;
        }
        match self.term_at(prev_log_index) {
            Some(term) => term == prev_log_term,
            None => false,
        }
    }

    /// Removes every entry after `index`.
    pub fn truncate_after(&mut self, index: u64)
        ensures
            final(self)@ == old(self)@.truncated_after(index),
    {
        if index >= self.last_index {
            return;
        }
        if index < self.entries.len() as u64 {
            self.entries.truncate(index as usize);
        }
        assert(self.entries@ =~= (if index <= old(self).entries@.len() {
            old(self).entries@.subrange(0, index as int)
        } else {
            old(self).entries@
        }));
        if index == 0 {
            self.last_index = 0;
            self.last_term = 0;
        } else {
            self.last_index = index;
            self.last_term = if self.entries.len() > 0 {
                self.entries[self.entries.len() - 1].term
            } else {
                0
            };
        }
    }

    /// Takes entries sent by a leader after `prev_log_index`: refused, leaving the log
    /// as it is, when the log does not hold `prev_log_term` there; otherwise each entry
    /// is received in order.
    pub fn handle_append_entries(
        &mut self,
        prev_log_index: u64,
        prev_log_term: u64,
        entry: Vec<LogEntry>,
    ) -> (ok: bool)
        ensures
            ok == old(self)@.matches(prev_log_index, prev_log_term),
            ok ==> final(self)@ == old(self)@.receive_all(entry@),
            !ok ==> final(self)@ == old(self)@,
    {
        if !self.matches(prev_log_index, prev_log_term) {
            return false;
        }
        let mut i: usize = 0;
        while i < entry.len()
            invariant
                i <= entry.len(),
                self@ == old(self)@.receive_all(entry@.take(i as int)),
            decreases entry.len() - i,
        {
            let e = entry[i].clone();
            assert(entry@.take(i + 1).drop_last() =~= entry@.take(i as int));
            let existing_term: Option<u64> = match self.get(e.index) {
                Some(existing) => Some(existing.term),
                None => None,
            };
            match existing_term {
                Some(t) => {
                    if t != e.term {
                        self.truncate_after(e.index - 1);
                        self.last_index = e.index;
                        self.last_term = e.term;
                        self.entries.push(e);
                    }
                },
                None => {
                    self.last_index = e.index;
                    self.last_term = e.term;
                    self.entries.push(e);
                },
            }
            i = i + 1;
        }
        assert(entry@.take(entry.len() as int) =~= entry@);
        true
    }

    pub fn len(&self) -> (n: usize)
        ensures
            n == self@.entries.len(),
    {
        self.entries.len()
    }

    pub fn is_empty(&self) -> (b: bool)
        ensures
            b == (self@.entries.len() == 0),
    {
        self.entries.len() == 0
    }
}

impl LogView {
    /// Whether `get_from(start_index)` can slice the entries.
    pub open spec fn from_is_defined(self, start_index: u64) -> bool {
        start_index == 0 || start_index > self.last_index || start_index - 1 <= self.entries.len()
    }

    /// What `get_from(start_index)` returns.
    pub open spec fn entries_from(self, start_index: u64) -> Seq<LogEntry> {
        if start_index == 0 || start_index > self.last_index {
            Seq::empty()
        } else {
            self.entries.subrange(start_index - 1, self.entries.len() as int)
        }
    }
}

} // verus!
