use vstd::prelude::*;

verus! {

/// How many entries the in-memory ring keeps.
pub const MAX_BUFFER_LINES: usize = 100;

/// One captured line of output.
#[derive(Clone, Debug)]
pub struct LogEntry {
    /// RFC 3339 time in UTC.
    pub timestamp: String,
    /// `"info"` for standard output, `"error"` for standard error.
    pub level: String,
    pub message: String,
}

impl LogEntry {
    /// A field-by-field copy.
    pub fn duplicate(&self) -> (r: LogEntry)
        ensures
            r == *self,
    {
        LogEntry {
            timestamp: self.timestamp.clone(),
            level: self.level.clone(),
            message: self.message.clone(),
        }
    }
}

/// An ASCII digit.
pub open spec fn digit(c: char) -> bool {
    '0' <= c <= '9'
}

/// `s` holds an RFC 3339 time in UTC whose `T` stands at index `t`: a date
/// ending in `YYYY-MM-DD`, the time `HH:MM:SS`, no fraction or a fraction of
/// 3, 6 or 9 digits, and the offset `+00:00`.
pub open spec fn utc_rfc3339_at(s: Seq<char>, t: int) -> bool {
    let frac = s.subrange(t + 9, s.len() - 6);
    &&& 10 <= t && t + 15 <= s.len()
    &&& s[t] == 'T' && s[t - 3] == '-' && s[t - 6] == '-'
    &&& digit(s[t - 10]) && digit(s[t - 9]) && digit(s[t - 8]) && digit(s[t - 7])
    &&& digit(s[t - 5]) && digit(s[t - 4]) && digit(s[t - 2]) && digit(s[t - 1])
    &&& digit(s[t + 1]) && digit(s[t + 2]) && s[t + 3] == ':' && digit(s[t + 4]) && digit(s[t + 5])
    &&& s[t + 6] == ':' && digit(s[t + 7]) && digit(s[t + 8])
    &&& (frac.len() == 0 || ((frac.len() == 4 || frac.len() == 7 || frac.len() == 10) && frac[0] == '.'
        && forall|i: int| 1 <= i < frac.len() ==> digit(#[trigger] frac[i])))
    &&& s.subrange(s.len() - 6, s.len() as int) == seq!['+', '0', '0', ':', '0', '0']
}

/// RFC 3339 text of a time in UTC, as chrono writes it.
pub open spec fn utc_rfc3339(s: Seq<char>) -> bool {
    exists|t: int| utc_rfc3339_at(s, t)
}

/// Relies on chrono's `Utc::now` and `DateTime::to_rfc3339`: the current time
/// as RFC 3339 text with offset `+00:00`. The time itself depends on the
/// clock; `Utc::now` panics only when the system clock reads before 1970.
#[verifier::external_body]
fn now_rfc3339() -> (r: String)
    ensures
        utc_rfc3339(r@),
{
    chrono::Utc::now().to_rfc3339()
}

/// The ring after appending `e`: the oldest entry leaves once the ring is full.
pub open spec fn ring_push(ring: Seq<LogEntry>, e: LogEntry) -> Seq<LogEntry> {
    if ring.len() >= MAX_BUFFER_LINES {
        ring.drop_first().push(e)
    } else {
        ring.push(e)
    }
}

/// The ring after appending each of `pushed`, in order, to an empty ring.
pub open spec fn ring_after(pushed: Seq<LogEntry>) -> Seq<LogEntry>
    decreases pushed.len(),
{
    if pushed.len() == 0 {
        Seq::empty()
    } else {
        ring_push(ring_after(pushed.drop_last()), pushed.last())
    }
}

/// The last `min(n, MAX_BUFFER_LINES)` of `s`, in order.
pub open spec fn recent_suffix(s: Seq<LogEntry>) -> Seq<LogEntry> {
    if s.len() > MAX_BUFFER_LINES {
        s.subrange(s.len() - MAX_BUFFER_LINES, s.len() as int)
    } else {
        s
    }
}

/// The in-memory part of a service's log: a bounded ring of the latest entries,
/// oldest first, and the path of the JSON-lines file every entry is appended to.
pub struct LogBuffer {
    logs: Vec<LogEntry>,
    log_file_path: String,
}

impl LogBuffer {
    /// The ring, oldest first.
    pub closed spec fn ring(&self) -> Seq<LogEntry> {
        self.logs@
    }

    pub closed spec fn file_path(&self) -> Seq<char> {
        self.log_file_path@
    }

    /// The ring never holds more than its bound.
    pub open spec fn wf(&self) -> bool {
        self.ring().len() <= MAX_BUFFER_LINES
    }

    /// An empty buffer whose entries are persisted at `log_file_path`.
    pub fn new(log_file_path: String) -> (r: Self)
        ensures
            r.wf(),
            r.ring() == Seq::<LogEntry>::empty(),
            r.file_path() == log_file_path@,
    {
        LogBuffer { logs: Vec::new(), log_file_path }
    }

    /// The path of the backing file.
    pub fn log_file_path(&self) -> (r: &String)
        ensures
            r@ == self.file_path(),
    {
        &self.log_file_path
    }

    /// Appends `entry` to the ring, evicting the oldest entry when full.
    pub fn push_entry(&mut self, entry: LogEntry)
        requires
            old(self).wf(),
        ensures
            final(self).wf(),
            final(self).ring() == ring_push(old(self).ring(), entry),
            final(self).file_path() == old(self).file_path(),
    {
        if self.logs.len() >= MAX_BUFFER_LINES {
            self.logs.remove(0);
        }
        self.logs.push(entry);
    }

    /// Stamps a line with the current time, appends it to the ring, and returns
    /// the entry for the caller to persist.
    pub fn push(&mut self, level: String, message: String) -> (r: LogEntry)
        requires
            old(self).wf(),
        ensures
            final(self).wf(),
            utc_rfc3339(r.timestamp@),
            r.level == level,
            r.message == message,
            final(self).ring() == ring_push(old(self).ring(), r),
            final(self).file_path() == old(self).file_path(),
    {
        let entry = LogEntry { timestamp: now_rfc3339(), level, message };
        let copy = entry.duplicate();
        self.push_entry(entry);
        copy
    }

    /// A copy of the ring, oldest first.
    pub fn get_recent(&self) -> (r: Vec<LogEntry>)
        ensures
            r@ == self.ring(),
    {
        let mut out: Vec<LogEntry> = Vec::new();
        let mut i: usize = 0;
        while i < self.logs.len()
            invariant
                i <= self.logs@.len(),
                out@ == self.logs@.subrange(0, i as int),
            decreases self.logs@.len() - i,
        {
            out.push(self.logs[i].duplicate());
            i = i + 1;
        }
        assert(self.logs@.subrange(0, self.logs@.len() as int) =~= self.logs@);
        out
    }

    /// Empties the ring; the caller truncates the file.
    pub fn clear(&mut self)
        ensures
            final(self).wf(),
            final(self).ring() == Seq::<LogEntry>::empty(),
            final(self).file_path() == old(self).file_path(),
    {
        self.logs.clear();
    }
}

/// Pushing one more entry extends the history the ring was built from.
pub proof fn lemma_ring_after_push(pushed: Seq<LogEntry>, e: LogEntry)
    ensures
        ring_push(ring_after(pushed), e) == ring_after(pushed.push(e)),
{
    assert(pushed.push(e).drop_last() =~= pushed);
}

/// After any sequence of pushes onto an empty ring, the ring holds the last
/// `min(n, MAX_BUFFER_LINES)` entries pushed, in the order they were pushed.
pub proof fn lemma_recent_is_suffix(pushed: Seq<LogEntry>)
    ensures
        ring_after(pushed) == recent_suffix(pushed),
    decreases pushed.len(),
{
    if pushed.len() > 0 {
        let prev = pushed.drop_last();
        lemma_recent_is_suffix(prev);
        let n = pushed.len() as int;
        if prev.len() >= MAX_BUFFER_LINES {
            assert(recent_suffix(prev).drop_first().push(pushed.last()) =~= recent_suffix(pushed));
        } else {
            assert(recent_suffix(prev).push(pushed.last()) =~= recent_suffix(pushed));
        }
    } else {
        assert(recent_suffix(pushed) =~= Seq::<LogEntry>::empty());
    }
}

} // verus!
