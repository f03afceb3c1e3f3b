//! Console state and how each traffic event updates it.
use vstd::prelude::*;
use std::collections::{HashMap, VecDeque};
use crate::rank::{lemma_sort_desc, sort_by_score_desc, sort_desc};
use crate::text::str_eq;

verus! {

/// Number of tabs.
pub const TAB_COUNT: usize = 5;

/// Latency samples kept per tool.
pub const SAMPLE_CAP: usize = 120;

/// Log entries kept.
pub const LOG_CAP: usize = 200;

/// Where a retrieval spent its time, in microseconds.
#[derive(Debug, Clone, Copy, PartialEq, Eq)]
pub struct LatencyBreakdown {
    pub dense_us: u64,
    pub sparse_us: u64,
    pub fusion_us: u64,
    pub rerank_us: u64,
    pub total_us: u64,
}

/// Severity of a log line.
#[derive(Debug, Clone, Copy, PartialEq, Eq, Structural)]
pub enum LogLevel {
    Info,
    Warn,
    Error,
}

/// One open MCP session.
#[derive(Debug, Clone, PartialEq, Eq)]
pub struct SessionRow {
    pub id: String,
    pub client: String,
    pub protocol: String,
    pub tools_called: u64,
    /// When the session was last active (milliseconds since the epoch).
    pub last_activity_ms: u64,
}

/// One log line.
#[derive(Debug, Clone, PartialEq, Eq)]
pub struct LogEntry {
    /// When it was logged (milliseconds since the epoch).
    pub at_ms: u64,
    pub level: LogLevel,
    pub source: String,
    pub message: String,
}

/// Something the console observes.  A knowledge-base staleness is given in tenths
/// of a percent.
#[derive(Debug, Clone, PartialEq, Eq)]
pub enum TrafficEvent {
    ToolCall { name: String, latency_us: u64, error: bool, breakdown: Option<LatencyBreakdown> },
    SessionOpen { id: String, client: String, protocol: String },
    SessionClose { id: String },
    Log { level: LogLevel, source: String, message: String },
    KbStat { collection: String, points: u64, staleness_tenths: u64 },
}

/// `s` with `x` appended, dropping the oldest element when `s` is full.
pub open spec fn ring_push<T>(s: Seq<T>, x: T, cap: nat) -> Seq<T> {
    if s.len() >= cap { s.drop_first().push(x) } else { s.push(x) }
}

/// Calls and latencies of one tool.
#[derive(Debug, Clone)]
pub struct ToolStat {
    pub name: String,
    pub invocations: u64,
    pub errors: u64,
    /// The latest latency samples, oldest first, at most `SAMPLE_CAP`.
    pub samples_us: VecDeque<u64>,
    /// The latest breakdown reported with a call.
    pub last_breakdown: Option<LatencyBreakdown>,
}

impl ToolStat {
    /// A tool not called yet.
    pub fn new(name: String) -> (t: ToolStat)
        ensures
            t.name == name,
            t.invocations == 0,
            t.errors == 0,
            t.samples_us@.len() == 0,
            t.last_breakdown is None,
    {
        ToolStat { name, invocations: 0, errors: 0, samples_us: VecDeque::new(), last_breakdown: None }
    }

    /// Records one call.
    pub fn record(&mut self, latency_us: u64, error: bool, breakdown: Option<LatencyBreakdown>)
        requires
            old(self).invocations < u64::MAX,
            old(self).errors < u64::MAX,
            old(self).samples_us@.len() <= SAMPLE_CAP,
        ensures
            final(self).name == old(self).name,
            final(self).invocations == old(self).invocations + 1,
            final(self).errors == old(self).errors + if error { 1u64 } else { 0u64 },
            final(self).samples_us@ == ring_push(old(self).samples_us@, latency_us, SAMPLE_CAP as nat),
            final(self).samples_us@.len() <= SAMPLE_CAP,
            final(self).last_breakdown == match breakdown {
                Some(b) => Some(b),
                None => old(self).last_breakdown,
            },
    {
        self.invocations = self.invocations + 1;
        if error {
            self.errors = self.errors + 1;
        }
        if self.samples_us.len() >= SAMPLE_CAP {
            let ghost before = self.samples_us@;
            self.samples_us.pop_front();
            assert(self.samples_us@ =~= before.drop_first());
        }
        self.samples_us.push_back(latency_us);
        if breakdown.is_some() {
            self.last_breakdown = breakdown;
        }
    }
}

/// The samples tagged for a descending sort.
pub open spec fn tagged(s: Seq<u64>) -> Seq<(u64, ())> {
    s.map_values(|x: u64| (x, ()))
}

/// The sample at position `rank` of the samples in ascending order (the last one
/// when `rank` is past the end), or 0 without samples.
pub open spec fn sample_at_rank(s: Seq<u64>, rank: int) -> u64 {
    if s.len() == 0 {
        0
    } else {
        let d = sort_desc(tagged(s));
        let k = if rank < s.len() { rank } else { s.len() - 1 };
        d[s.len() - 1 - k].0
    }
}

impl ToolStat {
    /// The sample at position `rank` of the samples in ascending order (the last
    /// one when `rank` is past the end), or 0 without samples. A percentile `q`
    /// is the sample at rank `floor(len * q)`.
    pub fn sample_at(&self, rank: usize) -> (r: u64)
        ensures
            r == sample_at_rank(self.samples_us@, rank as int),
            self.samples_us@.len() > 0 ==> self.samples_us@.contains(r),
    {
        let n = self.samples_us.len();
        if n == 0 {
            return 0;
        }
        let mut t: Vec<(u64, ())> = Vec::new();
        let mut i: usize = 0;
        while i < n
            invariant
                n == self.samples_us@.len(),
                i <= n,
                t@ == tagged(self.samples_us@).take(i as int),
            decreases n - i,
        {
            t.push((self.samples_us[i], ()));
            i = i + 1;
            assert(t@ =~= tagged(self.samples_us@).take(i as int));
        }
        assert(t@ =~= tagged(self.samples_us@));
        let ghost tv = t@;
        let d = sort_by_score_desc(t);
        proof {
            lemma_sort_desc(tv);
        }
        let k = if rank < n { rank } else { n - 1 };
        let r = d[n - 1 - k].0;
        proof {
            broadcast use vstd::seq_lib::group_to_multiset_ensures;
            let e = d@[n - 1 - k];
            assert(d@.contains(e));
            assert(d@.to_multiset().count(e) > 0);
            assert(tv.to_multiset().count(e) > 0);
            assert(tagged(self.samples_us@).contains(e));
            let j = choose|j: int| 0 <= j < n && tagged(self.samples_us@)[j] == e;
            assert(self.samples_us@[j] == r);
        }
        r
    }
}

/// The statistics of tool `name`.
pub open spec fn stat_named(name: Seq<char>) -> spec_fn(ToolStat) -> bool {
    |t: ToolStat| t.name@ == name
}

/// The session `id`.
pub open spec fn session_named(id: Seq<char>) -> spec_fn(SessionRow) -> bool {
    |r: SessionRow| r.id@ == id
}

/// The statistics of collection `c`.
pub open spec fn collection_named(c: Seq<char>) -> spec_fn((String, u64, u64)) -> bool {
    |e: (String, u64, u64)| e.0@ == c
}

/// `after` is `before` with one call recorded.
pub open spec fn recorded(
    before: ToolStat,
    after: ToolStat,
    latency_us: u64,
    error: bool,
    breakdown: Option<LatencyBreakdown>,
) -> bool {
    &&& after.name == before.name
    &&& after.invocations == before.invocations + 1
    &&& after.errors == before.errors + if error { 1int } else { 0int }
    &&& after.samples_us@ == ring_push(before.samples_us@, latency_us, SAMPLE_CAP as nat)
    &&& after.samples_us@.len() <= SAMPLE_CAP
    &&& after.last_breakdown == match breakdown {
        Some(b) => Some(b),
        None => before.last_breakdown,
    }
}

/// The statistics after a call of tool `name`: the tool's entry records it, or a
/// new entry for the tool is appended.
pub open spec fn after_call(
    before: Seq<ToolStat>,
    after: Seq<ToolStat>,
    name: String,
    latency_us: u64,
    error: bool,
    breakdown: Option<LatencyBreakdown>,
) -> bool {
    let i = crate::text::first_index(before, stat_named(name@));
    if i >= 0 {
        &&& after.len() == before.len()
        &&& recorded(before[i], after[i], latency_us, error, breakdown)
        &&& forall|k: int| 0 <= k < before.len() && k != i ==> after[k]
            == before[k]
    } else {
        &&& after.len() == before.len() + 1
        &&& forall|k: int| 0 <= k < before.len() ==> after[k]
            == before[k]
        &&& after.last().name == name
        &&& after.last().invocations == 1
        &&& after.last().errors == if error { 1u64 } else { 0u64 }
        &&& after.last().samples_us@ == seq![latency_us]
        &&& after.last().last_breakdown == breakdown
    }
}

/// Whether no two sessions share an id.
pub open spec fn session_ids_unique(s: Seq<SessionRow>) -> bool {
    forall|i: int, j: int| 0 <= i < j < s.len() ==> (#[trigger] s[i]).id@ != (#[trigger] s[j]).id@
}

/// Whether every tool's counters can grow and its samples are bounded.
pub open spec fn stats_room(s: Seq<ToolStat>) -> bool {
    forall|i: int| 0 <= i < s.len() ==> {
        &&& (#[trigger] s[i]).invocations < u64::MAX
        &&& s[i].errors < u64::MAX
        &&& s[i].samples_us@.len() <= SAMPLE_CAP
    }
}

/// The scroll offset of tab `t`: 0 until it is scrolled.
pub open spec fn offset_of(m: Map<usize, u16>, t: usize) -> u16 {
    if m.contains_key(t) { m[t] } else { 0 }
}

/// The console.
pub struct App {
    pub current_tab: usize,
    /// Scroll offset of each tab that has been scrolled.
    pub scroll: HashMap<usize, u16>,
    /// Statistics per tool name.
    pub tools: Vec<ToolStat>,
    /// Open sessions.
    pub sessions: Vec<SessionRow>,
    /// The latest log lines, oldest first, at most `LOG_CAP`.
    pub logs: VecDeque<LogEntry>,
    /// Points and staleness (tenths of a percent) per collection.
    pub kb_collections: Vec<(String, u64, u64)>,
    /// When the console started, in milliseconds on the clock its caller reads.
    pub started_at_ms: u64,
}

impl App {
    /// The console's invariant: a valid tab, a bounded log, and session ids unique.
    pub open spec fn wf(&self) -> bool {
        &&& self.current_tab < TAB_COUNT
        &&& self.logs@.len() <= LOG_CAP
        &&& session_ids_unique(self.sessions@)
    }

    /// A console on the first tab with nothing observed.
    pub fn new(started_at_ms: u64) -> (a: App)
        ensures
            a.wf(),
            a.current_tab == 0,
            a.scroll@ == Map::<usize, u16>::empty(),
            a.tools@.len() == 0,
            a.sessions@.len() == 0,
            a.logs@.len() == 0,
            a.kb_collections@.len() == 0,
            a.started_at_ms == started_at_ms,
    {
        App {
            current_tab: 0,
            scroll: HashMap::new(),
            tools: Vec::new(),
            sessions: Vec::new(),
            logs: VecDeque::new(),
            kb_collections: Vec::new(),
            started_at_ms,
        }
    }

    /// Switches to tab `n` when it exists.
    pub fn set_tab(&mut self, n: usize)
        requires
            old(self).wf(),
        ensures
            final(self).wf(),
            final(self).current_tab == if n < TAB_COUNT { n } else { old(self).current_tab },
            final(self).scroll == old(self).scroll,
    {
        if n < TAB_COUNT {
            self.current_tab = n;
        }
    }

    /// The next tab, wrapping around.
    pub fn next_tab(&mut self)
        requires
            old(self).wf(),
        ensures
            final(self).wf(),
            final(self).current_tab == (old(self).current_tab + 1) % 5,
            final(self).scroll == old(self).scroll,
    {
        self.current_tab = (self.current_tab + 1) % TAB_COUNT;
    }

    /// The previous tab, wrapping around.
    pub fn prev_tab(&mut self)
        requires
            old(self).wf(),
        ensures
            final(self).wf(),
            final(self).current_tab == (old(self).current_tab + 4) % 5,
            final(self).scroll == old(self).scroll,
    {
        self.current_tab = (self.current_tab + 4) % TAB_COUNT;
    }

    /// The scroll offset of tab `tab` (0 until it is scrolled).
    pub fn scroll_offset(&self, tab: usize) -> (r: u16)
        ensures
            r == offset_of(self.scroll@, tab),
    {
        broadcast use vstd::std_specs::hash::group_hash_axioms;
        match self.scroll.get(&tab) {
            Some(v) => *v,
            None => 0,
        }
    }

    /// Scrolls the current tab down one line (saturating).
    pub fn scroll_down(&mut self)
        requires
            old(self).wf(),
        ensures
            final(self).wf(),
            final(self).current_tab == old(self).current_tab,
            final(self).scroll@ == old(self).scroll@.insert(
                old(self).current_tab,
                if offset_of(old(self).scroll@, old(self).current_tab) == u16::MAX {
                    u16::MAX
                } else {
                    (offset_of(old(self).scroll@, old(self).current_tab) + 1) as u16
                },
            ),
    {
        broadcast use vstd::std_specs::hash::group_hash_axioms;
        let t = self.current_tab;
        let v = self.scroll_offset(t);
        self.scroll.insert(t, v.saturating_add(1));
    }

    /// Scrolls the current tab up one line (saturating).
    pub fn scroll_up(&mut self)
        requires
            old(self).wf(),
        ensures
            final(self).wf(),
            final(self).current_tab == old(self).current_tab,
            final(self).scroll@ == old(self).scroll@.insert(
                old(self).current_tab,
                if offset_of(old(self).scroll@, old(self).current_tab) == 0 {
                    0
                } else {
                    (offset_of(old(self).scroll@, old(self).current_tab) - 1) as u16
                },
            ),
    {
        broadcast use vstd::std_specs::hash::group_hash_axioms;
        let t = self.current_tab;
        let v = self.scroll_offset(t);
        self.scroll.insert(t, v.saturating_sub(1));
    }

    /// Records a call of tool `name`, creating its statistics on first use.
    pub fn record_call(&mut self, name: String, latency_us: u64, error: bool, breakdown: Option<LatencyBreakdown>)
        requires
            old(self).wf(),
            stats_room(old(self).tools@),
        ensures
            final(self).wf(),
            final(self).current_tab == old(self).current_tab,
            final(self).scroll == old(self).scroll,
            final(self).sessions == old(self).sessions,
            final(self).logs == old(self).logs,
            final(self).kb_collections == old(self).kb_collections,
            after_call(old(self).tools@, final(self).tools@, name, latency_us, error, breakdown),
    {
        let ghost f = stat_named(name@);
        let mut i: usize = 0;
        while i < self.tools.len()
            invariant
                i <= self.tools@.len(),
                f == stat_named(name@),
                *self == *old(self),
                old(self).wf(),
                stats_room(old(self).tools@),
                crate::text::first_from(self.tools@, f, 0) == crate::text::first_from(self.tools@, f, i as int),
            decreases self.tools@.len() - i,
        {
            if str_eq(self.tools[i].name.as_str(), name.as_str()) {
                assert(f(self.tools@[i as int]));
                let mut stat = self.tools.remove(i);
                assert(stats_room(old(self).tools@));
                assert(old(self).tools@[i as int] == stat);
                stat.record(latency_us, error, breakdown);
                self.tools.insert(i, stat);
                return;
            }
            i = i + 1;
        }
        let mut stat = ToolStat::new(name);
        stat.record(latency_us, error, breakdown);
        assert(stat.samples_us@ =~= seq![latency_us]);
        self.tools.push(stat);
    }

    /// Opens session `id`, replacing one with the same id.
    pub fn open_session(&mut self, row: SessionRow)
        requires
            old(self).wf(),
        ensures
            final(self).wf(),
            final(self).current_tab == old(self).current_tab,
            final(self).scroll == old(self).scroll,
            final(self).tools == old(self).tools,
            final(self).logs == old(self).logs,
            final(self).kb_collections == old(self).kb_collections,
            ({
                let i = crate::text::first_index(old(self).sessions@, session_named(row.id@));
                if i >= 0 {
                    final(self).sessions@ == old(self).sessions@.update(i, row)
                } else {
                    final(self).sessions@ == old(self).sessions@.push(row)
                }
            }),
    {
        let ghost f = session_named(row.id@);
        let mut i: usize = 0;
        while i < self.sessions.len()
            invariant
                i <= self.sessions@.len(),
                f == session_named(row.id@),
                *self == *old(self),
                old(self).wf(),
                forall|k: int| 0 <= k < i ==> (#[trigger] self.sessions@[k]).id@ != row.id@,
                crate::text::first_from(self.sessions@, f, 0) == crate::text::first_from(self.sessions@, f, i as int),
            decreases self.sessions@.len() - i,
        {
            if str_eq(self.sessions[i].id.as_str(), row.id.as_str()) {
                assert(f(self.sessions@[i as int]));
                let ghost before = self.sessions@;
                self.sessions.set(i, row);
                proof {
                    assert forall|a: int, b: int| 0 <= a < b < self.sessions@.len() implies (#[trigger] self.sessions@[a]).id@
                        != (#[trigger] self.sessions@[b]).id@ by {
                        if a == i || b == i {
                            assert(before[i as int].id@ == self.sessions@[i as int].id@);
                        }
                    }
                }
                return;
            }
            i = i + 1;
        }
        let ghost before = self.sessions@;
        self.sessions.push(row);
        proof {
            assert forall|a: int, b: int| 0 <= a < b < self.sessions@.len() implies (#[trigger] self.sessions@[a]).id@
                != (#[trigger] self.sessions@[b]).id@ by {
                if b == before.len() {
                    assert(self.sessions@[a] == before[a]);
                } else {
                    assert(self.sessions@[a] == before[a] && self.sessions@[b] == before[b]);
                }
            }
        }
    }

    /// Closes session `id`, if open.
    pub fn close_session(&mut self, id: &str)
        requires
            old(self).wf(),
        ensures
            final(self).wf(),
            final(self).current_tab == old(self).current_tab,
            final(self).scroll == old(self).scroll,
            final(self).tools == old(self).tools,
            final(self).logs == old(self).logs,
            final(self).kb_collections == old(self).kb_collections,
            ({
                let i = crate::text::first_index(old(self).sessions@, session_named(id@));
                if i >= 0 {
                    final(self).sessions@ == old(self).sessions@.remove(i)
                } else {
                    final(self).sessions@ == old(self).sessions@
                }
            }),
            forall|k: int| 0 <= k < final(self).sessions@.len() ==> (#[trigger] final(self).sessions@[k]).id@ != id@,
    {
        let ghost f = session_named(id@);
        let mut i: usize = 0;
        while i < self.sessions.len()
            invariant
                i <= self.sessions@.len(),
                f == session_named(id@),
                *self == *old(self),
                old(self).wf(),
                session_ids_unique(self.sessions@),
                forall|k: int| 0 <= k < i ==> (#[trigger] self.sessions@[k]).id@ != id@,
                crate::text::first_from(self.sessions@, f, 0) == crate::text::first_from(self.sessions@, f, i as int),
            decreases self.sessions@.len() - i,
        {
            if str_eq(self.sessions[i].id.as_str(), id) {
                assert(f(self.sessions@[i as int]));
                let ghost before = self.sessions@;
                self.sessions.remove(i);
                proof {
                    assert(self.sessions@ == before.remove(i as int));
                    assert forall|a: int, b: int| 0 <= a < b < self.sessions@.len() implies (#[trigger] self.sessions@[a]).id@
                        != (#[trigger] self.sessions@[b]).id@ by {
                        let a2 = if a < i { a } else { a + 1 };
                        let b2 = if b < i { b } else { b + 1 };
                        assert(self.sessions@[a] == before[a2]);
                        assert(self.sessions@[b] == before[b2]);
                    }
                    assert forall|k: int| 0 <= k < self.sessions@.len() implies (#[trigger] self.sessions@[k]).id@ != id@ by {
                        let k2 = if k < i { k } else { k + 1 };
                        assert(self.sessions@[k] == before[k2]);
                        assert(before[i as int].id@ == id@);
                    }
                }
                return;
            }
            i = i + 1;
        }
    }

    /// Keeps a log line, dropping the oldest when the log is full.
    pub fn push_log(&mut self, entry: LogEntry)
        requires
            old(self).wf(),
        ensures
            final(self).wf(),
            final(self).current_tab == old(self).current_tab,
            final(self).scroll == old(self).scroll,
            final(self).tools == old(self).tools,
            final(self).sessions == old(self).sessions,
            final(self).kb_collections == old(self).kb_collections,
            final(self).logs@ == ring_push(old(self).logs@, entry, LOG_CAP as nat),
    {
        if self.logs.len() >= LOG_CAP {
            let ghost before = self.logs@;
            self.logs.pop_front();
            assert(self.logs@ =~= before.drop_first());
        }
        self.logs.push_back(entry);
    }

    /// Replaces the statistics of a collection.
    pub fn set_collection(&mut self, collection: String, points: u64, staleness_tenths: u64)
        requires
            old(self).wf(),
        ensures
            final(self).wf(),
            final(self).current_tab == old(self).current_tab,
            final(self).scroll == old(self).scroll,
            final(self).tools == old(self).tools,
            final(self).sessions == old(self).sessions,
            final(self).logs == old(self).logs,
            ({
                let i = crate::text::first_index(old(self).kb_collections@, collection_named(collection@));
                let e = (collection, points, staleness_tenths);
                if i >= 0 {
                    final(self).kb_collections@ == old(self).kb_collections@.update(i, e)
                } else {
                    final(self).kb_collections@ == old(self).kb_collections@.push(e)
                }
            }),
    {
        let ghost f = collection_named(collection@);
        let mut i: usize = 0;
        while i < self.kb_collections.len()
            invariant
                i <= self.kb_collections@.len(),
                f == collection_named(collection@),
                *self == *old(self),
                old(self).wf(),
                crate::text::first_from(self.kb_collections@, f, 0) == crate::text::first_from(self.kb_collections@, f, i as int),
            decreases self.kb_collections@.len() - i,
        {
            if str_eq(self.kb_collections[i].0.as_str(), collection.as_str()) {
                assert(f(self.kb_collections@[i as int]));
                self.kb_collections.set(i, (collection, points, staleness_tenths));
                return;
            }
            i = i + 1;
        }
        self.kb_collections.push((collection, points, staleness_tenths));
    }

    /// Updates the console with one event observed at `now_ms` (see `record_call`,
    /// `open_session`, `close_session`, `push_log` and `set_collection`).
    pub fn observe(&mut self, ev: TrafficEvent, now_ms: u64)
        requires
            old(self).wf(),
            stats_room(old(self).tools@),
        ensures
            final(self).wf(),
            final(self).current_tab == old(self).current_tab,
            final(self).scroll == old(self).scroll,
            match ev {
                TrafficEvent::Log { level, source, message } => final(self).logs@ == ring_push(
                    old(self).logs@,
                    LogEntry { at_ms: now_ms, level, source, message },
                    LOG_CAP as nat,
                ),
                _ => final(self).logs == old(self).logs,
            },
            match ev {
                TrafficEvent::SessionOpen { id, client, protocol } => {
                    let row = SessionRow { id, client, protocol, tools_called: 0, last_activity_ms: now_ms };
                    let i = crate::text::first_index(old(self).sessions@, session_named(row.id@));
                    if i >= 0 {
                        final(self).sessions@ == old(self).sessions@.update(i, row)
                    } else {
                        final(self).sessions@ == old(self).sessions@.push(row)
                    }
                },
                TrafficEvent::SessionClose { id } => {
                    &&& forall|k: int| 0 <= k < final(self).sessions@.len() ==> (#[trigger] final(self).sessions@[k]).id@ != id@
                    &&& ({
                        let i = crate::text::first_index(old(self).sessions@, session_named(id@));
                        if i >= 0 {
                            final(self).sessions@ == old(self).sessions@.remove(i)
                        } else {
                            final(self).sessions@ == old(self).sessions@
                        }
                    })
                },
                _ => final(self).sessions == old(self).sessions,
            },
            match ev {
                TrafficEvent::ToolCall { name, latency_us, error, breakdown } => after_call(
                    old(self).tools@,
                    final(self).tools@,
                    name,
                    latency_us,
                    error,
                    breakdown,
                ),
                _ => final(self).tools == old(self).tools,
            },
            match ev {
                TrafficEvent::KbStat { collection, points, staleness_tenths } => {
                    let i = crate::text::first_index(old(self).kb_collections@, collection_named(collection@));
                    let e = (collection, points, staleness_tenths);
                    if i >= 0 {
                        final(self).kb_collections@ == old(self).kb_collections@.update(i, e)
                    } else {
                        final(self).kb_collections@ == old(self).kb_collections@.push(e)
                    }
                },
                _ => final(self).kb_collections == old(self).kb_collections,
            },
    {
        match ev {
            TrafficEvent::ToolCall { name, latency_us, error, breakdown } => {
                self.record_call(name, latency_us, error, breakdown);
            },
            TrafficEvent::SessionOpen { id, client, protocol } => {
                self.open_session(SessionRow { id, client, protocol, tools_called: 0, last_activity_ms: now_ms });
            },
            TrafficEvent::SessionClose { id } => {
                self.close_session(id.as_str());
            },
            TrafficEvent::Log { level, source, message } => {
                self.push_log(LogEntry { at_ms: now_ms, level, source, message });
            },
            TrafficEvent::KbStat { collection, points, staleness_tenths } => {
                self.set_collection(collection, points, staleness_tenths);
            },
        }
    }

    /// Milliseconds since the console started, given the time now.
    pub fn uptime_ms(&self, now_ms: u64) -> (r: u64)
        ensures
            r == if now_ms >= self.started_at_ms { (now_ms - self.started_at_ms) as u64 } else { 0 },
    {
        if now_ms >= self.started_at_ms { now_ms - self.started_at_ms } else { 0 }
    }
}

/// Moving to the next tab and then to the previous one comes back to the same tab,
/// and so does the reverse.
pub proof fn law_tab_round_trip(t: usize)
    requires
        t < 5,
    ensures
        ((t + 1) % 5 + 4) % 5 == t,
        ((t + 4) % 5 + 1) % 5 == t,
{
}

/// Opening a session under an id that is not open and then closing that id leaves
/// the open sessions as they were: the new row is found at the end, and removing it
/// gives the list back.
pub proof fn law_open_then_close(s: Seq<SessionRow>, row: SessionRow)
    requires
        crate::text::first_index(s, session_named(row.id@)) < 0,
    ensures
        crate::text::first_index(s.push(row), session_named(row.id@)) == s.len(),
        s.push(row).remove(s.len() as int) == s,
{
    let f = session_named(row.id@);
    let t = s.push(row);
    crate::text::lemma_first_from(s, f, 0);
    assert forall|m: int| 0 <= m < s.len() implies !f(#[trigger] t[m]) by {
        assert(t[m] == s[m]);
        if f(s[m]) {
            crate::text::lemma_not_before(s, f, 0, m);
        }
    }
    crate::text::lemma_first_at(t, f, 0, s.len() as int);
    assert(t.remove(s.len() as int) =~= s);
}

} // verus!
