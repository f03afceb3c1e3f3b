//! A deterministic synthetic traffic feed for exercising the console offline.
use vstd::prelude::*;
use crate::channels::{duration_millis, epoch_millis, millis_u64};
use crate::text::{concat3, contains, contains_seq, decimal, decimal_string, push_char, starts_with, starts_with_seq};
use crate::tui::app::{LatencyBreakdown, LogLevel, TrafficEvent};

verus! {

/// The tools the feed calls, by position.
pub open spec fn tool_at(i: int) -> Seq<char> {
    if i == 0 {
        "sap.docs.search"@
    } else if i == 1 {
        "sap.help.search"@
    } else if i == 2 {
        "abap.search"@
    } else if i == 3 {
        "sap.rfc.search"@
    } else if i == 4 {
        "sap.rfc.metadata"@
    } else if i == 5 {
        "sap.system.info"@
    } else if i == 6 {
        "sap.table.read"@
    } else if i == 7 {
        "sap.table.structure"@
    } else if i == 8 {
        "abap.adt.get_class"@
    } else if i == 9 {
        "abap.adt.get_program"@
    } else {
        "abap.adt.where_used"@
    }
}

/// Number of tools the feed calls.
pub const TOOL_COUNT: u64 = 11;

fn tool_name(i: u64) -> (r: &'static str)
    requires
        i < TOOL_COUNT,
    ensures
        r@ == tool_at(i as int),
{
    if i == 0 {
        "sap.docs.search"
    } else if i == 1 {
        "sap.help.search"
    } else if i == 2 {
        "abap.search"
    } else if i == 3 {
        "sap.rfc.search"
    } else if i == 4 {
        "sap.rfc.metadata"
    } else if i == 5 {
        "sap.system.info"
    } else if i == 6 {
        "sap.table.read"
    } else if i == 7 {
        "sap.table.structure"
    } else if i == 8 {
        "abap.adt.get_class"
    } else if i == 9 {
        "abap.adt.get_program"
    } else {
        "abap.adt.where_used"
    }
}

/// The lower-case hexadecimal digit for `v < 16`.
pub open spec fn hex_digit(v: int) -> char {
    if v < 10 { (48 + v) as char } else { (87 + v) as char }
}

/// `v < 65536` as four lower-case hexadecimal digits (as `{:04x}`).
pub open spec fn hex4(v: int) -> Seq<char> {
    seq![hex_digit(v / 4096), hex_digit((v / 256) % 16), hex_digit((v / 16) % 16), hex_digit(v % 16)]
}

fn hex_char(v: u64) -> (c: char)
    requires
        v < 16,
    ensures
        c == hex_digit(v as int),
{
    if v < 10 {
        ((48 + v) as u8) as char
    } else {
        ((87 + v) as u8) as char
    }
}

#[verifier::external_type_specification]
#[verifier::external_body]
pub struct ExInstant(std::time::Instant);

/// Calls `Instant::now`: a reading of the monotonic clock, of which nothing is stated.
#[verifier::external_body]
fn instant_now() -> std::time::Instant {
    std::time::Instant::now()
}

/// Calls `Instant::elapsed`: the time since `start` by the monotonic clock, of which
/// nothing is stated.
#[verifier::external_body]
fn instant_elapsed(start: &std::time::Instant) -> std::time::Duration {
    start.elapsed()
}

/// The feed's state.
pub struct Synthetic {
    /// When the feed started, by the monotonic clock.
    pub started: std::time::Instant,
    /// Ticks so far.
    pub tick: u64,
    /// Ids of the sessions it opened and has not closed.
    pub sessions: Vec<String>,
}

/// Whether tool `name` is served by a backend (ADT, RFC or tables) rather than
/// by retrieval.
pub open spec fn backend_tool(name: Seq<char>) -> bool {
    starts_with_seq(name, "abap."@) || starts_with_seq(name, "sap.rfc"@) || starts_with_seq(name, "sap.table"@)
}

/// The event of tick `t`, with the sessions before (`s`) and after (`s2`) it.
pub open spec fn tick_event(t: u64, s: Seq<Seq<char>>, s2: Seq<Seq<char>>, ev: TrafficEvent) -> bool {
    let phase = t % 23;
    if phase == 0 {
        let id = "S-"@ + hex4((t % 65536) as int);
        &&& s2 == s.push(id)
        &&& ev matches TrafficEvent::SessionOpen { id: i, client, protocol } && i@ == id && client@
            == "code-agent"@ && protocol@ == "2025-06-18"@
    } else if phase == 5 && s.len() > 0 {
        let k = (t % (s.len() as u64)) as int;
        &&& s2 == s.remove(k)
        &&& ev matches TrafficEvent::SessionClose { id } && id@ == s[k]
    } else if phase == 7 {
        s2 == s && (ev matches TrafficEvent::KbStat { collection, points, staleness_tenths }
            && collection@ == "sap_help"@ && points == 12_400 + t % 100 && staleness_tenths == 12)
    } else if phase == 11 {
        s2 == s && (ev matches TrafficEvent::KbStat { collection, points, staleness_tenths }
            && collection@ == "abap"@ && points == 84_300 + t % 100 && staleness_tenths == 4)
    } else if phase == 13 {
        s2 == s && (ev matches TrafficEvent::KbStat { collection, points, staleness_tenths }
            && collection@ == "bpmn"@ && points == 1_120 + t % 10 && staleness_tenths == 31)
    } else if phase == 17 {
        s2 == s && (ev matches TrafficEvent::KbStat { collection, points, staleness_tenths }
            && collection@ == "leanix"@ && points == 2_980 + t % 10 && staleness_tenths == 9)
    } else if phase == 19 {
        &&& s2 == s
        &&& if t % 200 == 0 {
            ev matches TrafficEvent::Log { level, source, message } && level == LogLevel::Warn
                && source@ == "rag"@ && message@ == "reranker latency spike: 380μs (P95 ceiling 350μs)"@
        } else {
            ev matches TrafficEvent::Log { level, source, message } && level == LogLevel::Info
                && source@ == "kb"@ && message@ == "upsert batch ok ("@ + decimal((24 + t % 8) as nat)
                + " chunks)"@
        }
    } else {
        let name = tool_at((t % 11) as int);
        let base: u64 = if backend_tool(name) { (200 + t % 800) as u64 } else { (100 + t % 150) as u64 };
        &&& s2 == s
        &&& ev matches TrafficEvent::ToolCall { name: n, latency_us, error, breakdown } && n@ == name
            && latency_us == base && error == (t % 197 == 0) && breakdown == if contains_seq(
            name,
            "search"@,
        ) {
            Some(
                LatencyBreakdown {
                    dense_us: (30 + t % 20) as u64,
                    sparse_us: (30 + t % 20) as u64,
                    fusion_us: 2,
                    rerank_us: (50 + t % 30) as u64,
                    total_us: base,
                },
            )
        } else {
            None
        }
    }
}

/// The texts of a list of ids.
pub open spec fn id_views(v: Seq<String>) -> Seq<Seq<char>> {
    crate::text::views(v)
}

impl Synthetic {
    /// A feed starting now.
    pub fn new() -> (s: Synthetic)
        ensures
            s.tick == 0,
            s.sessions@.len() == 0,
    {
        Synthetic { started: instant_now(), tick: 0, sessions: Vec::new() }
    }

    /// Milliseconds since the feed started, by the monotonic clock: the elapsed
    /// time's whole milliseconds as a `u64` (see `millis_u64`).
    pub fn uptime(&self) -> (r: u64)
        ensures
            exists|ms: u128| r == #[trigger] millis_u64(Some(ms)),
    {
        let ms = duration_millis(&instant_elapsed(&self.started));
        let r = epoch_millis(Some(ms));
        assert(r == millis_u64(Some(ms)));
        r
    }

    /// The next event: every 23 ticks a session opens, one closes (when any is
    /// open), four collections report and a log line is written; the other ticks
    /// call tools in turn (see `tick_event`).
    pub fn tick(&mut self) -> (r: Option<TrafficEvent>)
        requires
            old(self).tick < u64::MAX,
        ensures
            final(self).tick == old(self).tick + 1,
            final(self).started == old(self).started,
            r matches Some(ev) && tick_event(final(self).tick, id_views(old(self).sessions@), id_views(final(self).sessions@), ev),
            r matches Some(ev) && feed_step(final(self).tick, id_views(old(self).sessions@), id_views(final(self).sessions@), ev),
    {
        proof {
            reveal(feed_step);
        }
        self.tick = self.tick + 1;
        let t = self.tick;
        let phase = t % 23;
        if phase == 0 {
            let v = t % 65536;
            let mut id = String::from_str("S-");
            push_char(&mut id, hex_char(v / 4096));
            push_char(&mut id, hex_char((v / 256) % 16));
            push_char(&mut id, hex_char((v / 16) % 16));
            push_char(&mut id, hex_char(v % 16));
            proof {
                reveal_strlit("S-");
            }
            assert(id@ =~= "S-"@ + hex4(v as int));
            let ghost before = id_views(self.sessions@);
            self.sessions.push(id.clone());
            assert(id_views(self.sessions@) =~= before.push(id@));
            return Some(TrafficEvent::SessionOpen {
                id,
                client: String::from_str("code-agent"),
                protocol: String::from_str("2025-06-18"),
            });
        }
        if phase == 5 && self.sessions.len() > 0 {
            let k = t % (self.sessions.len() as u64);
            let ghost before = id_views(self.sessions@);
            let id = self.sessions.remove(k as usize);
            assert(id_views(self.sessions@) =~= before.remove(k as int));
            return Some(TrafficEvent::SessionClose { id });
        }
        if phase == 7 {
            return Some(TrafficEvent::KbStat { collection: String::from_str("sap_help"), points: 12_400 + t % 100, staleness_tenths: 12 });
        }
        if phase == 11 {
            return Some(TrafficEvent::KbStat { collection: String::from_str("abap"), points: 84_300 + t % 100, staleness_tenths: 4 });
        }
        if phase == 13 {
            return Some(TrafficEvent::KbStat { collection: String::from_str("bpmn"), points: 1_120 + t % 10, staleness_tenths: 31 });
        }
        if phase == 17 {
            return Some(TrafficEvent::KbStat { collection: String::from_str("leanix"), points: 2_980 + t % 10, staleness_tenths: 9 });
        }
        if phase == 19 {
            if t % 200 == 0 {
                return Some(TrafficEvent::Log {
                    level: LogLevel::Warn,
                    source: String::from_str("rag"),
                    message: String::from_str("reranker latency spike: 380μs (P95 ceiling 350μs)"),
                });
            } else {
                let n = decimal_string(24 + t % 8);
                return Some(TrafficEvent::Log {
                    level: LogLevel::Info,
                    source: String::from_str("kb"),
                    message: concat3("upsert batch ok (", n.as_str(), " chunks)"),
                });
            }
        }
        let name = tool_name(t % TOOL_COUNT);
        let base: u64 = if starts_with(name, "abap.") || starts_with(name, "sap.rfc") || starts_with(name, "sap.table") {
            200 + t % 800
        } else {
            100 + t % 150
        };
        let breakdown = if contains(name, "search") {
            Some(LatencyBreakdown {
                dense_us: 30 + t % 20,
                sparse_us: 30 + t % 20,
                fusion_us: 2,
                rerank_us: 50 + t % 30,
                total_us: base,
            })
        } else {
            None
        };
        Some(TrafficEvent::ToolCall { name: String::from_str(name), latency_us: base, error: t % 197 == 0, breakdown })
    }
}

/// What every tick of the feed keeps: a tool call names one of the feed's tools
/// and takes 200..=999 µs on a backend tool, 100..=249 µs otherwise; a session
/// that closes is one that was open; a session that opens joins the open ones.
pub proof fn law_tick_events(t: u64, s: Seq<Seq<char>>, s2: Seq<Seq<char>>, ev: TrafficEvent)
    requires
        tick_event(t, s, s2, ev),
        s.len() <= u64::MAX,
    ensures
        ev matches TrafficEvent::ToolCall { name, latency_us, .. } ==> {
            &&& exists|i: int| 0 <= i < TOOL_COUNT && #[trigger] tool_at(i) == name@
            &&& backend_tool(name@) ==> 200 <= latency_us <= 999
            &&& !backend_tool(name@) ==> 100 <= latency_us <= 249
        },
        ev matches TrafficEvent::SessionClose { id } ==> s.contains(id@) && s2.len() + 1 == s.len(),
        ev matches TrafficEvent::SessionOpen { id, .. } ==> s2 == s.push(id@),
{
    if ev is ToolCall {
        let i = (t % 11) as int;
        assert(tool_at(i) == ev->name@);
    }
    if ev is SessionClose {
        let n = s.len() as u64;
        assert(n as int == s.len());
        let k = (t % n) as int;
        assert(0 <= k < s.len());
        assert(s[k] == ev->SessionClose_id@);
    }
}

/// The ids of the sessions that `events` open, in order.
pub open spec fn opened_ids(events: Seq<TrafficEvent>) -> Seq<Seq<char>>
    decreases events.len(),
{
    if events.len() == 0 {
        Seq::empty()
    } else {
        let rest = opened_ids(events.drop_last());
        match events.last() {
            TrafficEvent::SessionOpen { id, .. } => rest.push(id@),
            _ => rest,
        }
    }
}

/// The ids of the sessions that `events` close, in order.
pub open spec fn closed_ids(events: Seq<TrafficEvent>) -> Seq<Seq<char>>
    decreases events.len(),
{
    if events.len() == 0 {
        Seq::empty()
    } else {
        let rest = closed_ids(events.drop_last());
        match events.last() {
            TrafficEvent::SessionClose { id } => rest.push(id@),
            _ => rest,
        }
    }
}

/// One tick of the feed (see `tick_event`), kept folded where runs are reasoned about.
#[verifier::opaque]
pub open spec fn feed_step(t: u64, s: Seq<Seq<char>>, s2: Seq<Seq<char>>, e: TrafficEvent) -> bool {
    tick_event(t, s, s2, e)
}

/// A run of the feed: `events[k]` is the event of tick `t0 + k + 1`, which takes
/// the open sessions from `states[k]` to `states[k + 1]`.
pub open spec fn feed_run(t0: u64, states: Seq<Seq<Seq<char>>>, events: Seq<TrafficEvent>) -> bool {
    &&& states.len() == events.len() + 1
    &&& t0 + events.len() <= u64::MAX
    &&& forall|k: int| 0 <= k < events.len() ==> feed_step((t0 + k + 1) as u64, states[k], #[trigger] states[k + 1], events[k])
}

/// The sessions an event opens.
pub open spec fn opens(e: TrafficEvent) -> vstd::multiset::Multiset<Seq<char>> {
    match e {
        TrafficEvent::SessionOpen { id, .. } => vstd::multiset::Multiset::singleton(id@),
        _ => vstd::multiset::Multiset::empty(),
    }
}

/// The sessions an event closes.
pub open spec fn closes(e: TrafficEvent) -> vstd::multiset::Multiset<Seq<char>> {
    match e {
        TrafficEvent::SessionClose { id } => vstd::multiset::Multiset::singleton(id@),
        _ => vstd::multiset::Multiset::empty(),
    }
}

proof fn lemma_tick_sessions(t: u64, s: Seq<Seq<char>>, s2: Seq<Seq<char>>, e: TrafficEvent)
    requires
        feed_step(t, s, s2, e),
        s.len() <= u64::MAX,
    ensures
        s2.to_multiset().add(closes(e)) == s.to_multiset().add(opens(e)),
        e matches TrafficEvent::SessionClose { id } ==> s.contains(id@),
{
    broadcast use vstd::seq_lib::group_to_multiset_ensures;
    reveal(feed_step);
    law_tick_events(t, s, s2, e);
    match e {
        TrafficEvent::SessionOpen { id, .. } => {
            assert(s2 == s.push(id@));
            assert(s2.to_multiset().add(closes(e)) =~= s.to_multiset().add(opens(e)));
        },
        TrafficEvent::SessionClose { id } => {
            let m = s.len() as u64;
            assert(m as int == s.len());
            let k = (t % m) as int;
            assert(s2 == s.remove(k));
            assert(s[k] == id@);
            assert(s2.to_multiset().add(closes(e)) =~= s.to_multiset().add(opens(e)));
        },
        _ => {
            assert(s2 == s);
            assert(s2.to_multiset().add(closes(e)) =~= s.to_multiset().add(opens(e)));
        },
    }
}

/// Over any run of the feed, the sessions open at its end are those open at its
/// start and those it opened, less those it closed, counted with multiplicity; each
/// session it closes was open at that tick. A feed made by `new` starts with none
/// open, so its open sessions are exactly those opened and not yet closed.
pub proof fn law_feed_sessions(t0: u64, states: Seq<Seq<Seq<char>>>, events: Seq<TrafficEvent>)
    requires
        feed_run(t0, states, events),
        forall|k: int| 0 <= k < states.len() ==> (#[trigger] states[k]).len() <= u64::MAX,
    ensures
        states.last().to_multiset().add(closed_ids(events).to_multiset()) == states[0].to_multiset().add(
            opened_ids(events).to_multiset(),
        ),
        forall|k: int| 0 <= k < events.len() ==> (#[trigger] events[k] matches TrafficEvent::SessionClose { id }
            ==> states[k].contains(id@)),
    decreases events.len(),
{
    broadcast use vstd::seq_lib::group_to_multiset_ensures;
    let n = events.len() as int;
    if n > 0 {
        let st = states.drop_last();
        let ev = events.drop_last();
        assert forall|k: int| 0 <= k < ev.len() implies feed_step((t0 + k + 1) as u64, st[k], #[trigger] st[k + 1], ev[k]) by {
            assert(feed_step((t0 + k + 1) as u64, states[k], states[k + 1], events[k]));
        }
        assert forall|k: int| 0 <= k < st.len() implies (#[trigger] st[k]).len() <= u64::MAX by {
            assert(states[k].len() <= u64::MAX);
        }
        law_feed_sessions(t0, st, ev);
        let e = events[n - 1];
        let j = n - 1;
        assert(feed_step((t0 + j + 1) as u64, states[j], states[j + 1], events[j]));
        assert(states[n - 1].len() <= u64::MAX);
        lemma_tick_sessions((t0 + n) as u64, states[n - 1], states[n], e);
        assert(st.last() == states[n - 1]);
        assert(st[0] == states[0]);
        assert(ev == events.drop_last());
        assert(opened_ids(events).to_multiset() =~= opened_ids(ev).to_multiset().add(opens(e)));
        assert(closed_ids(events).to_multiset() =~= closed_ids(ev).to_multiset().add(closes(e)));
        let a = states[n - 1].to_multiset();
        let b = states[n].to_multiset();
        assert(states.last() == states[n]);
        assert forall|x: Seq<char>| #[trigger] b.add(closed_ids(events).to_multiset()).count(x)
            == states[0].to_multiset().add(opened_ids(events).to_multiset()).count(x) by {
            assert(a.add(closed_ids(ev).to_multiset()).count(x) == states[0].to_multiset().add(opened_ids(ev).to_multiset()).count(x));
            assert(b.add(closes(e)).count(x) == a.add(opens(e)).count(x));
        }
        assert(states.last().to_multiset().add(closed_ids(events).to_multiset()) =~= states[0].to_multiset().add(
            opened_ids(events).to_multiset(),
        ));
        assert forall|k: int| 0 <= k < events.len() implies (#[trigger] events[k] matches TrafficEvent::SessionClose { id }
            ==> states[k].contains(id@)) by {
            if k < n - 1 {
                assert(events[k] == ev[k]);
                assert(states[k] == st[k]);
            }
        }
    } else {
        assert(states.last().to_multiset().add(closed_ids(events).to_multiset()) =~= states[0].to_multiset().add(
            opened_ids(events).to_multiset(),
        ));
    }
}

} // verus!
