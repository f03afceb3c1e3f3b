use sap_automate::adt::base64::encode as base64_encode;
use sap_automate::adt::error::{AdtError, AdtErrorCode};
use sap_automate::adt::types::{default_max_results, AbapObjectKind};
use sap_automate::adt::urlencoding::encode as url_encode;
use sap_automate::automate::{
    agents_md_candidates, bp_limit, build_instructions, classify_intent, default_bp_limit, default_lang,
    default_level_2, default_limit_20, default_max_hops, default_max_rows_100, default_max_seeds,
    default_navigate_depth, default_top_k, default_top_k_10, default_top_k_3, default_top_k_graph, exposure_for,
    graph_workload_queries, intent_query, intent_tool, reply_address, reply_text, truncate, workload_queries, Intent,
    TestServerOptions,
};
use sap_automate::channels::ChannelKind;
use sap_automate::connectors::ConnectorError;
use sap_automate::mcp::client::{answer_server_request, CallBook, call_outcome, next_step, DeclineAll, IoEvent, IoStep, ServerRequestAnswer};
use sap_automate::mcp::elicit::{deliver, elicitation_enabled, elicitation_outcome, ElicitationReply, PendingRequests, FIRST_SERVER_REQUEST_ID};
use sap_automate::mcp::error::{Error, ErrorCode, ErrorObject};
use sap_automate::mcp::jsonrpc::{classify, Id, MessageKind, JSONRPC_VERSION};
use sap_automate::mcp::protocol::{ElicitationAction, ElicitationParams, ElicitationResult};
use sap_automate::mcp::registry::ExposurePolicy;
use sap_automate::order::{dedup_strings, sort_strings};
use sap_automate::rank::sort_by_score_desc;
use sap_automate::seed::{seed_documents, Domain};
use sap_automate::tui::app::{App, LatencyBreakdown, LogEntry, LogLevel, SessionRow, ToolStat, TrafficEvent, LOG_CAP};
use sap_automate::tui::traffic::Synthetic;

#[test]
fn base64_of_credentials() {
    assert_eq!(base64_encode("user:pass"), "dXNlcjpwYXNz");
    assert_eq!(base64_encode(""), "");
    assert_eq!(base64_encode("a"), "YQ==");
    assert_eq!(base64_encode("ab"), "YWI=");
    assert_eq!(base64_encode("abc").len(), 4);
}

#[test]
fn url_encoding_keeps_unreserved_bytes() {
    assert_eq!(url_encode("a-b_c.d~e"), "a-b_c.d~e");
    assert_eq!(url_encode("DEVC/K"), "DEVC%2FK");
    assert_eq!(url_encode("ü"), "%C3%BC");
}

#[test]
fn adt_error_codes_and_bands() {
    assert_eq!(AdtErrorCode::Timeout.as_i32(), -32160);
    assert_eq!(AdtErrorCode::Locked.as_i32(), -32267);
    assert!(AdtErrorCode::RateLimited.is_transient());
    assert!(!AdtErrorCode::NotFound.is_transient());
    assert!(AdtError::CsrfRefresh.is_transient());
    assert!(!AdtError::Forbidden("x".to_string()).is_transient());
    assert_eq!(AdtError::Timeout { timeout_ms: 1500 }.message(), "ADT timeout after 1500 ms");
    assert_eq!(
        AdtError::NotFound { kind: "Class".to_string(), name: "ZX".to_string() }.message(),
        "object not found: Class 'ZX'"
    );
    assert_eq!(AdtError::Internal("x".to_string()).code(), AdtErrorCode::Timeout);
    assert_eq!(AdtError::Locked("x".to_string()).code(), AdtErrorCode::Locked);
}

#[test]
fn kinds_have_labels_and_paths() {
    assert_eq!(AbapObjectKind::FunctionModule.label(), "Function Module");
    assert_eq!(AbapObjectKind::Package.adt_path("ZFIN"), "/sap/bc/adt/repository/nodestructure?parent_name=zfin&parent_type=DEVC%2FK");
    assert_eq!(default_max_results(), 25);
}

#[test]
fn server_options_and_instructions() {
    let o = TestServerOptions::default();
    assert!(o.read_only);
    assert_eq!(exposure_for(true), ExposurePolicy::ReadOnlyOnly);
    assert_eq!(exposure_for(false), ExposurePolicy::All);
    let ro = build_instructions(&None, true);
    assert!(ro.starts_with("SAP-Automate MCP server (Phase 2 + ADT). Tool groups:\n"));
    assert!(ro.ends_with("Pass --enable-writes to allow.\n"));
    let rw = build_instructions(&Some("Never post to 1000.".to_string()), false);
    assert!(rw.ends_with("Mode: WRITE-ENABLED. Treat every sap.rfc.call invocation as authorised.\n\n--- AGENTS.md guardrails ---\nNever post to 1000."));
    assert_eq!(agents_md_candidates(None), vec!["AGENTS.md".to_string(), ".sap-automate/AGENTS.md".to_string()]);
    assert_eq!(agents_md_candidates(Some("x/AGENTS.md")), vec!["x/AGENTS.md".to_string()]);
}

#[test]
fn truncation_marks_what_was_cut() {
    assert_eq!(truncate("hello", 10), "hello");
    assert_eq!(truncate("hello", 5), "hello");
    assert_eq!(truncate("hello", 3), "hel…");
    assert_eq!(truncate("äöü", 1), "ä…");
}

#[test]
fn defaults_and_limits() {
    assert_eq!(default_navigate_depth(), 1);
    assert_eq!(default_top_k(), 5);
    assert_eq!(default_bp_limit(), 10);
    assert_eq!(default_limit_20(), 20);
    assert_eq!(default_lang(), "EN");
    assert_eq!(default_max_rows_100(), 100);
    assert_eq!(default_max_hops(), 4);
    assert_eq!(default_top_k_graph(), 8);
    assert_eq!(default_max_seeds(), 3);
    assert_eq!(default_top_k_3(), 3);
    assert_eq!(default_level_2(), 2);
    assert_eq!(default_top_k_10(), 10);
    assert_eq!(bp_limit(0), 1);
    assert_eq!(bp_limit(500), 100);
    assert_eq!(bp_limit(7), 7);
    assert_eq!(workload_queries().len(), 16);
    assert_eq!(workload_queries()[0], "period close foreign currency revaluation");
    assert!(!graph_workload_queries().is_empty());
}

#[test]
fn gateway_routes_by_intent() {
    assert_eq!(classify_intent("Any new ATC findings?"), Intent::AtcFindings);
    assert_eq!(classify_intent("What is the IMPACT of changing T001B?"), Intent::Impact);
    assert_eq!(classify_intent("who depends on BSEG"), Intent::Impact);
    assert_eq!(classify_intent("how do I close a period"), Intent::Docs);
    assert_eq!(intent_tool(Intent::Impact), "kb.multi_hop");
    assert_eq!(intent_tool(Intent::AtcFindings), "sap.docs.search");
    let q = intent_query(Intent::AtcFindings, "ignored");
    assert_eq!((q.query.as_str(), q.top_k, q.max_hops, q.domain.as_deref()), ("ATC findings test cockpit recent", 3, None, Some("all")));
    let q = intent_query(Intent::Impact, "impact of T001B");
    assert_eq!((q.query.as_str(), q.top_k, q.max_hops), ("impact of T001B", 6, Some(4)));
    assert_eq!(reply_address(ChannelKind::Cli, "default"), "cli:default");
    assert_eq!(
        reply_text("sap.docs.search", "A\nB", 2),
        "Routed via `sap.docs.search`.\n\nA\nB\n\nSession context: 2 working entries."
    );
}

#[test]
fn seed_corpus_spans_four_domains() {
    let docs = seed_documents();
    assert_eq!(docs.len(), 8);
    assert_eq!(docs[0].id, "abap:ZFIN/ZFIN_POST_JE");
    assert_eq!(docs[0].metadata, vec![("package".to_string(), "ZFIN".to_string()), ("type".to_string(), "REPORT".to_string())]);
    assert_eq!(docs[6].breadcrumbs, vec!["Finance".to_string(), "General Ledger".to_string()]);
    for d in [Domain::Abap, Domain::Bpmn, Domain::Leanix, Domain::SapHelp] {
        assert_eq!(docs.iter().filter(|x| x.domain == d).count(), 2);
    }
    assert!(docs.iter().all(|d| !d.text.is_empty()));
}

#[test]
fn strings_sort_and_dedup() {
    let v = sort_strings(vec!["b".to_string(), "a".to_string(), "b".to_string(), "B".to_string()]);
    assert_eq!(v, vec!["B", "a", "b", "b"]);
    assert_eq!(dedup_strings(v), vec!["B", "a", "b"]);
}

#[test]
fn scores_sort_descending_and_stably() {
    let r = sort_by_score_desc(vec![(1u64, 'a'), (3, 'b'), (1, 'c'), (3, 'd')]);
    assert_eq!(r, vec![(3, 'b'), (3, 'd'), (1, 'a'), (1, 'c')]);
}

#[test]
fn message_kinds_by_members() {
    assert_eq!(classify(true, true), MessageKind::Request);
    assert_eq!(classify(true, false), MessageKind::Notification);
    assert_eq!(classify(false, true), MessageKind::Response);
    assert_eq!(JSONRPC_VERSION, "2.0");
    assert_eq!(Id::from_number(7).number(), Some(7));
    assert_eq!(Id::from_text("abc").number(), None);
}

#[test]
fn error_codes_are_the_json_rpc_numbers() {
    assert_eq!(ErrorCode::ParseError.as_i32(), -32700);
    assert_eq!(ErrorCode::UnknownTool.as_i32(), -32202);
    assert_eq!(ErrorCode::StaleCache.as_i32(), -32301);
    for c in [ErrorCode::Timeout, ErrorCode::ToolBusy, ErrorCode::UpstreamUnavailable] {
        assert!((-32199..=-32100).contains(&c.as_i32()));
    }
    assert_eq!(Error::TransportClosed.message(), "transport closed");
    assert!(matches!(Error::protocol(ErrorCode::Timeout, "slow".to_string()), Error::Protocol { code: -32100, .. }));
}

#[test]
fn pending_requests_hand_out_fresh_ids() {
    let mut p: PendingRequests<&str> = PendingRequests::new(FIRST_SERVER_REQUEST_ID);
    let a = p.register("first");
    let b = p.register("second");
    assert_ne!(a, b);
    assert_eq!(p.len(), 2);
    assert_eq!(deliver(&mut p, &Id::from_number(b)), Some("second"));
    assert_eq!(p.take(b), None);
    assert_eq!(deliver(&mut p, &Id::from_text("x")), None);
    assert_eq!(p.take(a), Some("first"));
    assert_eq!(p.len(), 0);
    p.register("third");
    p.clear();
    assert_eq!(p.len(), 0);
}

#[test]
fn elicitation_endings() {
    let answer = ElicitationResult { action: ElicitationAction::Accept, content: Some("{}".to_string()) };
    assert_eq!(elicitation_outcome(false, true, None), ElicitationResult::bare(ElicitationAction::Decline));
    assert_eq!(elicitation_outcome(true, false, None), ElicitationResult::bare(ElicitationAction::Cancel));
    assert_eq!(elicitation_outcome(true, true, Some(ElicitationReply::Error)), ElicitationResult::bare(ElicitationAction::Cancel));
    assert_eq!(elicitation_outcome(true, true, Some(ElicitationReply::Answer(answer.clone()))), answer);
}

#[test]
fn client_answers_server_requests() {
    let params = ElicitationParams { message: "Confirm?".to_string(), requested_schema: "{}".to_string() };
    match answer_server_request(&DeclineAll, "elicitation/create", Some(params)) {
        ServerRequestAnswer::Reply(r) => assert_eq!(r.action, ElicitationAction::Decline),
        _ => panic!("expected a reply"),
    }
    match answer_server_request(&DeclineAll, "elicitation/create", None) {
        ServerRequestAnswer::Refuse(o) => assert_eq!((o.code, o.message.as_str()), (-32602, "invalid elicitation params")),
        _ => panic!("expected a refusal"),
    }
    match answer_server_request(&DeclineAll, "sampling/createMessage", None) {
        ServerRequestAnswer::Refuse(o) => {
            assert_eq!(o.code, -32601);
            assert_eq!(o.message, "method 'sampling/createMessage' not supported by client");
        }
        _ => panic!("expected a refusal"),
    }
}

#[test]
fn client_loop_steps() {
    assert_eq!(next_step(&IoEvent::Outgoing), IoStep::Send);
    assert_eq!(next_step(&IoEvent::Response(Id::from_number(3))), IoStep::Deliver(3));
    assert_eq!(next_step(&IoEvent::Response(Id::from_text("a"))), IoStep::Ignore);
    assert_eq!(next_step(&IoEvent::Notification), IoStep::Log);
    assert_eq!(next_step(&IoEvent::Request), IoStep::Serve);
    assert_eq!(next_step(&IoEvent::Eof), IoStep::Stop);
    assert_eq!(next_step(&IoEvent::SendFailed), IoStep::Stop);
}

#[test]
fn call_replies_are_read() {
    assert!(call_outcome(None, true).is_ok());
    assert!(matches!(call_outcome(None, false), Err(Error::Protocol { code: -32600, message }) if message == "response missing result"));
    let o = ErrorObject::new(-32202, "unknown tool 'x'".to_string());
    assert!(matches!(call_outcome(Some(o), true), Err(Error::Protocol { code: -32202, .. })));
}

#[test]
fn connector_errors_read_as_text() {
    assert_eq!(ConnectorError::NotFound("ZX".to_string()).message(), "not found: ZX");
    assert_eq!(ConnectorError::Upstream("503".to_string()).message(), "upstream error: 503");
    assert_eq!(ConnectorError::Auth("expired".to_string()).message(), "auth error: expired");
}

#[test]
fn tabs_wrap_both_ways() {
    let mut a = App::new(1_000);
    for _ in 0..5 {
        a.next_tab();
    }
    assert_eq!(a.current_tab, 0);
    a.prev_tab();
    assert_eq!(a.current_tab, 4);
    a.next_tab();
    assert_eq!(a.current_tab, 0);
    a.set_tab(3);
    assert_eq!(a.current_tab, 3);
    a.set_tab(9);
    assert_eq!(a.current_tab, 3);
}

#[test]
fn scrolling_saturates() {
    let mut a = App::new(0);
    assert!(a.scroll.is_empty());
    a.scroll_up();
    assert_eq!(a.scroll[&0], 0);
    a.scroll_down();
    a.scroll_down();
    assert_eq!(a.scroll[&0], 2);
    assert_eq!(a.scroll_offset(0), 2);
    a.set_tab(1);
    assert_eq!(a.scroll_offset(1), 0);
    assert!(!a.scroll.contains_key(&1));
    a.scroll_down();
    assert_eq!(a.scroll_offset(1), 1);
    assert_eq!(a.scroll_offset(0), 2);
}

#[test]
fn tool_calls_are_counted_and_sampled() {
    let mut a = App::new(0);
    a.record_call("abap.search".to_string(), 120, false, None);
    a.record_call("abap.search".to_string(), 80, true, Some(LatencyBreakdown { dense_us: 1, sparse_us: 2, fusion_us: 3, rerank_us: 4, total_us: 80 }));
    a.record_call("sap.rfc.call".to_string(), 500, false, None);
    assert_eq!(a.tools.len(), 2);
    let s = &a.tools[0];
    assert_eq!((s.invocations, s.errors), (2, 1));
    assert_eq!(s.samples_us, vec![120, 80]);
    assert_eq!(s.last_breakdown.unwrap().total_us, 80);
    assert_eq!(s.sample_at(0), 80);
    assert_eq!(s.sample_at(1), 120);
    assert_eq!(s.sample_at(99), 120);
    assert_eq!(ToolStat::new("x".to_string()).sample_at(0), 0);
}

#[test]
fn latency_samples_are_a_bounded_ring() {
    let mut t = ToolStat::new("t".to_string());
    for i in 0..130u64 {
        t.record(i, false, None);
    }
    assert_eq!(t.samples_us.len(), 120);
    assert_eq!(t.samples_us[0], 10);
    assert_eq!(t.invocations, 130);
}

#[test]
fn sessions_open_and_close() {
    let mut a = App::new(0);
    let row = |id: &str| SessionRow { id: id.to_string(), client: "c".to_string(), protocol: "2025-06-18".to_string(), tools_called: 0, last_activity_ms: 5 };
    a.open_session(row("S-1"));
    a.open_session(row("S-2"));
    a.open_session(row("S-1"));
    assert_eq!(a.sessions.len(), 2);
    a.close_session("S-1");
    assert_eq!(a.sessions.len(), 1);
    assert_eq!(a.sessions[0].id, "S-2");
    a.close_session("nope");
    assert_eq!(a.sessions.len(), 1);
}

#[test]
fn log_is_bounded() {
    let mut a = App::new(0);
    for i in 0..(LOG_CAP as u64 + 5) {
        a.push_log(LogEntry { at_ms: i, level: LogLevel::Info, source: "s".to_string(), message: "m".to_string() });
    }
    assert_eq!(a.logs.len(), LOG_CAP);
    assert_eq!(a.logs[0].at_ms, 5);
}

#[test]
fn events_update_the_console() {
    let mut a = App::new(100);
    a.observe(TrafficEvent::SessionOpen { id: "S-0001".to_string(), client: "code-agent".to_string(), protocol: "2025-06-18".to_string() }, 150);
    a.observe(TrafficEvent::ToolCall { name: "sap.docs.search".to_string(), latency_us: 130, error: false, breakdown: None }, 160);
    a.observe(TrafficEvent::KbStat { collection: "abap".to_string(), points: 84_300, staleness_tenths: 4 }, 170);
    a.observe(TrafficEvent::KbStat { collection: "abap".to_string(), points: 84_301, staleness_tenths: 5 }, 180);
    a.observe(TrafficEvent::Log { level: LogLevel::Warn, source: "rag".to_string(), message: "spike".to_string() }, 190);
    assert_eq!(a.sessions.len(), 1);
    assert_eq!(a.tools.len(), 1);
    assert_eq!(a.kb_collections, vec![("abap".to_string(), 84_301, 5)]);
    assert_eq!(a.logs.back().unwrap().at_ms, 190);
    a.observe(TrafficEvent::SessionClose { id: "S-0001".to_string() }, 200);
    assert!(a.sessions.is_empty());
    assert_eq!(a.uptime_ms(1_100), 1_000);
    assert_eq!(a.uptime_ms(50), 0);
}

#[test]
fn synthetic_feed_follows_its_cycle() {
    let mut s = Synthetic::new();
    let mut opened = 0;
    for _ in 0..46 {
        match s.tick() {
            Some(TrafficEvent::SessionOpen { id, client, .. }) => {
                opened += 1;
                assert!(id.starts_with("S-"));
                assert_eq!(id.len(), 6);
                assert_eq!(client, "code-agent");
            }
            Some(_) => {}
            None => panic!("every tick yields an event"),
        }
    }
    assert_eq!(s.tick, 46);
    assert_eq!(opened, 2);
    assert!(s.uptime() < 60_000);
    let earlier = s.uptime();
    assert!(s.uptime() >= earlier);
}

#[test]
fn synthetic_feed_closes_an_open_session_and_keeps_latencies_in_range() {
    let mut s = Synthetic::new();
    let mut events = Vec::new();
    for _ in 0..28 {
        events.push(s.tick().expect("every tick yields an event"));
    }
    match &events[6] {
        TrafficEvent::KbStat { collection, points, staleness_tenths } => {
            assert_eq!(collection, "sap_help");
            assert_eq!(*points, 12_407);
            assert_eq!(*staleness_tenths, 12);
        }
        other => panic!("unexpected event {other:?}"),
    }
    match &events[22] {
        TrafficEvent::SessionOpen { id, protocol, .. } => {
            assert_eq!(id, "S-0017");
            assert_eq!(protocol, "2025-06-18");
        }
        other => panic!("unexpected event {other:?}"),
    }
    match &events[27] {
        TrafficEvent::SessionClose { id } => assert_eq!(id, "S-0017"),
        other => panic!("unexpected event {other:?}"),
    }
    assert!(s.sessions.is_empty());
    for ev in &events {
        if let TrafficEvent::ToolCall { name, latency_us, .. } = ev {
            let backend = name.starts_with("abap.") || name.starts_with("sap.rfc") || name.starts_with("sap.table");
            if backend {
                assert!((200..=999).contains(latency_us), "{name}: {latency_us}");
            } else {
                assert!((100..=249).contains(latency_us), "{name}: {latency_us}");
            }
        }
    }
}

#[test]
fn base64_pads_each_short_group() {
    assert_eq!(base64_encode("abc"), "YWJj");
    assert_eq!(base64_encode("abcd"), "YWJjZA==");
    assert_eq!(base64_encode("abcde"), "YWJjZGU=");
    assert_eq!(base64_encode("abcdef"), "YWJjZGVm");
    for s in ["", "a", "ab", "abc", "abcd", "abcde", "user:pass"] {
        let r = base64_encode(s);
        let pad = (3 - s.len() % 3) % 3;
        assert_eq!(r.len(), 4 * ((s.len() + 2) / 3));
        assert!(r.ends_with(&"=".repeat(pad)));
        assert!(r[..r.len() - pad].chars().all(|c| c.is_ascii_alphanumeric() || c == '+' || c == '/'));
    }
}

#[test]
fn elicitation_needs_a_capable_transport_and_an_advertising_client() {
    assert!(elicitation_enabled(true, true));
    assert!(!elicitation_enabled(true, false));
    assert!(!elicitation_enabled(false, true));
    assert!(!elicitation_enabled(false, false));
    let r = elicitation_outcome(elicitation_enabled(true, false), false, None);
    assert_eq!(r.action, ElicitationAction::Decline);
    assert!(r.content.is_none());
}

#[test]
fn base64_keeps_inputs_apart() {
    let inputs = ["", "a", "b", "ab", "ac", "abc", "abd", "user:pass", "user:pasS"];
    for (i, x) in inputs.iter().enumerate() {
        for (j, y) in inputs.iter().enumerate() {
            assert_eq!(base64_encode(x) == base64_encode(y), i == j, "{x:?} / {y:?}");
        }
    }
}

#[test]
fn stopped_connection_ends_every_call() {
    let mut book: CallBook<&str> = CallBook::new();
    assert_eq!(book.begin("first").unwrap(), 1);
    assert_eq!(book.begin("second").unwrap(), 2);
    assert_eq!(book.begin("third").unwrap(), 3);
    assert_eq!(book.answer(2), Some("second"));
    assert_eq!(book.answer(2), None);
    assert_eq!(book.answer(9), None);
    let dropped = book.stop();
    assert_eq!(dropped.len(), 2);
    assert_eq!(dropped.get(&1), Some(&"first"));
    assert_eq!(dropped.get(&3), Some(&"third"));
    assert!(matches!(book.begin("late"), Err(Error::TransportClosed)));
    assert_eq!(book.answer(1), None);
    assert!(book.stop().is_empty());
}

fn base64_decode_for_test(r: &str) -> Vec<u8> {
    let value = |c: u8| -> u8 {
        match c {
            b'A'..=b'Z' => c - b'A',
            b'a'..=b'z' => c - b'a' + 26,
            b'0'..=b'9' => c - b'0' + 52,
            b'+' => 62,
            _ => 63,
        }
    };
    let mut out = Vec::new();
    for group in r.as_bytes().chunks(4) {
        let v: Vec<u8> = group.iter().map(|&c| value(c)).collect();
        let bytes = [(v[0] << 2) | (v[1] >> 4), ((v[1] & 15) << 4) | (v[2] >> 2), ((v[2] & 3) << 6) | v[3]];
        let keep = if group[2] == b'=' { 1 } else if group[3] == b'=' { 2 } else { 3 };
        out.extend_from_slice(&bytes[..keep]);
    }
    out
}

#[test]
fn base64_decodes_back_to_its_input() {
    for s in ["", "a", "ab", "abc", "abcd", "user:pass", "S/4 ~ HANA?", "ÿþ€"] {
        assert_eq!(base64_decode_for_test(&base64_encode(s)), s.as_bytes(), "{s:?}");
    }
}

#[test]
fn synthetic_feed_keeps_opened_and_not_closed_sessions() {
    let mut s = Synthetic::new();
    let mut open: Vec<String> = Vec::new();
    for _ in 0..2_000 {
        match s.tick().expect("every tick yields an event") {
            TrafficEvent::SessionOpen { id, .. } => open.push(id),
            TrafficEvent::SessionClose { id } => {
                let k = open.iter().position(|o| *o == id).expect("a closed session was open");
                open.remove(k);
            }
            _ => {}
        }
        let mut a = open.clone();
        let mut b = s.sessions.clone();
        a.sort();
        b.sort();
        assert_eq!(a, b);
    }
}
