use cc_spec_tool::concurrency::{ConcurrencyController, TaskType};
use cc_spec_tool::events::{AgentEventType, AgentSource, EventDispatcher, EventQuery, SimpleAgentEvent};
use cc_spec_tool::relay::{classify_exit, control_command, ControlCommand, ExitReason, RelayAction, RelayState, SessionNotice};
use cc_spec_tool::runner::{build_command, should_attempt_again, RunErrorType, RunOutcome, RunWatch, WatchStep};
use cc_spec_tool::skills::{match_skills, tools_config_path, Skill, SkillTrigger, SkillType, TriggerSettings};
use cc_spec_tool::text::{blank, str_eq};
use cc_spec_tool::cli::{toml_array, toml_escape};
use cc_spec_tool::cli::parse_u16;
use cc_spec_tool::cli::parse_endpoint;
use cc_spec_tool::cli::{parse_args, relay_args};
use cc_spec_tool::relay::SseAssembler;
use cc_spec_tool::relay::DsrScanner;
use cc_spec_tool::claude::map_claude_event;
use cc_spec_tool::events::{agent_event_from_ingest, agent_event_name, normalize_agent_ids, IngressFields};
use cc_spec_tool::http::{content_length_header, request_line, HeadReader, HeadStep};
use cc_spec_tool::peer::{check_initialized, peer_env, sentinel_path, SentinelState};

#[test]
fn admission_queue_scenario() {
    let mut c = ConcurrencyController::with_global_cap(1, 1, 2);
    let cc = c.try_acquire_cc("a".to_string(), "/p".to_string()).ok().unwrap();
    let x1 = c.try_acquire_cx("b".to_string(), "/p".to_string()).ok().unwrap();
    assert_eq!(c.total_running(), 2);
    let queued = c.try_acquire_cx("c".to_string(), "/p".to_string()).err().unwrap();
    assert_eq!(c.status().cx_queued, 1);
    let admitted = c.release(x1).unwrap();
    assert_eq!(admitted.task_id(), queued);
    assert_eq!(admitted.task_type(), TaskType::CX);
    assert_eq!(c.cx_running(), 1);
    assert_eq!(c.status().queue.len(), 0);
    assert!(c.try_acquire_cx("d".to_string(), "/p".to_string()).is_err());
    assert_eq!(c.status().cx_queued, 1);
    assert_eq!(cc.task_type(), TaskType::CC);
}

#[test]
fn release_admits_first_eligible_in_fifo_order() {
    let mut c = ConcurrencyController::with_global_cap(1, 2, 2);
    let a = c.try_acquire(TaskType::CC, "a".to_string(), "/p".to_string(), "t".to_string()).ok().unwrap();
    let _b = c.try_acquire(TaskType::CX, "b".to_string(), "/p".to_string(), "t".to_string()).ok().unwrap();
    let q1 = c.try_acquire(TaskType::CX, "x1".to_string(), "/p".to_string(), "t".to_string()).err().unwrap();
    let q2 = c.try_acquire(TaskType::CC, "c1".to_string(), "/p".to_string(), "t".to_string()).err().unwrap();
    let _q3 = c.try_acquire(TaskType::CX, "x2".to_string(), "/p".to_string(), "t".to_string()).err().unwrap();
    let next = c.release(a).unwrap();
    assert_eq!(next.task_id(), q1);
    let st = c.status();
    assert_eq!(st.queue[0].id, q2);
    assert_eq!(st.queue[0].position, 0);
    assert_eq!(st.queue[0].task_type, "CC");
    assert_eq!(st.queue[1].task_type, "CX");
    assert_eq!(st.total_running, 2);
}

#[test]
fn counters_never_underflow_and_cancel() {
    let mut c = ConcurrencyController::new(3, 5);
    assert_eq!(c.global_limit(), 6);
    let h = c.try_acquire_cc("a".to_string(), "/p".to_string()).ok().unwrap();
    let id = h.task_id();
    assert!(c.release(h).is_none());
    assert_eq!(c.cc_running(), 0);
    assert!(!c.cancel_queued(id));
    let mut d = ConcurrencyController::with_global_cap(0, 0, 6);
    let q = d.try_acquire_cc("w".to_string(), "/p".to_string()).err().unwrap();
    assert!(d.cancel_queued(q));
    assert!(!d.cancel_queued(q));
    assert_eq!(d.status().cc_queued, 0);
    let dflt = ConcurrencyController::default();
    let st = dflt.status();
    assert_eq!((st.cc_max, st.cx_max, st.total_max), (3, 5, 6));
}

#[test]
fn set_limits_keeps_running_tasks() {
    let mut c = ConcurrencyController::new(2, 2);
    let _a = c.try_acquire_cc("a".to_string(), "/p".to_string()).ok().unwrap();
    let _b = c.try_acquire_cc("b".to_string(), "/p".to_string()).ok().unwrap();
    c.set_limits(1, 1);
    assert_eq!(c.cc_running(), 2);
    assert!(c.try_acquire_cc("c".to_string(), "/p".to_string()).is_err());
}

fn stream(text: &str) -> AgentEventType {
    AgentEventType::Stream { text: text.to_string(), channel: None, partial: None }
}

#[test]
fn sse_ordering_under_load() {
    let mut bus = EventDispatcher::new();
    for i in 0..1000u64 {
        let e = bus.publish_raw(stream("x"), AgentSource::Codex, "s".to_string(), "r".to_string());
        assert_eq!(e.seq, i + 1);
    }
    assert_eq!(bus.last_seq(), 1000);
    let q = EventQuery { session_id: None, run_id: None, after_seq: None, limit: Some(500), types: None };
    let got = bus.query(&q);
    assert_eq!(got.len(), 500);
    for (k, e) in got.iter().enumerate() {
        assert_eq!(e.seq, k as u64 + 1);
    }
    let q = EventQuery { session_id: None, run_id: None, after_seq: Some(990), limit: None, types: None };
    let tail: Vec<u64> = bus.query(&q).iter().map(|e| e.seq).collect();
    assert_eq!(tail, (991..=1000).collect::<Vec<u64>>());
}

#[test]
fn history_ring_drops_oldest() {
    let mut bus = EventDispatcher::new();
    for _ in 0..1005 {
        bus.publish_raw(stream("x"), AgentSource::Codex, "s".to_string(), "r".to_string());
    }
    let q = EventQuery { session_id: None, run_id: None, after_seq: None, limit: Some(1), types: None };
    assert_eq!(bus.query(&q)[0].seq, 6);
    bus.clear_history();
    assert!(bus.query(&q).is_empty());
    assert_eq!(bus.last_seq(), 1005);
}

#[test]
fn query_filters_and_default_limit() {
    let mut bus = EventDispatcher::new();
    let first = bus.publish_raw(stream("a"), AgentSource::Claude, "s1".to_string(), "r1".to_string());
    assert_eq!(first.id, "evt_000000000001");
    bus.publish_raw(AgentEventType::Heartbeat { last_activity: None }, AgentSource::System, "s2".to_string(), "r1".to_string());
    bus.publish_raw(stream("b"), AgentSource::Claude, "s1".to_string(), "r2".to_string());
    let q = EventQuery { session_id: Some("s1".to_string()), run_id: None, after_seq: None, limit: None, types: None };
    assert_eq!(bus.query(&q).iter().map(|e| e.seq).collect::<Vec<_>>(), vec![1, 3]);
    let q = EventQuery { session_id: None, run_id: Some("r1".to_string()), after_seq: None, limit: None, types: Some(vec!["agent.heartbeat".to_string()]) };
    assert_eq!(bus.query(&q).iter().map(|e| e.seq).collect::<Vec<_>>(), vec![2]);
    for _ in 0..150 {
        bus.publish_raw(stream("c"), AgentSource::Codex, "s3".to_string(), "r3".to_string());
    }
    let q = EventQuery { session_id: None, run_id: None, after_seq: None, limit: None, types: None };
    assert_eq!(bus.query(&q).len(), 100);
    let q = EventQuery { session_id: None, run_id: None, after_seq: None, limit: Some(10_000), types: None };
    assert_eq!(bus.query(&q).len(), 153);
}

#[test]
fn simple_event_flattens() {
    let mut bus = EventDispatcher::new();
    let e = bus.publish_raw(AgentEventType::Heartbeat { last_activity: None }, AgentSource::Viewer, "s".to_string(), "r".to_string());
    match SimpleAgentEvent::from_event(&e) {
        SimpleAgentEvent::Started { session_id, source } => {
            assert_eq!(session_id, "s");
            assert_eq!(source, AgentSource::Viewer);
        }
        _ => panic!("a heartbeat reads as a start"),
    }
    assert_eq!(AgentSource::default(), AgentSource::System);
}

#[test]
fn exit_classification_table() {
    let peer = Some("claude_code".to_string());
    let tool = Some("tool".to_string());
    assert_eq!(classify_exit(&peer, Some(10_000), 0, 137, 12_000), ExitReason::ClaudeRequested);
    assert_eq!(classify_exit(&tool, Some(10_000), 0, 1, 15_000), ExitReason::ToolRequested);
    assert_eq!(classify_exit(&None, None, 9_000, 130, 10_500), ExitReason::UserRequested);
    assert_eq!(classify_exit(&None, None, 0, 0, 100_000), ExitReason::UserRequested);
    assert_eq!(classify_exit(&None, None, 0, 134, 100_000), ExitReason::CrashOrUnknown);
    assert_eq!(classify_exit(&tool, Some(10_000), 0, 0, 20_000), ExitReason::CrashOrUnknown);
    assert_eq!(classify_exit(&tool, Some(10_000), 19_000, 2, 20_000), ExitReason::UserRequested);
    assert_eq!(ExitReason::CrashOrUnknown.as_text(), "crash_or_unknown");
}

fn some(s: &str) -> Option<String> {
    Some(s.to_string())
}

#[test]
fn control_messages_are_parsed_per_session() {
    let c = control_command(&some("codex.control"), &some("s1"), "s1", &some("retry"), &some("again"), &some("r1"), &None);
    match c {
        Some(ControlCommand::Retry { text, request_id, requested_by }) => {
            assert_eq!(text, "again");
            assert_eq!(request_id.as_deref(), Some("r1"));
            assert!(requested_by.is_none());
        }
        _ => panic!("expected a retry"),
    }
    assert!(control_command(&some("codex.control"), &some("s2"), "s1", &some("kill"), &None, &None, &None).is_none());
    assert!(control_command(&some("codex.stream"), &some("s1"), "s1", &some("kill"), &None, &None, &None).is_none());
    assert!(control_command(&some("codex.control"), &some("s1"), "s1", &some("dance"), &None, &None, &None).is_none());
    assert!(matches!(
        control_command(&some("codex.control"), &some("s1"), "s1", &some("pause"), &None, &None, &None),
        Some(ControlCommand::Pause { .. })
    ));
}

#[test]
fn relay_spawns_on_input_and_ignores_stale_exits() {
    let mut r = RelayState::new();
    assert!(matches!(r.start()[0], RelayAction::Spawn { generation: 1 }));
    let acts = r.on_spawned(1234);
    assert!(matches!(acts[0], RelayAction::Publish(SessionNotice::Started { pid: 1234 })));
    assert_eq!(acts.len(), 1);

    let acts = r.on_child_exited(1, 0, 100_000);
    assert!(matches!(acts[0], RelayAction::Publish(SessionNotice::Exited { exit_code: 0, reason: ExitReason::UserRequested })));
    assert!(!r.attached);

    let acts = r.on_control(ControlCommand::SendInput { text: "hé".to_string(), request_id: None, requested_by: None }, 100_100);
    assert!(matches!(acts[0], RelayAction::Spawn { generation: 2 }));
    let acts = r.on_spawned(4321);
    match &acts[1] {
        RelayAction::WriteToChild(b) => assert_eq!(b, &"hé\n".as_bytes().to_vec()),
        _ => panic!("expected the waiting input"),
    }
    assert!(r.on_child_exited(1, 9, 100_200).is_empty());
    assert!(r.attached);

    let acts = r.on_dsr();
    match &acts[0] {
        RelayAction::WriteToChild(b) => assert_eq!(b, &b"\x1b[1;1R".to_vec()),
        _ => panic!("expected a cursor report"),
    }
    let acts = r.on_stdin(vec![b'a', 0x03], 100_300);
    assert_eq!(acts.len(), 1);
    assert_eq!(r.last_user_interrupt_at_ms, 100_300);
}

#[test]
fn relay_kill_reports_and_stops() {
    let mut r = RelayState::new();
    r.on_spawned(77);
    let acts = r.on_control(ControlCommand::Kill { requested_by: some("claude_code") }, 5);
    assert!(matches!(acts[0], RelayAction::KillChild { pid: 77 }));
    assert!(matches!(acts[1], RelayAction::Publish(SessionNotice::Exited { exit_code: 137, reason: ExitReason::ClaudeRequested })));
    assert!(matches!(acts[2], RelayAction::Exit));
    assert!(r.finished);
    let mut r3 = RelayState::new();
    r3.on_spawned(8);
    let acts = r3.on_control(ControlCommand::Kill { requested_by: None }, 5);
    assert!(matches!(acts[1], RelayAction::Publish(SessionNotice::Exited { exit_code: 137, reason: ExitReason::ToolRequested })));
    let mut r2 = RelayState::new();
    let acts = r2.on_spawn_failed();
    assert!(matches!(acts[0], RelayAction::Publish(SessionNotice::Exited { exit_code: -1, reason: ExitReason::SpawnFailed })));
}

#[test]
fn relay_retry_kills_and_respawns() {
    let mut r = RelayState::new();
    r.on_spawned(10);
    let acts = r.on_control(ControlCommand::Retry { text: "again".to_string(), request_id: None, requested_by: some("tool") }, 50);
    assert!(matches!(acts[0], RelayAction::KillChild { pid: 10 }));
    assert!(matches!(acts[1], RelayAction::Spawn { generation: 2 }));
    assert_eq!(r.last_stop_requested_by.as_deref(), Some("tool"));
    let acts = r.on_child_exited(1, 137, 60);
    assert!(acts.is_empty());
}

fn skill(name: &str, t: SkillType, keywords: &[&str], patterns: &[&str]) -> Skill {
    Skill {
        name: name.to_string(),
        version: "1.0.0".to_string(),
        skill_type: t,
        description: String::new(),
        enabled: true,
        source: None,
        imported_from: None,
        imported_at: None,
        body: None,
        triggers: SkillTrigger {
            keywords: keywords.iter().map(|s| s.to_string()).collect(),
            patterns: patterns.iter().map(|s| s.to_string()).collect(),
        },
    }
}

#[test]
fn skills_rank_by_score_then_type() {
    let skills = vec![
        skill("domain", SkillType::Domain, &["deploy"], &[]),
        skill("workflow", SkillType::Workflow, &["deploy"], &[]),
        skill("pattern", SkillType::Execution, &[], &["(plan|apply)"]),
        skill("none", SkillType::Workflow, &["zzz"], &[]),
    ];
    let r = match_skills("Please DEPLOY and Apply", &skills, &TriggerSettings::new());
    let names: Vec<&str> = r.matches.iter().map(|m| m.skill.name.as_str()).collect();
    assert_eq!(names, vec!["pattern", "workflow", "domain"]);
    assert_eq!(r.matches[0].score, 20);
    assert_eq!(r.matches[1].matched_keywords, vec!["deploy".to_string()]);
    assert!(!r.case_sensitive);

    let mut cs = TriggerSettings::new();
    cs.case_sensitive = true;
    let r = match_skills("Please DEPLOY", &skills, &cs);
    assert!(r.matches.is_empty());

    let mut one = TriggerSettings::new();
    one.max_matches_per_prompt = 1;
    let r = match_skills("deploy", &skills, &one);
    assert_eq!(r.matches.len(), 1);
    assert_eq!(r.matches[0].skill.name, "workflow");
}

#[test]
fn skills_skip_short_keywords_and_bad_patterns() {
    let skills = vec![skill("s", SkillType::Domain, &["a"], &["(unclosed"])];
    let r = match_skills("a (unclosed", &skills, &TriggerSettings::new());
    assert!(r.matches.is_empty());
    assert_eq!(tools_config_path("/home/u"), "/home/u/.cc-spec/tools.yaml");
}

#[test]
fn run_watchdog_times_out_softly_then_kills() {
    let mut w = RunWatch::new(1_000, Some(5_000), 60);
    assert_eq!(w.poll(2_000, false), WatchStep::Wait);
    assert_eq!(w.check_idle(60_999), None);
    assert_eq!(w.poll(6_000, false), WatchStep::SoftStop);
    assert_eq!(w.after_grace(false), WatchStep::ForceKill);
    assert_eq!(w.exit_code(Some(0)), 124);
    let mut idle = RunWatch::new(0, None, 60);
    assert_eq!(idle.check_idle(61_000), Some(61));
    assert_eq!(idle.check_idle(62_000), None);
    idle.on_output(62_000);
    assert_eq!(idle.check_idle(130_000), Some(68));
    assert_eq!(idle.poll(7_000_000, true), WatchStep::Finished);
    assert_eq!(idle.exit_code(None), -1);
    assert!(should_attempt_again(4, false));
    assert!(!should_attempt_again(5, false));
    assert!(!should_attempt_again(1, true));
}

#[test]
fn run_command_line() {
    assert_eq!(
        build_command("codex", "/p", &Some("abc".to_string())),
        vec!["codex", "exec", "--skip-git-repo-check", "--cd", "/p", "--json", "resume", "abc", "-"]
    );
    assert_eq!(build_command("codex", "/p", &None).len(), 7);
}

#[test]
fn text_helpers() {
    assert!(blank(" \t\u{3000}\n"));
    assert!(!blank(" x "));
    assert!(blank(""));
    assert!(str_eq("ab", "ab"));
    assert!(!str_eq("ab", "abc"));
}

#[test]
fn toml_strings_are_escaped() {
    assert_eq!(toml_escape("a\"b\\c\nd\te\r"), "\"a\\\"b\\\\c\\nd\\te\\r\"");
    assert_eq!(toml_escape("plain"), "\"plain\"");
    assert_eq!(toml_array(&vec!["x".to_string(), "y z".to_string()]), "[\"x\",\"y z\"]");
    assert_eq!(toml_array(&vec![]), "[]");
}

#[test]
fn ports_parse_like_std() {
    assert_eq!(parse_u16("8080"), Some(8080));
    assert_eq!(parse_u16("+1"), Some(1));
    assert_eq!(parse_u16("65535"), Some(65535));
    assert_eq!(parse_u16("65536"), None);
    assert_eq!(parse_u16(""), None);
    assert_eq!(parse_u16("+"), None);
    assert_eq!(parse_u16("12a"), None);
}

#[test]
fn endpoints_give_host_and_port() {
    assert_eq!(parse_endpoint("http://127.0.0.1:38888/"), Some(("127.0.0.1".to_string(), 38888)));
    assert_eq!(parse_endpoint(" https://host : 9 "), Some(("host".to_string(), 9)));
    assert_eq!(parse_endpoint("host:1:2"), Some(("host".to_string(), 1)));
    assert_eq!(parse_endpoint("localhost"), None);
    assert_eq!(parse_endpoint("h:x"), None);
}

#[test]
fn relay_arguments() {
    let argv: Vec<String> = ["relay", "--project-root", "/p", "--viewer-port", "9000", "--session-id", "s1", "--stray"]
        .iter()
        .map(|s| s.to_string())
        .collect();
    let a = parse_args(&argv, &None).unwrap();
    assert_eq!(a.project_root, "/p");
    assert_eq!(a.session_id, "s1");
    assert_eq!(a.viewer_port, 9000);
    assert_eq!(a.viewer_host, "127.0.0.1");
    assert_eq!(a.codex_bin, "codex");
    let a = parse_args(&argv, &Some("/bin/agent".to_string())).unwrap();
    assert_eq!(a.codex_bin, "/bin/agent");
    let short: Vec<String> = ["relay", "--project-root", "/p", "--viewer-port", "bad"].iter().map(|s| s.to_string()).collect();
    assert!(parse_args(&short, &None).is_none());
}

#[test]
fn sse_lines_assemble_into_events() {
    let mut a = SseAssembler::new();
    assert!(a.feed_line(": ok\n").is_none());
    assert!(a.feed_line("event: codex.control\r\n").is_none());
    assert!(a.feed_line("data: {\"a\":1}\n").is_none());
    assert!(a.feed_line("data:  more \n").is_none());
    let (ev, data) = a.feed_line("\n").unwrap();
    assert_eq!(ev, "codex.control");
    assert_eq!(data, "{\"a\":1}\nmore");
    assert!(a.feed_line("data: lonely\n").is_none());
    assert!(a.feed_line("\n").is_none());
    assert!(a.cur_data.is_none());
}

#[test]
fn cursor_queries_are_cut_out_across_chunks() {
    let mut s = DsrScanner::new();
    let (out, n) = s.feed(&b"ab\x1b[".to_vec());
    assert_eq!(out, b"a".to_vec());
    assert_eq!(n, 0);
    let (out, n) = s.feed(&b"6ncd".to_vec());
    assert_eq!(out, b"b".to_vec());
    assert_eq!(n, 1);
    assert_eq!(s.finish(), b"cd".to_vec());
    let (out, n) = s.feed(&b"x\x1b[6n\x1b[6ny!!!!".to_vec());
    assert_eq!(out, b"xy!".to_vec());
    assert_eq!(n, 2);
}

#[test]
fn claude_records_map_to_event_types() {
    let e = map_claude_event("assistant", true, None, "s", "r").unwrap();
    assert_eq!(e.event_type, "agent:tool_request");
    assert_eq!(e.session_id, "s");
    assert_eq!(map_claude_event("result", false, Some(true), "s", "r").unwrap().event_type, "agent:completed");
    assert_eq!(map_claude_event("result", false, None, "s", "r").unwrap().event_type, "agent:error");
    assert_eq!(map_claude_event("system", false, None, "s", "r").unwrap().event_type, "agent:started");
    assert!(map_claude_event("other", false, None, "s", "r").is_none());
}

#[test]
fn run_outcome_reports_timeout_and_exit_codes() {
    let mut w = RunWatch::new(0, Some(10), 60);
    assert_eq!(w.outcome(Some(0)), RunOutcome { success: true, exit_code: 0, error_type: RunErrorType::NoError, done: true });
    assert_eq!(w.outcome(Some(2)).error_type, RunErrorType::ExecFailed);
    assert_eq!(w.outcome(None).exit_code, -1);
    assert_eq!(w.poll(20, false), WatchStep::SoftStop);
    assert_eq!(w.outcome(Some(0)), RunOutcome { success: false, exit_code: 124, error_type: RunErrorType::Timeout, done: false });
}

#[test]
fn queued_task_is_not_overtaken_after_limits_rise() {
    let mut c = ConcurrencyController::with_global_cap(1, 1, 6);
    let _x = c.try_acquire_cx("a".to_string(), "/p".to_string()).ok().unwrap();
    let waiting = c.try_acquire_cx("b".to_string(), "/p".to_string()).err().unwrap();
    c.set_limits(1, 3);
    let late = c.try_acquire_cx("c".to_string(), "/p".to_string()).err().unwrap();
    let st = c.status();
    assert_eq!(st.queue[0].id, waiting);
    assert_eq!(st.queue[1].id, late);
    assert_eq!(c.cx_running(), 1);
}

#[test]
fn stop_without_requester_counts_as_tool_stop() {
    assert_eq!(classify_exit(&None, Some(10_000), 0, 1, 11_000), ExitReason::ToolRequested);
    assert_eq!(classify_exit(&None, Some(10_000), 0, 0, 20_000), ExitReason::CrashOrUnknown);
    let mut r = RelayState::new();
    r.on_spawned(5);
    r.on_control(ControlCommand::Pause { requested_by: None }, 1_000);
    let acts = r.on_child_exited(1, 1, 2_000);
    assert!(matches!(acts[0], RelayAction::Publish(SessionNotice::Exited { exit_code: 1, reason: ExitReason::ToolRequested })));
    assert!(r.last_stop_requested_at_ms.is_none());
}

#[test]
fn request_head_is_read_line_by_line() {
    let mut h = HeadReader::new();
    assert!(matches!(h.feed("POST /ingest HTTP/1.1\r\n"), HeadStep::More));
    assert!(matches!(h.feed("Host: x\r\n"), HeadStep::More));
    assert!(matches!(h.feed("content-LENGTH:  12 \r\n"), HeadStep::More));
    assert!(matches!(h.feed("\r\n"), HeadStep::End { content_length: 12 }));
    let (m, p) = h.request.clone().unwrap();
    assert_eq!((m.as_str(), p.as_str()), ("POST", "/ingest"));
    assert_eq!(request_line("  GET   /events  HTTP/1.1"), ("GET".to_string(), "/events".to_string()));
    assert_eq!(content_length_header("Content-Length: x"), Some(None));
    assert_eq!(content_length_header("Accept: */*"), None);
    let mut big = HeadReader::new();
    big.feed("GET / HTTP/1.1\r\n");
    assert!(matches!(big.feed(&"a".repeat(20_000)), HeadStep::TooLarge));
    let mut body = HeadReader::new();
    body.feed("POST /ingest HTTP/1.1\r\n");
    body.feed("Content-Length: 2000000\r\n");
    assert!(matches!(body.feed("\r\n"), HeadStep::TooLarge));
}

#[test]
fn peer_launch_checks_and_environment() {
    assert!(check_initialized(&SentinelState::Parsed { initialized: Some(true) }).is_ok());
    assert!(check_initialized(&SentinelState::Parsed { initialized: Some(false) }).unwrap_err().contains("not finished"));
    assert!(check_initialized(&SentinelState::Missing).unwrap_err().contains("not initialized"));
    assert!(check_initialized(&SentinelState::Malformed).unwrap_err().contains("corrupt"));
    assert!(check_initialized(&SentinelState::Unreadable).unwrap_err().contains("unreadable"));
    let env = peer_env("/p", "127.0.0.1", 38888, &Some("s1".to_string()), &None);
    assert!(env.contains(&("CC_SPEC_VIEWER_URL".to_string(), "http://127.0.0.1:38888".to_string())));
    assert!(env.contains(&("CC_SPEC_CODEX_SSE_PORT".to_string(), "38888".to_string())));
    assert!(env.contains(&("CC_SPEC_SESSION_ID".to_string(), "s1".to_string())));
    assert_eq!(env.len(), 8);
    assert_eq!(sentinel_path("/p"), "/p/.cc-spec/index/status.json");
}

#[test]
fn event_ids_are_zero_padded() {
    let mut bus = EventDispatcher::new();
    let mut last = String::new();
    for _ in 0..123 {
        last = bus.publish_raw(stream("x"), AgentSource::System, "s".to_string(), "r".to_string()).id;
    }
    assert_eq!(last, "evt_000000000123");
}

#[test]
fn relay_arguments_round_trip() {
    let args = relay_args("127.0.0.1", 4000, "/p", "s1", &Some("/bin/agent".to_string()));
    assert_eq!(args[3], "4000");
    let mut argv = vec!["relay".to_string()];
    argv.extend(args);
    let a = parse_args(&argv, &None).unwrap();
    assert_eq!((a.viewer_host.as_str(), a.viewer_port, a.project_root.as_str(), a.session_id.as_str(), a.codex_bin.as_str()), ("127.0.0.1", 4000, "/p", "s1", "/bin/agent"));
}

#[test]
fn kill_after_the_child_exited_reports_nothing() {
    let mut r = RelayState::new();
    r.on_spawned(9);
    r.on_child_exited(1, 0, 100_000);
    let acts = r.on_control(ControlCommand::Kill { requested_by: Some("tool".to_string()) }, 100_500);
    assert_eq!(acts.len(), 1);
    assert!(matches!(acts[0], RelayAction::Exit));
    assert_eq!(r.last_stop_requested_by.as_deref(), Some("tool"));
    assert!(r.finished);
}

#[test]
fn respawned_child_crash_is_not_blamed_on_the_retry() {
    let mut r = RelayState::new();
    r.on_spawned(10);
    r.on_control(ControlCommand::Retry { text: "again".to_string(), request_id: None, requested_by: Some("tool".to_string()) }, 10_000);
    r.on_spawned(11);
    assert!(r.last_stop_requested_at_ms.is_none());
    let acts = r.on_child_exited(2, 134, 12_000);
    assert!(matches!(acts[0], RelayAction::Publish(SessionNotice::Exited { exit_code: 134, reason: ExitReason::CrashOrUnknown })));
}

fn ingress() -> IngressFields {
    IngressFields { pid: None, project_root: None, text: None, stream: None, success: None, exit_code: None, duration_ms: None, message: None, error_type: None }
}

#[test]
fn ingress_payloads_map_to_bus_events() {
    let mut f = ingress();
    f.text = Some("out".to_string());
    f.stream = Some("stdout".to_string());
    match agent_event_from_ingest("codex.stream", &f) {
        Some((AgentEventType::Stream { text, channel, .. }, AgentSource::Codex)) => {
            assert_eq!(text, "out");
            assert_eq!(channel.as_deref(), Some("stdout"));
        }
        _ => panic!("expected a stream event"),
    }
    match agent_event_from_ingest("codex.user_input", &f) {
        Some((AgentEventType::Stream { channel, .. }, AgentSource::Viewer)) => assert_eq!(channel.as_deref(), Some("user_input")),
        _ => panic!("expected user input"),
    }
    match agent_event_from_ingest("codex.error", &ingress()) {
        Some((e, _)) => {
            assert_eq!(agent_event_name(&e), "agent:error");
            match e {
                AgentEventType::Error { message, .. } => assert_eq!(message, "unknown error"),
                _ => panic!("expected an error"),
            }
        }
        None => panic!("expected an error"),
    }
    let mut c = ingress();
    c.exit_code = Some(3);
    match agent_event_from_ingest("codex.completed", &c) {
        Some((AgentEventType::Completed { success, exit_code, .. }, _)) => {
            assert!(!success);
            assert_eq!(exit_code, Some(3));
        }
        _ => panic!("expected a completion"),
    }
    assert!(agent_event_from_ingest("codex.turn_complete", &f).is_none());
    assert_eq!(normalize_agent_ids(&None, &Some("r".to_string())), ("r".to_string(), "r".to_string()));
    assert_eq!(normalize_agent_ids(&Some("s".to_string()), &None), ("s".to_string(), "s".to_string()));
    assert_eq!(normalize_agent_ids(&None, &Some(String::new())), ("unknown".to_string(), "unknown".to_string()));
}

#[test]
fn equal_ranked_skills_keep_their_order() {
    let skills = vec![
        skill("first", SkillType::Domain, &["deploy"], &[]),
        skill("second", SkillType::Domain, &["deploy"], &[]),
        skill("third", SkillType::Domain, &["deploy"], &[]),
    ];
    let mut two = TriggerSettings::new();
    two.max_matches_per_prompt = 2;
    let r = match_skills("deploy", &skills, &two);
    let names: Vec<&str> = r.matches.iter().map(|m| m.skill.name.as_str()).collect();
    assert_eq!(names, vec!["first", "second"]);
}
