use cc_spec_tool::commands::{create_terminal_session, kill_session, plan_graceful_stop, register_terminal_session, send_input, ControlAction, GracefulStop, StopPlan, StopStep};
use cc_spec_tool::ingest::{apply_ingest_event, should_auto_retry, IngestEvent, IngestFields, SupervisorBroadcast};
use cc_spec_tool::store::{delete_session_record, reconcile_stale_sessions, sessions_path, upsert_session_record, SessionPatch, SessionState, SessionsDoc};
use cc_spec_tool::supervisor::Supervisor;

fn fields() -> IngestFields {
    IngestFields {
        pid: None,
        exit_code: None,
        exit_reason: None,
        last_assistant_message: None,
        thread_id: None,
        turn_id: None,
        action: None,
        error: None,
        text: None,
        request_id: None,
        requested_by: None,
    }
}

fn event(t: &str, sid: &str, f: IngestFields) -> IngestEvent {
    IngestEvent { event_type: t.to_string(), session_id: sid.to_string(), project_root: "/p".to_string(), fields: f }
}

fn started(sid: &str, pid: i64) -> IngestEvent {
    let mut f = fields();
    f.pid = Some(pid);
    event("codex.session.started", sid, f)
}

fn exited(sid: &str, code: i64, reason: &str) -> IngestEvent {
    let mut f = fields();
    f.exit_code = Some(code);
    f.exit_reason = Some(reason.to_string());
    event("codex.session.exited", sid, f)
}

fn turn_complete(sid: &str, msg: &str) -> IngestEvent {
    let mut f = fields();
    f.last_assistant_message = Some(msg.to_string());
    event("codex.turn_complete", sid, f)
}

fn apply(sup: &mut Supervisor, doc: &mut SessionsDoc, ev: &IngestEvent) -> Option<SupervisorBroadcast> {
    apply_ingest_event(sup, doc, ev, "2026-01-01T00:00:00Z", 1000, "minted")
}

/// Registers `s1` under `/p`, reports it started, and sends `text`.
fn running_with_request(sup: &mut Supervisor, doc: &mut SessionsDoc, text: &str) -> String {
    register_terminal_session(doc, sup, "/p", "s1", "t0").unwrap();
    apply(sup, doc, &started("s1", 1234));
    let msg = send_input(sup, "/p", "s1", text, &None).unwrap();
    msg.request_id.unwrap()
}

#[test]
fn happy_path_scenario() {
    let mut sup = Supervisor::new();
    let mut doc = SessionsDoc::new();
    register_terminal_session(&mut doc, &mut sup, "/p", "s1", "t0").unwrap();
    assert_eq!(doc.get("s1").unwrap().state, Some(SessionState::Starting));

    apply(&mut sup, &mut doc, &started("s1", 1234));
    let rec = doc.get("s1").unwrap();
    assert_eq!(rec.state, Some(SessionState::Running));
    assert_eq!(rec.pid, Some(1234));

    let msg = send_input(&mut sup, "/p", "s1", "hello", &None).unwrap();
    let req1 = msg.request_id.clone().unwrap();
    assert_eq!(msg.action, ControlAction::SendInput);
    assert_eq!(msg.requested_by, "tool");

    let out = apply(&mut sup, &mut doc, &turn_complete("s1", "hi"));
    match out {
        Some(SupervisorBroadcast::ManagedTurnComplete { request_id, requested_by, .. }) => {
            assert_eq!(request_id, req1);
            assert_eq!(requested_by, "tool");
        }
        _ => panic!("expected a managed turn completion"),
    }
    let rec = doc.get("s1").unwrap();
    assert_eq!(rec.message.as_deref(), Some("hi"));
    assert_eq!(rec.state, Some(SessionState::Running));
    let s = sup.session("s1").unwrap();
    assert!(s.pending.is_none());
    assert_eq!(s.retry_count, 0);
}

#[test]
fn crash_retry_succeed_scenario() {
    let mut sup = Supervisor::new();
    let mut doc = SessionsDoc::new();
    let req2 = running_with_request(&mut sup, &mut doc, "do X");

    let out = apply(&mut sup, &mut doc, &exited("s1", 134, "crash_or_unknown"));
    match out {
        Some(SupervisorBroadcast::Retry { request_id, text, attempt }) => {
            assert_eq!(request_id, req2);
            assert_eq!(text, "do X");
            assert_eq!(attempt, 1);
        }
        _ => panic!("expected a retry"),
    }
    assert_eq!(doc.get("s1").unwrap().state, Some(SessionState::Exited));

    apply(&mut sup, &mut doc, &started("s1", 5678));
    assert_eq!(doc.get("s1").unwrap().pid, Some(5678));

    let out = apply(&mut sup, &mut doc, &turn_complete("s1", "done"));
    match out {
        Some(SupervisorBroadcast::ManagedTurnComplete { request_id, .. }) => assert_eq!(request_id, req2),
        _ => panic!("expected a managed turn completion"),
    }
    assert_eq!(sup.session("s1").unwrap().retry_count, 0);
}

#[test]
fn retry_budget_scenario() {
    let mut sup = Supervisor::new();
    let mut doc = SessionsDoc::new();
    running_with_request(&mut sup, &mut doc, "do Y");
    for attempt in 1..=3u32 {
        match apply(&mut sup, &mut doc, &exited("s1", 1, "crash")) {
            Some(SupervisorBroadcast::Retry { attempt: a, .. }) => assert_eq!(a, attempt),
            _ => panic!("expected a retry"),
        }
    }
    assert!(apply(&mut sup, &mut doc, &exited("s1", 1, "crash")).is_none());
    assert!(sup.session("s1").unwrap().pending.is_some());
}

#[test]
fn no_retry_after_requested_exit() {
    let mut sup = Supervisor::new();
    let mut doc = SessionsDoc::new();
    running_with_request(&mut sup, &mut doc, "do Z");
    assert!(apply(&mut sup, &mut doc, &exited("s1", 137, "tool_requested")).is_none());
    assert!(apply(&mut sup, &mut doc, &exited("s1", -1, "spawn_failed")).is_none());
    assert!(!should_auto_retry("user_requested"));
    assert!(should_auto_retry("unknown"));
}

#[test]
fn control_error_clears_pending_after_kill() {
    let mut sup = Supervisor::new();
    let mut doc = SessionsDoc::new();
    let req = running_with_request(&mut sup, &mut doc, "work");
    let kill = kill_session("/p", "s1", &None).unwrap();
    assert_eq!(kill.action, ControlAction::Kill);

    let mut f = fields();
    f.action = Some("send_input".to_string());
    f.error = Some("child gone".to_string());
    f.request_id = Some(req.clone());
    f.requested_by = Some("tool".to_string());
    apply(&mut sup, &mut doc, &event("codex.control.error", "s1", f));
    assert!(sup.session("s1").unwrap().pending.is_none());
    assert_eq!(
        doc.get("s1").unwrap().message.as_deref(),
        Some(format!("[tool] send_input failed (by=tool, request_id={}): child gone", req).as_str())
    );
}

#[test]
fn control_error_for_other_request_keeps_pending() {
    let mut sup = Supervisor::new();
    let mut doc = SessionsDoc::new();
    running_with_request(&mut sup, &mut doc, "work");
    let mut f = fields();
    f.request_id = Some("another".to_string());
    apply(&mut sup, &mut doc, &event("codex.control.error", "s1", f));
    assert!(sup.session("s1").unwrap().pending.is_some());
    assert_eq!(doc.get("s1").unwrap().message.as_deref(), Some("[tool] unknown failed (by=unknown, request_id=another): unknown"));
}

#[test]
fn kill_control_on_exited_session_keeps_state() {
    let mut sup = Supervisor::new();
    let mut doc = SessionsDoc::new();
    register_terminal_session(&mut doc, &mut sup, "/p", "s1", "t0").unwrap();
    apply(&mut sup, &mut doc, &exited("s1", 0, "user_requested"));
    let mut f = fields();
    f.action = Some("kill".to_string());
    f.requested_by = Some("claude_code".to_string());
    apply(&mut sup, &mut doc, &event("codex.control", "s1", f));
    assert_eq!(doc.get("s1").unwrap().state, Some(SessionState::Exited));
    assert_eq!(sup.session("s1").unwrap().last_stop_requested_by.as_deref(), Some("claude_code"));
}

#[test]
fn external_send_input_control_installs_request() {
    let mut sup = Supervisor::new();
    let mut doc = SessionsDoc::new();
    let mut f = fields();
    f.action = Some("send_input".to_string());
    f.text = Some("from outside".to_string());
    apply(&mut sup, &mut doc, &event("codex.control", "s9", f));
    let s = sup.session("s9").unwrap();
    let p = s.pending.as_ref().unwrap();
    assert_eq!(p.id, "minted");
    assert_eq!(p.prompt, "from outside");
    assert_eq!(p.requested_by, "unknown");
    assert_eq!(p.created_at_ms, 1000);
    assert_eq!(s.project_root.as_deref(), Some("/p"));
}

#[test]
fn event_without_session_is_ignored() {
    let mut sup = Supervisor::new();
    let mut doc = SessionsDoc::new();
    assert!(apply(&mut sup, &mut doc, &started("", 1)).is_none());
    assert!(doc.sessions.is_empty());
    assert!(sup.session("").is_none());
}

#[test]
fn upsert_same_patch_twice_gives_same_record() {
    let mut doc = SessionsDoc::new();
    let mut p = SessionPatch::empty();
    p.state = Some(Some(SessionState::Running));
    p.pid = Some(Some(42));
    p.message = Some(Some("m".to_string()));
    assert!(upsert_session_record(&mut doc, "/p", "s1", &p, "t1"));
    let first = doc.get("s1").unwrap().duplicate();
    assert!(upsert_session_record(&mut doc, "/p", "s1", &p, "t2"));
    let second = doc.get("s1").unwrap();
    assert_eq!(second.state, first.state);
    assert_eq!(second.pid, first.pid);
    assert_eq!(second.message, first.message);
    assert_eq!(second.created_at, "t1");
    assert_eq!(second.updated_at, "t2");
    assert_eq!(second.kind, "terminal");
    assert_eq!(doc.sessions.len(), 1);
    assert!(!upsert_session_record(&mut doc, "  ", "s1", &p, "t3"));
    assert_eq!(doc.get("s1").unwrap().updated_at, "t2");
}

#[test]
fn reconciliation_scenario() {
    let mut sup = Supervisor::new();
    let mut doc = SessionsDoc::new();
    register_terminal_session(&mut doc, &mut sup, "/p", "s1", "t0").unwrap();
    apply(&mut sup, &mut doc, &started("s1", 99999));
    register_terminal_session(&mut doc, &mut sup, "/p", "s2", "t0").unwrap();
    apply(&mut sup, &mut doc, &started("s2", 4242));
    let alive = vec![false, true];
    assert!(reconcile_stale_sessions(&mut doc, &mut sup, "/p", &alive, "t9"));
    let rec = doc.get("s1").unwrap();
    assert_eq!(rec.state, Some(SessionState::Exited));
    assert_eq!(rec.last_exit_reason.as_deref(), Some("stale_pid"));
    assert_eq!(rec.exit_code, None);
    assert!(sup.session("s1").is_none());
    assert_eq!(doc.get("s2").unwrap().state, Some(SessionState::Running));
    assert!(sup.session("s2").is_some());
    let alive = vec![true, true];
    assert!(!reconcile_stale_sessions(&mut doc, &mut sup, "/p", &alive, "t10"));
}

#[test]
fn delete_session_record_errors_and_removal() {
    let mut sup = Supervisor::new();
    let mut doc = SessionsDoc::new();
    register_terminal_session(&mut doc, &mut sup, "/p", "s1", "t0").unwrap();
    assert_eq!(delete_session_record(&mut doc, &mut sup, " ", "s1"), Err("project_root or session_id is empty".to_string()));
    assert_eq!(delete_session_record(&mut doc, &mut sup, "/p", "nope"), Err("Session nope not found".to_string()));
    assert_eq!(delete_session_record(&mut doc, &mut sup, "/p", "s1"), Ok(()));
    assert!(doc.get("s1").is_none());
    assert!(sup.session("s1").is_none());
}

#[test]
fn create_terminal_session_persists_even_when_sessions_file_exists() {
    let mut sup = Supervisor::new();
    let mut doc = SessionsDoc::new();
    let first = create_terminal_session(&mut doc, &mut sup, "/tmp/project").expect("create first session");
    let second = create_terminal_session(&mut doc, &mut sup, "/tmp/project").expect("create second session");
    assert!(doc.get(&first.session_id).is_some());
    assert!(doc.get(&second.session_id).is_some());
    assert!(doc.sessions.len() >= 2);
    assert_eq!(first.session_id.len(), 36);
    assert_ne!(first.session_id, second.session_id);
    assert!(create_terminal_session(&mut doc, &mut sup, " ").is_err());
}

#[test]
fn send_input_rejects_blank_arguments() {
    let mut sup = Supervisor::new();
    assert_eq!(send_input(&mut sup, "", "s1", "x", &None).err().unwrap(), "project_path is empty");
    assert_eq!(send_input(&mut sup, "/p", " ", "x", &None).err().unwrap(), "session_id is empty");
    assert_eq!(send_input(&mut sup, "/p", "s1", "\t", &None).err().unwrap(), "text is empty");
    let msg = send_input(&mut sup, "/p", "s1", "x", &Some("claude_code".to_string())).unwrap();
    assert_eq!(msg.requested_by, "claude_code");
    assert_eq!(msg.request_id.unwrap().len(), 36);
}

#[test]
fn sessions_path_joins_once() {
    assert_eq!(sessions_path("/p"), "/p/.cc-spec/runtime/codex/sessions.json");
    assert_eq!(sessions_path("/p/"), "/p/.cc-spec/runtime/codex/sessions.json");
}

#[test]
fn graceful_stop_plan_and_steps() {
    let mut sup = Supervisor::new();
    let mut doc = SessionsDoc::new();
    register_terminal_session(&mut doc, &mut sup, "/p", "s1", "t0").unwrap();
    assert_eq!(plan_graceful_stop(&doc, " ").err().unwrap(), "session_id is empty");
    match plan_graceful_stop(&doc, "s1").unwrap() {
        StopPlan::Respond(r) => {
            assert!(!r.success);
            assert_eq!(r.message, "pid is not recorded");
        }
        StopPlan::Stop { .. } => panic!("no pid was recorded"),
    }
    apply(&mut sup, &mut doc, &started("s1", 4242));
    assert!(matches!(plan_graceful_stop(&doc, "s1").unwrap(), StopPlan::Stop { pid: 4242 }));

    let mut g = GracefulStop::new(Some(1));
    assert_eq!(g.begin(true), StopStep::SoftSignal);
    assert_eq!(g.on_poll(true), StopStep::PollAgain);
    assert_eq!(g.on_poll(true), StopStep::HardKill);
    assert_eq!(g.after_kill(false), StopStep::Done { success: true, forced: true });
    assert_eq!(g.after_kill(true), StopStep::Failed);
    let mut h = GracefulStop::new(None);
    assert_eq!(h.wait_ms, 3000);
    assert_eq!(h.on_poll(false), StopStep::Done { success: true, forced: false });
    assert_eq!(h.begin(false), StopStep::Done { success: true, forced: false });
}
