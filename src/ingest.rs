//! Events posted to the ingress by relays and notifiers, and what the
//! supervisor does with each: patch the session record, keep the outstanding
//! request, and decide on a retry or a completion broadcast.
use vstd::prelude::*;

use crate::store::{
    others_same, upsert_session_record, upserted, PatchModel, SessionPatch, SessionState,
    SessionsDoc,
};
use crate::supervisor::{
    counted_retry, retry_budget_kept, opt_view, or_default, same_elsewhere, sat_inc, with_root, PendingModel, PendingRequest,
    SessionModel, Supervisor, AUTO_RETRY_MAX,
};
use crate::text::{blank, is_blank, owned, owned_opt, str_eq};

verus! {

/// The fields an ingress event may carry besides its type and session.
pub struct IngestFields {
    pub pid: Option<i64>,
    pub exit_code: Option<i64>,
    pub exit_reason: Option<String>,
    pub last_assistant_message: Option<String>,
    pub thread_id: Option<String>,
    pub turn_id: Option<String>,
    pub action: Option<String>,
    pub error: Option<String>,
    pub text: Option<String>,
    pub request_id: Option<String>,
    pub requested_by: Option<String>,
}

/// One event posted to the ingress.
pub struct IngestEvent {
    pub event_type: String,
    pub session_id: String,
    pub project_root: String,
    pub fields: IngestFields,
}

/// What an `IngestEvent` says.
pub struct IngestModel {
    pub event_type: Seq<char>,
    pub session_id: Seq<char>,
    pub project_root: Seq<char>,
    pub pid: Option<i64>,
    pub exit_code: Option<i64>,
    pub exit_reason: Option<Seq<char>>,
    pub last_assistant_message: Option<Seq<char>>,
    pub thread_id: Option<Seq<char>>,
    pub turn_id: Option<Seq<char>>,
    pub action: Option<Seq<char>>,
    pub error: Option<Seq<char>>,
    pub text: Option<Seq<char>>,
    pub request_id: Option<Seq<char>>,
    pub requested_by: Option<Seq<char>>,
}

impl View for IngestEvent {
    type V = IngestModel;

    open spec fn view(&self) -> IngestModel {
        IngestModel {
            event_type: self.event_type@,
            session_id: self.session_id@,
            project_root: self.project_root@,
            pid: self.fields.pid,
            exit_code: self.fields.exit_code,
            exit_reason: opt_view(self.fields.exit_reason),
            last_assistant_message: opt_view(self.fields.last_assistant_message),
            thread_id: opt_view(self.fields.thread_id),
            turn_id: opt_view(self.fields.turn_id),
            action: opt_view(self.fields.action),
            error: opt_view(self.fields.error),
            text: opt_view(self.fields.text),
            request_id: opt_view(self.fields.request_id),
            requested_by: opt_view(self.fields.requested_by),
        }
    }
}

/// A message the supervisor sends on the bus in reply to an event.
pub enum SupervisorBroadcast {
    /// Re-dispatch the outstanding request (`codex.control` with action
    /// `retry`, and a `codex.retry_scheduled` note).
    Retry { request_id: String, text: String, attempt: u32 },
    /// The outstanding request completed (`codex.managed.turn_complete`).
    ManagedTurnComplete { request_id: String, requested_by: String, created_at_ms: u64 },
}

pub enum BroadcastModel {
    Retry { request_id: Seq<char>, text: Seq<char>, attempt: u32 },
    ManagedTurnComplete { request_id: Seq<char>, requested_by: Seq<char>, created_at_ms: u64 },
}

impl View for SupervisorBroadcast {
    type V = BroadcastModel;

    open spec fn view(&self) -> BroadcastModel {
        match self {
            SupervisorBroadcast::Retry { request_id, text, attempt } => BroadcastModel::Retry {
                request_id: request_id@,
                text: text@,
                attempt: *attempt,
            },
            SupervisorBroadcast::ManagedTurnComplete { request_id, requested_by, created_at_ms } => {
                BroadcastModel::ManagedTurnComplete {
                    request_id: request_id@,
                    requested_by: requested_by@,
                    created_at_ms: *created_at_ms,
                }
            },
        }
    }
}

pub open spec fn broadcast_view(o: Option<SupervisorBroadcast>) -> Option<BroadcastModel> {
    match o {
        Some(b) => Some(b@),
        None => None,
    }
}

pub open spec fn or_text(o: Option<Seq<char>>, d: Seq<char>) -> Seq<char> {
    match o {
        Some(s) => s,
        None => d,
    }
}

pub open spec fn started_type() -> Seq<char> {
    "codex.session.started"@
}

pub open spec fn exited_type() -> Seq<char> {
    "codex.session.exited"@
}

pub open spec fn turn_complete_type() -> Seq<char> {
    "codex.turn_complete"@
}

pub open spec fn control_error_type() -> Seq<char> {
    "codex.control.error"@
}

pub open spec fn control_type() -> Seq<char> {
    "codex.control"@
}

proof fn lemma_types_distinct()
    ensures
        started_type() != exited_type(),
        started_type() != turn_complete_type(),
        started_type() != control_error_type(),
        started_type() != control_type(),
        exited_type() != turn_complete_type(),
        exited_type() != control_error_type(),
        exited_type() != control_type(),
        turn_complete_type() != control_error_type(),
        turn_complete_type() != control_type(),
        control_error_type() != control_type(),
{
    reveal_strlit("codex.session.started");
    reveal_strlit("codex.session.exited");
    reveal_strlit("codex.turn_complete");
    reveal_strlit("codex.control.error");
    reveal_strlit("codex.control");
    assert(started_type().len() != exited_type().len());
    assert(started_type()[6] != turn_complete_type()[6]);
    assert(started_type().len() != control_error_type().len());
    assert(started_type().len() != control_type().len());
    assert(exited_type()[6] != turn_complete_type()[6]);
    assert(exited_type().len() != control_error_type().len());
    assert(exited_type().len() != control_type().len());
    assert(turn_complete_type()[6] != control_error_type()[6]);
    assert(turn_complete_type().len() != control_type().len());
    assert(control_error_type().len() != control_type().len());
}

/// Exit reasons after which an outstanding request is retried.
pub open spec fn retry_worthy(reason: Seq<char>) -> bool {
    reason == "crash_or_unknown"@ || reason == "crash"@ || reason == "unknown"@
}

/// Control actions that ask a session to stop or start over.
pub open spec fn is_stop_action(action: Seq<char>) -> bool {
    action == "pause"@ || action == "kill"@ || action == "restart"@ || action == "retry"@
}

pub open spec fn exit_reason_of(ev: IngestModel) -> Seq<char> {
    or_text(ev.exit_reason, "unknown"@)
}

/// The message line recorded when a control failed in the relay.
pub open spec fn control_error_line(ev: IngestModel) -> Seq<char> {
    let action = or_text(ev.action, "unknown"@);
    let error = or_text(ev.error, "unknown"@);
    let request_id = or_text(ev.request_id, ""@);
    let by = or_text(ev.requested_by, "unknown"@);
    if request_id.len() == 0 {
        "[tool] "@ + action + " failed (by="@ + by + "): "@ + error
    } else {
        "[tool] "@ + action + " failed (by="@ + by + ", request_id="@ + request_id + "): "@ + error
    }
}

pub open spec fn no_patch() -> PatchModel {
    PatchModel {
        kind: None,
        mode: None,
        state: None,
        pid: None,
        exit_code: None,
        last_exit_reason: None,
        task_summary: None,
        message: None,
        thread_id: None,
        turn_id: None,
    }
}

/// The patch an event makes to its session record, if any.
pub open spec fn patch_of(ev: IngestModel) -> Option<PatchModel> {
    if ev.event_type == started_type() {
        Some(
            PatchModel {
                kind: Some("terminal"@),
                mode: Some(Some("interactive"@)),
                state: Some(Some(SessionState::Running)),
                pid: Some(ev.pid),
                exit_code: Some(None),
                last_exit_reason: Some(None),
                ..no_patch()
            },
        )
    } else if ev.event_type == exited_type() {
        Some(
            PatchModel {
                state: Some(Some(SessionState::Exited)),
                exit_code: Some(ev.exit_code),
                last_exit_reason: Some(Some(exit_reason_of(ev))),
                ..no_patch()
            },
        )
    } else if ev.event_type == turn_complete_type() {
        Some(
            PatchModel {
                message: Some(Some(or_text(ev.last_assistant_message, ""@))),
                thread_id: Some(ev.thread_id),
                turn_id: Some(ev.turn_id),
                state: Some(Some(SessionState::Running)),
                ..no_patch()
            },
        )
    } else if ev.event_type == control_error_type() {
        Some(
            PatchModel {
                message: Some(Some(control_error_line(ev))),
                state: Some(Some(SessionState::Running)),
                ..no_patch()
            },
        )
    } else {
        None
    }
}

/// What the supervisor knows of the session after the event, given what it
/// knew before (`prev`), the id minted for a request that came without one,
/// and the time in milliseconds.
pub open spec fn session_after(
    prev: Option<SessionModel>,
    ev: IngestModel,
    minted: Seq<char>,
    now_ms: u64,
) -> Option<SessionModel> {
    if ev.event_type == started_type() {
        Some(with_root(or_default(prev), ev.project_root))
    } else if ev.event_type == exited_type() {
        match prev {
            Some(s) => if s.pending is Some && retry_worthy(exit_reason_of(ev)) {
                Some(counted_retry(s))
            } else {
                prev
            },
            None => None,
        }
    } else if ev.event_type == turn_complete_type() {
        match prev {
            Some(s) => if s.pending is Some {
                Some(SessionModel { pending: None, retry_count: 0, retries_sent: 0, ..s })
            } else {
                prev
            },
            None => None,
        }
    } else if ev.event_type == control_error_type() {
        let rid = or_text(ev.request_id, ""@);
        match prev {
            Some(s) => if s.pending matches Some(p) && (rid.len() == 0 || p.id == rid) {
                Some(SessionModel { pending: None, ..s })
            } else {
                prev
            },
            None => None,
        }
    } else if ev.event_type == control_type() {
        let action = or_text(ev.action, ""@);
        let by = or_text(ev.requested_by, "unknown"@);
        let text = or_text(ev.text, ""@);
        let rid = or_text(ev.request_id, ""@);
        if action == "send_input"@ {
            if is_blank(text) {
                prev
            } else {
                Some(
                    SessionModel {
                        pending: Some(
                            PendingModel {
                                id: if rid.len() == 0 {
                                    minted
                                } else {
                                    rid
                                },
                                prompt: text,
                                requested_by: by,
                                created_at_ms: now_ms,
                            },
                        ),
                        retries_sent: 0,
                        ..with_root(or_default(prev), ev.project_root)
                    },
                )
            }
        } else if is_stop_action(action) {
            Some(SessionModel { last_stop_requested_by: Some(by), ..or_default(prev) })
        } else {
            prev
        }
    } else {
        prev
    }
}

/// The broadcast the supervisor sends in reply to the event.
pub open spec fn broadcast_after(prev: Option<SessionModel>, ev: IngestModel) -> Option<BroadcastModel> {
    if ev.event_type == exited_type() {
        match prev {
            Some(s) => match s.pending {
                Some(p) => if retry_worthy(exit_reason_of(ev)) && sat_inc(s.retry_count)
                    <= AUTO_RETRY_MAX {
                    Some(
                        BroadcastModel::Retry {
                            request_id: p.id,
                            text: p.prompt,
                            attempt: sat_inc(s.retry_count),
                        },
                    )
                } else {
                    None
                },
                None => None,
            },
            None => None,
        }
    } else if ev.event_type == turn_complete_type() {
        match prev {
            Some(s) => match s.pending {
                Some(p) => Some(
                    BroadcastModel::ManagedTurnComplete {
                        request_id: p.id,
                        requested_by: p.requested_by,
                        created_at_ms: p.created_at_ms,
                    },
                ),
                None => None,
            },
            None => None,
        }
    } else {
        None
    }
}

/// The document after the event's patch, if it has one and the project root
/// and session id are not blank.
pub open spec fn doc_after(pre: SessionsDoc, post: SessionsDoc, ev: IngestModel, now: Seq<char>) -> bool {
    match patch_of(ev) {
        Some(p) => if is_blank(ev.project_root) || is_blank(ev.session_id) {
            post == pre
        } else {
            &&& post.record(ev.session_id) == Some(upserted(pre.record(ev.session_id), ev.session_id, p, now))
            &&& others_same(pre.sessions@, post.sessions@, ev.session_id)
        },
        None => post == pre,
    }
}

pub open spec fn event_of(event_type: Seq<char>, base: IngestModel) -> IngestModel {
    IngestModel { event_type, ..base }
}

/// A retry is broadcast only while the budget lasts: each one is counted
/// against the outstanding request, whose count never passes the maximum,
/// and every event keeps the budget.
pub proof fn lemma_retry_bound(prev: SessionModel, ev: IngestModel, minted: Seq<char>, now_ms: u64)
    requires
        retry_budget_kept(prev),
    ensures
        session_after(Some(prev), ev, minted, now_ms) matches Some(next) && retry_budget_kept(next),
        broadcast_after(Some(prev), ev) matches Some(BroadcastModel::Retry { attempt, .. }) ==> {
            let next = session_after(Some(prev), ev, minted, now_ms)->Some_0;
            &&& next.pending == prev.pending
            &&& next.retries_sent == prev.retries_sent + 1
            &&& next.retries_sent <= AUTO_RETRY_MAX
            &&& attempt <= AUTO_RETRY_MAX
        },
{
    lemma_types_distinct();
}

/// Once the retry budget is spent, a further crash-like exit broadcasts no
/// retry and leaves the outstanding request in place for a final human
/// action.
pub proof fn lemma_retry_budget_spent(prev: SessionModel, ev: IngestModel, minted: Seq<char>, now_ms: u64)
    requires
        ev.event_type == exited_type(),
        prev.pending is Some,
        prev.retry_count >= AUTO_RETRY_MAX,
    ensures
        broadcast_after(Some(prev), ev) is None,
        session_after(Some(prev), ev, minted, now_ms) matches Some(next) && next.pending == prev.pending,
{
    lemma_types_distinct();
}

/// A `kill` control changes no session record, so a session that has
/// already exited keeps its state.
pub proof fn lemma_kill_keeps_record(pre: SessionsDoc, post: SessionsDoc, ev: IngestModel, now: Seq<char>)
    requires
        ev.event_type == control_type(),
        ev.action == Some("kill"@),
        doc_after(pre, post, ev, now),
    ensures
        post == pre,
{
    lemma_types_distinct();
}

/// An exit report for a session whose record says it exited leaves it exited.
pub proof fn lemma_exit_keeps_exited(pre: SessionsDoc, post: SessionsDoc, ev: IngestModel, now: Seq<char>)
    requires
        ev.event_type == exited_type(),
        pre.record(ev.session_id) matches Some(r) && r.state == Some(SessionState::Exited),
        doc_after(pre, post, ev, now),
    ensures
        post.record(ev.session_id) matches Some(r) && r.state == Some(SessionState::Exited),
{
    lemma_types_distinct();
}

/// After `send_input` installed a request, the `control.error` that a kill
/// before completion produces for it (with its id, or with none) clears it.
pub proof fn lemma_control_error_clears_pending(
    prev: Option<SessionModel>,
    send: IngestModel,
    error: IngestModel,
    minted: Seq<char>,
    now_ms: u64,
)
    requires
        send.event_type == control_type(),
        send.action == Some("send_input"@),
        send.text matches Some(t) && !is_blank(t),
        error.event_type == control_error_type(),
        error.request_id is None || error.request_id == Some(
            session_after(prev, send, minted, now_ms)->Some_0.pending->Some_0.id,
        ),
    ensures
        session_after(prev, send, minted, now_ms) matches Some(s) && s.pending is Some,
        session_after(session_after(prev, send, minted, now_ms), error, minted, now_ms) matches Some(
            s,
        ) && s.pending is None,
{
    lemma_types_distinct();
    reveal_strlit("send_input");
    reveal_strlit("");
    let s1 = session_after(prev, send, minted, now_ms)->Some_0;
    let rid = or_text(error.request_id, ""@);
    assert(rid.len() == 0 || s1.pending->Some_0.id == rid);
}

/// Whether an exit reason calls for an automatic retry.
pub fn should_auto_retry(exit_reason: &str) -> (r: bool)
    ensures
        r == retry_worthy(exit_reason@),
{
    str_eq(exit_reason, "crash_or_unknown") || str_eq(exit_reason, "crash") || str_eq(
        exit_reason,
        "unknown",
    )
}

fn text_or(o: &Option<String>, d: &str) -> (r: String)
    ensures
        r@ == or_text(opt_view(*o), d@),
{
    match o {
        Some(s) => s.clone(),
        None => owned(d),
    }
}

/// The line recorded in the session's message when a control failed.
pub fn control_error_message(fields: &IngestFields) -> (r: String)
    ensures
        r@ == control_error_line(
            IngestModel {
                event_type: ""@,
                session_id: ""@,
                project_root: ""@,
                pid: None,
                exit_code: None,
                exit_reason: None,
                last_assistant_message: None,
                thread_id: None,
                turn_id: None,
                action: opt_view(fields.action),
                error: opt_view(fields.error),
                text: None,
                request_id: opt_view(fields.request_id),
                requested_by: opt_view(fields.requested_by),
            },
        ),
{
    let action = text_or(&fields.action, "unknown");
    let error = text_or(&fields.error, "unknown");
    let request_id = text_or(&fields.request_id, "");
    let by = text_or(&fields.requested_by, "unknown");
    if request_id.unicode_len() == 0 {
        String::from_str("[tool] ").concat(action.as_str()).concat(" failed (by=").concat(
            by.as_str(),
        ).concat("): ").concat(error.as_str())
    } else {
        String::from_str("[tool] ").concat(action.as_str()).concat(" failed (by=").concat(
            by.as_str(),
        ).concat(", request_id=").concat(request_id.as_str()).concat("): ").concat(error.as_str())
    }
}

fn empty_patch() -> (r: SessionPatch)
    ensures
        r@ == no_patch(),
{
    SessionPatch::empty()
}

/// The patch that `ev` makes to its session record.
pub fn patch_for(ev: &IngestEvent) -> (r: Option<SessionPatch>)
    ensures
        match r {
            Some(p) => patch_of(ev@) == Some(p@),
            None => patch_of(ev@) is None,
        },
{
    let t = ev.event_type.as_str();
    if str_eq(t, "codex.session.started") {
        let mut p = empty_patch();
        p.kind = Some(String::from_str("terminal"));
        p.mode = Some(Some(String::from_str("interactive")));
        p.state = Some(Some(SessionState::Running));
        p.pid = Some(ev.fields.pid);
        p.exit_code = Some(None);
        p.last_exit_reason = Some(None);
        Some(p)
    } else if str_eq(t, "codex.session.exited") {
        let mut p = empty_patch();
        p.state = Some(Some(SessionState::Exited));
        p.exit_code = Some(ev.fields.exit_code);
        p.last_exit_reason = Some(Some(text_or(&ev.fields.exit_reason, "unknown")));
        Some(p)
    } else if str_eq(t, "codex.turn_complete") {
        let mut p = empty_patch();
        p.message = Some(Some(text_or(&ev.fields.last_assistant_message, "")));
        p.thread_id = Some(owned_opt(&ev.fields.thread_id));
        p.turn_id = Some(owned_opt(&ev.fields.turn_id));
        p.state = Some(Some(SessionState::Running));
        Some(p)
    } else if str_eq(t, "codex.control.error") {
        let mut p = empty_patch();
        p.message = Some(Some(control_error_message(&ev.fields)));
        p.state = Some(Some(SessionState::Running));
        Some(p)
    } else {
        None
    }
}

/// Applies an ingress event to the session document and the supervisor's
/// table. `minted_id` names a request that arrives without an id and
/// `now_ms` stamps it; `now` stamps the record. Returns the broadcast to send.
pub fn apply_ingest_event(
    supervisor: &mut Supervisor,
    doc: &mut SessionsDoc,
    ev: &IngestEvent,
    now: &str,
    now_ms: u64,
    minted_id: &str,
) -> (r: Option<SupervisorBroadcast>)
    requires
        old(supervisor).wf(),
        old(doc).wf(),
    ensures
        final(supervisor).wf(),
        final(doc).wf(),
        ev.session_id@.len() == 0 ==> r is None && *final(supervisor) == *old(supervisor) && *final(doc) == *old(doc),
        ev.session_id@.len() > 0 ==> {
            &&& final(supervisor).get(ev.session_id@) == session_after(
                old(supervisor).get(ev.session_id@),
                ev@,
                minted_id@,
                now_ms,
            )
            &&& same_elsewhere(*old(supervisor), *final(supervisor), ev.session_id@)
            &&& broadcast_view(r) == broadcast_after(old(supervisor).get(ev.session_id@), ev@)
            &&& doc_after(*old(doc), *final(doc), ev@, now@)
        },
{
    proof {
        lemma_types_distinct();
    }
    if ev.session_id.unicode_len() == 0 {
        return None;
    }
    let sid = ev.session_id.as_str();
    let root = ev.project_root.as_str();
    match patch_for(ev) {
        Some(p) => {
            upsert_session_record(doc, root, sid, &p, now);
        },
        None => {},
    }
    let t = ev.event_type.as_str();
    if str_eq(t, "codex.session.started") {
        supervisor.set_project_root(sid, root);
        None
    } else if str_eq(t, "codex.session.exited") {
        on_session_exited(supervisor, ev)
    } else if str_eq(t, "codex.turn_complete") {
        on_turn_complete(supervisor, sid)
    } else if str_eq(t, "codex.control.error") {
        on_control_error(supervisor, ev);
        None
    } else if str_eq(t, "codex.control") {
        on_control(supervisor, ev, now_ms, minted_id);
        None
    } else {
        proof {
            assert(same_elsewhere(*supervisor, *supervisor, ev.session_id@));
        }
        None
    }
}

fn on_session_exited(supervisor: &mut Supervisor, ev: &IngestEvent) -> (r: Option<SupervisorBroadcast>)
    requires
        old(supervisor).wf(),
        ev@.event_type == exited_type(),
    ensures
        final(supervisor).wf(),
        final(supervisor).get(ev.session_id@) == session_after(
            old(supervisor).get(ev.session_id@),
            ev@,
            ""@,
            0,
        ),
        same_elsewhere(*old(supervisor), *final(supervisor), ev.session_id@),
        broadcast_view(r) == broadcast_after(old(supervisor).get(ev.session_id@), ev@),
{
    proof {
        lemma_types_distinct();
    }
    let sid = ev.session_id.as_str();
    let reason = text_or(&ev.fields.exit_reason, "unknown");
    match supervisor.peek_pending(sid) {
        Some(pending) => {
            if should_auto_retry(reason.as_str()) {
                let n = supervisor.inc_retry(sid);
                if n <= AUTO_RETRY_MAX {
                    Some(
                        SupervisorBroadcast::Retry {
                            request_id: pending.id,
                            text: pending.prompt,
                            attempt: n,
                        },
                    )
                } else {
                    None
                }
            } else {
                proof {
                    assert(same_elsewhere(*supervisor, *supervisor, ev.session_id@));
                }
                None
            }
        },
        None => {
            proof {
                assert(same_elsewhere(*supervisor, *supervisor, ev.session_id@));
            }
            None
        },
    }
}

fn on_turn_complete(supervisor: &mut Supervisor, sid: &str) -> (r: Option<SupervisorBroadcast>)
    requires
        old(supervisor).wf(),
    ensures
        final(supervisor).wf(),
        final(supervisor).get(sid@) == match old(supervisor).get(sid@) {
            Some(s) => if s.pending is Some {
                Some(SessionModel { pending: None, retry_count: 0, retries_sent: 0, ..s })
            } else {
                Some(s)
            },
            None => None,
        },
        same_elsewhere(*old(supervisor), *final(supervisor), sid@),
        broadcast_view(r) == match old(supervisor).get(sid@) {
            Some(s) => match s.pending {
                Some(p) => Some(
                    BroadcastModel::ManagedTurnComplete {
                        request_id: p.id,
                        requested_by: p.requested_by,
                        created_at_ms: p.created_at_ms,
                    },
                ),
                None => None,
            },
            None => None,
        },
{
    match supervisor.take_pending(sid) {
        Some(pending) => {
            let ghost mid = *supervisor;
            supervisor.reset_retry(sid);
            Some(
                SupervisorBroadcast::ManagedTurnComplete {
                    request_id: pending.id,
                    requested_by: pending.requested_by,
                    created_at_ms: pending.created_at_ms,
                },
            )
        },
        None => None,
    }
}

fn on_control_error(supervisor: &mut Supervisor, ev: &IngestEvent)
    requires
        old(supervisor).wf(),
        ev@.event_type == control_error_type(),
    ensures
        final(supervisor).wf(),
        final(supervisor).get(ev.session_id@) == session_after(
            old(supervisor).get(ev.session_id@),
            ev@,
            ""@,
            0,
        ),
        same_elsewhere(*old(supervisor), *final(supervisor), ev.session_id@),
{
    proof {
        lemma_types_distinct();
    }
    let sid = ev.session_id.as_str();
    let request_id = text_or(&ev.fields.request_id, "");
    match supervisor.peek_pending(sid) {
        Some(pending) => {
            if request_id.unicode_len() == 0 || str_eq(pending.id.as_str(), request_id.as_str()) {
                supervisor.take_pending(sid);
            } else {
                proof {
                    assert(same_elsewhere(*supervisor, *supervisor, ev.session_id@));
                }
            }
        },
        None => {
            proof {
                assert(same_elsewhere(*supervisor, *supervisor, ev.session_id@));
            }
        },
    }
}

fn on_control(supervisor: &mut Supervisor, ev: &IngestEvent, now_ms: u64, minted_id: &str)
    requires
        old(supervisor).wf(),
        ev@.event_type == control_type(),
        ev@.event_type != started_type(),
        ev@.event_type != exited_type(),
        ev@.event_type != turn_complete_type(),
        ev@.event_type != control_error_type(),
    ensures
        final(supervisor).wf(),
        final(supervisor).get(ev.session_id@) == session_after(
            old(supervisor).get(ev.session_id@),
            ev@,
            minted_id@,
            now_ms,
        ),
        same_elsewhere(*old(supervisor), *final(supervisor), ev.session_id@),
{
    let sid = ev.session_id.as_str();
    let action = text_or(&ev.fields.action, "");
    let by = text_or(&ev.fields.requested_by, "unknown");
    if str_eq(action.as_str(), "send_input") {
        let text = text_or(&ev.fields.text, "");
        if !blank(text.as_str()) {
            let request_id = text_or(&ev.fields.request_id, "");
            let id = if request_id.unicode_len() == 0 {
                owned(minted_id)
            } else {
                request_id
            };
            let pending = PendingRequest { id, prompt: text, requested_by: by, created_at_ms: now_ms };
            supervisor.install_pending(sid, ev.project_root.as_str(), pending);
        } else {
            proof {
                assert(same_elsewhere(*supervisor, *supervisor, ev.session_id@));
            }
        }
    } else if str_eq(action.as_str(), "pause") || str_eq(action.as_str(), "kill") || str_eq(
        action.as_str(),
        "restart",
    ) || str_eq(action.as_str(), "retry") {
        supervisor.record_stop(sid, by.as_str());
    } else {
        proof {
            assert(same_elsewhere(*supervisor, *supervisor, ev.session_id@));
        }
    }
}

/// Handles an ingress event: `apply_ingest_event` with a fresh request id
/// and the current time.
pub fn handle_ingest_event(
    supervisor: &mut Supervisor,
    doc: &mut SessionsDoc,
    ev: &IngestEvent,
) -> (r: Option<SupervisorBroadcast>)
    requires
        old(supervisor).wf(),
        old(doc).wf(),
    ensures
        final(supervisor).wf(),
        final(doc).wf(),
        ev.session_id@.len() == 0 ==> r is None && *final(supervisor) == *old(supervisor) && *final(doc) == *old(doc),
        ev.session_id@.len() > 0 ==> {
            &&& exists|minted: Seq<char>, now_ms: u64|
                #[trigger] session_after(old(supervisor).get(ev.session_id@), ev@, minted, now_ms)
                    == final(supervisor).get(ev.session_id@)
            &&& same_elsewhere(*old(supervisor), *final(supervisor), ev.session_id@)
            &&& broadcast_view(r) == broadcast_after(old(supervisor).get(ev.session_id@), ev@)
            &&& exists|now: Seq<char>| #[trigger] doc_after(*old(doc), *final(doc), ev@, now)
        },
{
    let now = crate::clock::now_rfc3339();
    let now_ms = crate::clock::now_ms();
    let minted = crate::clock::new_uuid();
    apply_ingest_event(supervisor, doc, ev, now.as_str(), now_ms, minted.as_str())
}

} // verus!
