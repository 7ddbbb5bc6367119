//! The command surface that the GUI calls: it validates its arguments,
//! registers sessions and requests, and hands back the control message to
//! publish on the bus.
use vstd::prelude::*;

use crate::store::{upserted, PatchModel, SessionPatch, SessionState, SessionsDoc};
use crate::supervisor::{installed, or_default, same_elsewhere, with_root, Supervisor};
use crate::text::{blank, is_blank, owned};

verus! {

/// The session a launch registered.
pub struct LaunchResult {
    pub session_id: String,
}

/// What a control message asks of a relay.
#[derive(Clone, Copy, Debug, PartialEq, Eq, Structural)]
pub enum ControlAction {
    SendInput,
    Pause,
    Kill,
    Retry,
}

/// A `codex.control` message for one session.
pub struct ControlMessage {
    pub project_root: String,
    pub session_id: String,
    pub action: ControlAction,
    pub requested_by: String,
    pub request_id: Option<String>,
    pub text: Option<String>,
}

pub open spec fn empty_project_text() -> Seq<char> {
    "project_path is empty"@
}

pub open spec fn empty_session_text() -> Seq<char> {
    "session_id is empty"@
}

pub open spec fn empty_text_text() -> Seq<char> {
    "text is empty"@
}

/// Who asked, when the caller did not say.
pub open spec fn requester_or_tool(o: Option<Seq<char>>) -> Seq<char> {
    match o {
        Some(s) => s,
        None => "tool"@,
    }
}

/// `m` asks the session's relay to stop by `action`, on behalf of `by`.
pub open spec fn stop_message(
    m: ControlMessage,
    action: ControlAction,
    root: Seq<char>,
    sid: Seq<char>,
    by: Option<Seq<char>>,
) -> bool {
    &&& m.action == action
    &&& m.project_root@ == root
    &&& m.session_id@ == sid
    &&& m.request_id is None
    &&& m.text is None
    &&& m.requested_by@ == requester_or_tool(by)
}

/// The patch that registers a new interactive terminal session.
pub open spec fn starting_patch() -> PatchModel {
    PatchModel {
        kind: Some("terminal"@),
        mode: Some(Some("interactive"@)),
        state: Some(Some(SessionState::Starting)),
        pid: Some(None),
        exit_code: Some(None),
        last_exit_reason: Some(None),
        task_summary: Some(Some("codex (interactive)"@)),
        message: None,
        thread_id: None,
        turn_id: None,
    }
}

fn starting_session_patch() -> (r: SessionPatch)
    ensures
        r@ == starting_patch(),
{
    let mut p = SessionPatch::empty();
    p.kind = Some(String::from_str("terminal"));
    p.mode = Some(Some(String::from_str("interactive")));
    p.state = Some(Some(SessionState::Starting));
    p.pid = Some(None);
    p.exit_code = Some(None);
    p.last_exit_reason = Some(None);
    p.task_summary = Some(Some(String::from_str("codex (interactive)")));
    p
}

/// Registers session `session_id` of `project_root` in `starting` state and
/// records its project root in the supervisor. A blank root is an error.
pub fn register_terminal_session(
    doc: &mut SessionsDoc,
    supervisor: &mut Supervisor,
    project_root: &str,
    session_id: &str,
    now: &str,
) -> (r: Result<LaunchResult, String>)
    requires
        old(doc).wf(),
        old(supervisor).wf(),
        !is_blank(session_id@),
    ensures
        final(doc).wf(),
        final(supervisor).wf(),
        is_blank(project_root@) <==> r is Err,
        r is Err ==> r->Err_0@ == "project_root is empty"@ && *final(doc) == *old(doc) && *final(supervisor) == *old(supervisor),
        r is Ok ==> {
            &&& r->Ok_0.session_id@ == session_id@
            &&& final(doc).record(session_id@) == Some(
                upserted(old(doc).record(session_id@), session_id@, starting_patch(), now@),
            )
            &&& crate::store::others_same(old(doc).sessions@, final(doc).sessions@, session_id@)
            &&& final(supervisor).get(session_id@) == Some(
                with_root(or_default(old(supervisor).get(session_id@)), project_root@),
            )
            &&& same_elsewhere(*old(supervisor), *final(supervisor), session_id@)
        },
{
    if blank(project_root) {
        proof {
            reveal_strlit("project_root is empty");
        }
        return Err(String::from_str("project_root is empty"));
    }
    let p = starting_session_patch();
    doc.upsert(session_id, &p, now);
    supervisor.set_project_root(session_id, project_root);
    Ok(LaunchResult { session_id: owned(session_id) })
}

/// Creates an interactive terminal session under a freshly minted id (see
/// `register_terminal_session`); an id that the document already holds is
/// refused rather than reused.
pub fn create_terminal_session(
    doc: &mut SessionsDoc,
    supervisor: &mut Supervisor,
    project_root: &str,
) -> (r: Result<LaunchResult, String>)
    requires
        old(doc).wf(),
        old(supervisor).wf(),
    ensures
        final(doc).wf(),
        final(supervisor).wf(),
        is_blank(project_root@) ==> r is Err && r->Err_0@ == "project_root is empty"@,
        r is Err ==> *final(doc) == *old(doc) && *final(supervisor) == *old(supervisor),
        r is Err && !is_blank(project_root@) ==> r->Err_0@ == "session id already in use"@,
        r is Ok ==> {
            let sid = r->Ok_0.session_id@;
            &&& sid.len() == 36
            &&& old(doc).record(sid) is None
            &&& exists|now: Seq<char>|
                #[trigger] upserted(old(doc).record(sid), sid, starting_patch(), now) == final(doc).record(sid)->Some_0
            &&& final(doc).record(sid) is Some
            &&& crate::store::others_same(old(doc).sessions@, final(doc).sessions@, sid)
            &&& final(supervisor).get(sid) == Some(
                with_root(or_default(old(supervisor).get(sid)), project_root@),
            )
            &&& same_elsewhere(*old(supervisor), *final(supervisor), sid)
        },
{
    if blank(project_root) {
        proof {
            reveal_strlit("project_root is empty");
        }
        return Err(String::from_str("project_root is empty"));
    }
    let session_id = crate::clock::new_uuid();
    let now = crate::clock::now_rfc3339();
    proof {
        assert(!crate::text::is_ws(session_id@[0]));
    }
    if doc.position(session_id.as_str()).is_some() {
        proof {
            reveal_strlit("session id already in use");
        }
        return Err(String::from_str("session id already in use"));
    }
    let r = register_terminal_session(doc, supervisor, project_root, session_id.as_str(), now.as_str());
    proof {
        if r is Ok {
            assert(upserted(old(doc).record(session_id@), session_id@, starting_patch(), now@) == doc.record(
                session_id@,
            )->Some_0);
        }
    }
    r
}

fn check_target(project_path: &str, session_id: &str) -> (r: Result<(), String>)
    ensures
        is_blank(project_path@) ==> r is Err && r->Err_0@ == empty_project_text(),
        !is_blank(project_path@) && is_blank(session_id@) ==> r is Err && r->Err_0@
            == empty_session_text(),
        !is_blank(project_path@) && !is_blank(session_id@) ==> r is Ok,
{
    if blank(project_path) {
        proof {
            reveal_strlit("project_path is empty");
        }
        return Err(String::from_str("project_path is empty"));
    }
    if blank(session_id) {
        proof {
            reveal_strlit("session_id is empty");
        }
        return Err(String::from_str("session_id is empty"));
    }
    Ok(())
}

fn requester(requested_by: &Option<String>) -> (r: String)
    ensures
        r@ == requester_or_tool(crate::supervisor::opt_view(*requested_by)),
{
    match requested_by {
        Some(s) => s.clone(),
        None => String::from_str("tool"),
    }
}

/// Installs a request for `text` and returns the `send_input` control to
/// publish, whose `request_id` is the request's id. Blank arguments are errors.
pub fn send_input(
    supervisor: &mut Supervisor,
    project_path: &str,
    session_id: &str,
    text: &str,
    requested_by: &Option<String>,
) -> (r: Result<ControlMessage, String>)
    requires
        old(supervisor).wf(),
    ensures
        final(supervisor).wf(),
        is_blank(project_path@) ==> r is Err && r->Err_0@ == empty_project_text(),
        !is_blank(project_path@) && is_blank(session_id@) ==> r is Err && r->Err_0@
            == empty_session_text(),
        !is_blank(project_path@) && !is_blank(session_id@) && is_blank(text@) ==> r is Err
            && r->Err_0@ == empty_text_text(),
        r is Err ==> *final(supervisor) == *old(supervisor),
        !is_blank(project_path@) && !is_blank(session_id@) && !is_blank(text@) ==> r is Ok,
        r matches Ok(m) ==> {
            &&& m.action == ControlAction::SendInput
            &&& m.project_root@ == project_path@
            &&& m.session_id@ == session_id@
            &&& m.text matches Some(t) && t@ == text@
            &&& m.requested_by@ == requester_or_tool(crate::supervisor::opt_view(*requested_by))
            &&& m.request_id is Some
            &&& m.request_id->Some_0@.len() == 36
            &&& exists|created_at_ms: u64|
                #[trigger] installed(
                    old(supervisor).get(session_id@),
                    project_path@,
                    m.request_id->Some_0@,
                    text@,
                    m.requested_by@,
                    created_at_ms,
                ) == final(supervisor).get(session_id@)
            &&& same_elsewhere(*old(supervisor), *final(supervisor), session_id@)
        },
{
    match check_target(project_path, session_id) {
        Err(e) => {
            return Err(e);
        },
        Ok(()) => {},
    }
    if blank(text) {
        proof {
            reveal_strlit("text is empty");
        }
        return Err(String::from_str("text is empty"));
    }
    let by = requester(requested_by);
    let request_id = supervisor.set_pending_request(session_id, project_path, by.as_str(), text);
    Ok(
        ControlMessage {
            project_root: owned(project_path),
            session_id: owned(session_id),
            action: ControlAction::SendInput,
            requested_by: by,
            request_id: Some(request_id),
            text: Some(owned(text)),
        },
    )
}

/// The control that asks the session's relay to stop (`Pause` or `Kill`).
fn stop_control(
    project_path: &str,
    session_id: &str,
    requested_by: &Option<String>,
    action: ControlAction,
) -> (r: Result<ControlMessage, String>)
    ensures
        is_blank(project_path@) ==> r is Err && r->Err_0@ == empty_project_text(),
        !is_blank(project_path@) && is_blank(session_id@) ==> r is Err && r->Err_0@
            == empty_session_text(),
        !is_blank(project_path@) && !is_blank(session_id@) ==> r is Ok && stop_message(
            r->Ok_0,
            action,
            project_path@,
            session_id@,
            crate::supervisor::opt_view(*requested_by),
        ),
{
    match check_target(project_path, session_id) {
        Err(e) => Err(e),
        Ok(()) => Ok(
            ControlMessage {
                project_root: owned(project_path),
                session_id: owned(session_id),
                action,
                requested_by: requester(requested_by),
                request_id: None,
                text: None,
            },
        ),
    }
}

/// The `pause` control for a session; blank arguments are errors.
pub fn pause_session(project_path: &str, session_id: &str, requested_by: &Option<String>) -> (r: Result<
    ControlMessage,
    String,
>)
    ensures
        is_blank(project_path@) ==> r is Err && r->Err_0@ == empty_project_text(),
        !is_blank(project_path@) && is_blank(session_id@) ==> r is Err && r->Err_0@
            == empty_session_text(),
        !is_blank(project_path@) && !is_blank(session_id@) ==> r is Ok && stop_message(
            r->Ok_0,
            ControlAction::Pause,
            project_path@,
            session_id@,
            crate::supervisor::opt_view(*requested_by),
        ),
{
    stop_control(project_path, session_id, requested_by, ControlAction::Pause)
}

/// The `kill` control for a session; blank arguments are errors.
pub fn kill_session(project_path: &str, session_id: &str, requested_by: &Option<String>) -> (r: Result<
    ControlMessage,
    String,
>)
    ensures
        is_blank(project_path@) ==> r is Err && r->Err_0@ == empty_project_text(),
        !is_blank(project_path@) && is_blank(session_id@) ==> r is Err && r->Err_0@
            == empty_session_text(),
        !is_blank(project_path@) && !is_blank(session_id@) ==> r is Ok && stop_message(
            r->Ok_0,
            ControlAction::Kill,
            project_path@,
            session_id@,
            crate::supervisor::opt_view(*requested_by),
        ),
{
    stop_control(project_path, session_id, requested_by, ControlAction::Kill)
}

/// Interval between liveness checks while a process stops (ms).
pub const STOP_POLL_MS: u64 = 500;

/// Time a process gets to stop after the soft signal when the caller names
/// none (s).
pub const DEFAULT_STOP_WAIT_SECS: u64 = 3;

/// The outcome of a graceful stop.
pub struct StopSessionResponse {
    pub success: bool,
    pub message: String,
    pub forced: bool,
}

/// What to do about a stop request: answer at once, or stop `pid`.
pub enum StopPlan {
    Respond(StopSessionResponse),
    Stop { pid: i64 },
}

/// The first step of a graceful stop of session `session_id`: a blank id is
/// an error; a session with no recorded pid, or one that is not positive,
/// is answered as a failure; otherwise its pid is to be stopped.
pub fn plan_graceful_stop(doc: &SessionsDoc, session_id: &str) -> (r: Result<StopPlan, String>)
    requires
        doc.wf(),
    ensures
        is_blank(session_id@) <==> r is Err,
        r is Err ==> r->Err_0@ == empty_session_text(),
        !is_blank(session_id@) ==> match doc.record(session_id@) {
            Some(rec) => match rec.pid {
                Some(pid) => if pid > 0 {
                    r matches Ok(StopPlan::Stop { pid: p }) && p == pid
                } else {
                    r matches Ok(StopPlan::Respond(resp)) && !resp.success && !resp.forced
                        && resp.message@ == "pid is invalid"@
                },
                None => r matches Ok(StopPlan::Respond(resp)) && !resp.success && !resp.forced
                    && resp.message@ == "pid is not recorded"@,
            },
            None => r matches Ok(StopPlan::Respond(resp)) && !resp.success && !resp.forced
                && resp.message@ == "pid is not recorded"@,
        },
{
    if blank(session_id) {
        proof {
            reveal_strlit("session_id is empty");
        }
        return Err(String::from_str("session_id is empty"));
    }
    proof {
        reveal_strlit("pid is invalid");
        reveal_strlit("pid is not recorded");
    }
    let not_recorded = StopPlan::Respond(
        StopSessionResponse { success: false, message: String::from_str("pid is not recorded"), forced: false },
    );
    match doc.get(session_id) {
        Some(rec) => match rec.pid {
            Some(pid) => {
                if pid > 0 {
                    Ok(StopPlan::Stop { pid })
                } else {
                    Ok(
                        StopPlan::Respond(
                            StopSessionResponse {
                                success: false,
                                message: String::from_str("pid is invalid"),
                                forced: false,
                            },
                        ),
                    )
                }
            },
            None => Ok(not_recorded),
        },
        None => Ok(not_recorded),
    }
}

/// What the process driving a graceful stop does next.
#[derive(Clone, Copy, Debug, PartialEq, Eq, Structural)]
pub enum StopStep {
    /// Send the soft termination signal, then poll after the interval.
    SoftSignal,
    /// Check again after the interval.
    PollAgain,
    /// Terminate the process by force, then check once more.
    HardKill,
    /// The process is gone: report.
    Done { success: bool, forced: bool },
    /// The process survived the forced termination: the stop failed.
    Failed,
}

/// A graceful stop in progress: the time waited since the soft signal and
/// the time allowed.
pub struct GracefulStop {
    pub waited_ms: u64,
    pub wait_ms: u64,
}

impl GracefulStop {
    /// A stop that allows `wait_secs` seconds (three when not given).
    pub fn new(wait_secs: Option<u64>) -> (r: GracefulStop)
        ensures
            r.waited_ms == 0,
            r.wait_ms == ({
                let w = match wait_secs {
                    Some(w) => w,
                    None => DEFAULT_STOP_WAIT_SECS,
                };
                if w > u64::MAX / 1000 {
                    u64::MAX
                } else {
                    (w * 1000) as u64
                }
            }),
    {
        let w = match wait_secs {
            Some(w) => w,
            None => DEFAULT_STOP_WAIT_SECS,
        };
        let wait_ms = if w > u64::MAX / 1000 {
            u64::MAX
        } else {
            w * 1000
        };
        GracefulStop { waited_ms: 0, wait_ms }
    }

    /// The first step, given whether the process is alive: nothing to do
    /// for a process that is already gone.
    pub fn begin(&self, alive: bool) -> (r: StopStep)
        ensures
            r == if alive {
                StopStep::SoftSignal
            } else {
                StopStep::Done { success: true, forced: false }
            },
    {
        if alive {
            StopStep::SoftSignal
        } else {
            StopStep::Done { success: true, forced: false }
        }
    }

    /// A check one interval later: done when the process has gone, another
    /// check while time is left, else force.
    pub fn on_poll(&mut self, alive: bool) -> (r: StopStep)
        ensures
            final(self).wait_ms == old(self).wait_ms,
            final(self).waited_ms == if old(self).waited_ms > u64::MAX - STOP_POLL_MS {
                u64::MAX
            } else {
                (old(self).waited_ms + STOP_POLL_MS) as u64
            },
            !alive ==> r == (StopStep::Done { success: true, forced: false }),
            alive && final(self).waited_ms < old(self).wait_ms ==> r == StopStep::PollAgain,
            alive && final(self).waited_ms >= old(self).wait_ms ==> r == StopStep::HardKill,
    {
        self.waited_ms = self.waited_ms.saturating_add(STOP_POLL_MS);
        if !alive {
            StopStep::Done { success: true, forced: false }
        } else if self.waited_ms < self.wait_ms {
            StopStep::PollAgain
        } else {
            StopStep::HardKill
        }
    }

    /// The check after the forced termination: done by force when the
    /// process is gone, a failure when it is still running.
    pub fn after_kill(&self, alive: bool) -> (r: StopStep)
        ensures
            alive ==> r == StopStep::Failed,
            !alive ==> r == (StopStep::Done { success: true, forced: true }),
    {
        if alive {
            StopStep::Failed
        } else {
            StopStep::Done { success: true, forced: true }
        }
    }
}

} // verus!
