//! The relay's decisions: how a child's exit is classified, how controls,
//! stdin bytes and child exits change the relay's state, and which actions
//! (spawn, write, kill, publish) the process driving it must perform.
use vstd::prelude::*;

use vstd::slice::slice_to_vec;
use vstd::utf8::encode_utf8;

use crate::text::{blank, is_blank, str_eq};

verus! {

/// Identifier with which the peer agent signs its controls.
pub open spec fn peer_agent_id() -> Seq<char> {
    "claude_code"@
}

/// A stop request counts for the classification of an exit this long (ms).
pub const STOP_WINDOW_MS: u64 = 5000;

/// An interrupt typed by the user counts for this long (ms).
pub const INTERRUPT_WINDOW_MS: u64 = 2000;

/// Exit code reported for a child killed on request.
pub const KILLED_EXIT_CODE: i32 = 137;

/// Exit code reported when the child could not be spawned.
pub const SPAWN_FAILED_EXIT_CODE: i32 = -1;

/// Why a child exited.
#[derive(Clone, Copy, Debug, PartialEq, Eq, Structural)]
pub enum ExitReason {
    ClaudeRequested,
    ToolRequested,
    UserRequested,
    CrashOrUnknown,
    SpawnFailed,
}

pub open spec fn exit_reason_text(r: ExitReason) -> Seq<char> {
    match r {
        ExitReason::ClaudeRequested => "claude_requested"@,
        ExitReason::ToolRequested => "tool_requested"@,
        ExitReason::UserRequested => "user_requested"@,
        ExitReason::CrashOrUnknown => "crash_or_unknown"@,
        ExitReason::SpawnFailed => "spawn_failed"@,
    }
}

impl ExitReason {
    /// The reason as written on the wire.
    pub fn as_text(&self) -> (r: String)
        ensures
            r@ == exit_reason_text(*self),
    {
        match self {
            ExitReason::ClaudeRequested => String::from_str("claude_requested"),
            ExitReason::ToolRequested => String::from_str("tool_requested"),
            ExitReason::UserRequested => String::from_str("user_requested"),
            ExitReason::CrashOrUnknown => String::from_str("crash_or_unknown"),
            ExitReason::SpawnFailed => String::from_str("spawn_failed"),
        }
    }
}

pub open spec fn elapsed(now: u64, then: u64) -> int {
    if now >= then {
        now - then
    } else {
        0
    }
}

/// The reason a stop request gives, by who made it.
pub open spec fn stop_reason(by: Option<Seq<char>>) -> ExitReason {
    if by == Some(peer_agent_id()) {
        ExitReason::ClaudeRequested
    } else {
        ExitReason::ToolRequested
    }
}

/// The classification of an exit: a stop request within the stop window
/// names who asked (the peer agent, or anyone else, a missing requester
/// included); else an interrupt typed within the interrupt window, or a clean
/// exit with no stop request on record, is the user's doing; anything else is
/// a crash or unknown. `stop_at` is when the last stop was requested, if any.
pub open spec fn classify(
    stop_by: Option<Seq<char>>,
    stop_at: Option<u64>,
    interrupt_at: u64,
    exit_code: i32,
    now: u64,
) -> ExitReason {
    if stop_at matches Some(at) && elapsed(now, at) <= STOP_WINDOW_MS {
        stop_reason(stop_by)
    } else if elapsed(now, interrupt_at) <= INTERRUPT_WINDOW_MS {
        ExitReason::UserRequested
    } else if stop_at is None && exit_code == 0 {
        ExitReason::UserRequested
    } else {
        ExitReason::CrashOrUnknown
    }
}

pub open spec fn opt_seq(o: Option<String>) -> Option<Seq<char>> {
    match o {
        Some(s) => Some(s@),
        None => None,
    }
}

fn is_peer(by: &Option<String>) -> (r: bool)
    ensures
        r == (opt_seq(*by) == Some(peer_agent_id())),
{
    match by {
        Some(b) => str_eq(b.as_str(), "claude_code"),
        None => false,
    }
}

/// Classifies a child's exit (see `classify`).
pub fn classify_exit(
    stop_by: &Option<String>,
    stop_at: Option<u64>,
    interrupt_at: u64,
    exit_code: i32,
    now: u64,
) -> (r: ExitReason)
    ensures
        r == classify(opt_seq(*stop_by), stop_at, interrupt_at, exit_code, now),
{
    let recent_stop = match stop_at {
        Some(at) => now.saturating_sub(at) <= STOP_WINDOW_MS,
        None => false,
    };
    let since_interrupt = now.saturating_sub(interrupt_at);
    if recent_stop {
        if is_peer(stop_by) {
            ExitReason::ClaudeRequested
        } else {
            ExitReason::ToolRequested
        }
    } else if since_interrupt <= INTERRUPT_WINDOW_MS {
        ExitReason::UserRequested
    } else if stop_at.is_none() && exit_code == 0 {
        ExitReason::UserRequested
    } else {
        ExitReason::CrashOrUnknown
    }
}

/// A control addressed to this relay's session.
pub enum ControlCommand {
    SendInput { text: String, request_id: Option<String>, requested_by: Option<String> },
    Pause { requested_by: Option<String> },
    Kill { requested_by: Option<String> },
    Retry { text: String, request_id: Option<String>, requested_by: Option<String> },
}

pub open spec fn text_or_empty(o: Option<Seq<char>>) -> Seq<char> {
    match o {
        Some(s) => s,
        None => Seq::empty(),
    }
}

fn clone_opt(o: &Option<String>) -> (r: Option<String>)
    ensures
        opt_seq(r) == opt_seq(*o),
{
    match o {
        Some(s) => Some(s.clone()),
        None => None,
    }
}

fn text_of(o: &Option<String>) -> (r: String)
    ensures
        r@ == text_or_empty(opt_seq(*o)),
{
    match o {
        Some(s) => s.clone(),
        None => String::new(),
    }
}

/// The command a `codex.control` message carries, read from its fields.
/// A message of another type, for another session, or with an unknown
/// action carries none.
pub fn control_command(
    message_type: &Option<String>,
    message_session_id: &Option<String>,
    session_id: &str,
    action: &Option<String>,
    text: &Option<String>,
    request_id: &Option<String>,
    requested_by: &Option<String>,
) -> (r: Option<ControlCommand>)
    ensures
        opt_seq(*message_type) != Some("codex.control"@) ==> r is None,
        text_or_empty(opt_seq(*message_session_id)) != session_id@ ==> r is None,
        opt_seq(*message_type) == Some("codex.control"@) && text_or_empty(
            opt_seq(*message_session_id),
        ) == session_id@ ==> {
            let a = text_or_empty(opt_seq(*action));
            &&& (a == "send_input"@) == (r matches Some(ControlCommand::SendInput { .. }))
            &&& (a == "pause"@) == (r matches Some(ControlCommand::Pause { .. }))
            &&& (a == "kill"@) == (r matches Some(ControlCommand::Kill { .. }))
            &&& (a == "retry"@) == (r matches Some(ControlCommand::Retry { .. }))
            &&& r is Some ==> command_fields(
                r->Some_0,
                text_or_empty(opt_seq(*text)),
                opt_seq(*request_id),
                opt_seq(*requested_by),
            )
        },
{
    proof {
        reveal_strlit("send_input");
        reveal_strlit("pause");
        reveal_strlit("kill");
        reveal_strlit("retry");
        assert("send_input"@.len() != "pause"@.len());
        assert("send_input"@.len() != "kill"@.len());
        assert("send_input"@.len() != "retry"@.len());
        assert("pause"@.len() != "kill"@.len());
        assert("kill"@.len() != "retry"@.len());
        assert("pause"@ != "retry"@) by {
            assert("pause"@[0] != "retry"@[0]);
        }
    }
    let t = text_of(message_type);
    if !str_eq(t.as_str(), "codex.control") || message_type.is_none() {
        return None;
    }
    let sid = text_of(message_session_id);
    if !str_eq(sid.as_str(), session_id) {
        return None;
    }
    let a = text_of(action);
    if str_eq(a.as_str(), "send_input") {
        Some(
            ControlCommand::SendInput {
                text: text_of(text),
                request_id: clone_opt(request_id),
                requested_by: clone_opt(requested_by),
            },
        )
    } else if str_eq(a.as_str(), "pause") {
        Some(ControlCommand::Pause { requested_by: clone_opt(requested_by) })
    } else if str_eq(a.as_str(), "kill") {
        Some(ControlCommand::Kill { requested_by: clone_opt(requested_by) })
    } else if str_eq(a.as_str(), "retry") {
        Some(
            ControlCommand::Retry {
                text: text_of(text),
                request_id: clone_opt(request_id),
                requested_by: clone_opt(requested_by),
            },
        )
    } else {
        None
    }
}

/// The fields of `c` are the given text, request id and requester (where
/// the command has them).
pub open spec fn command_fields(
    c: ControlCommand,
    text: Seq<char>,
    request_id: Option<Seq<char>>,
    requested_by: Option<Seq<char>>,
) -> bool {
    match c {
        ControlCommand::SendInput { text: t, request_id: i, requested_by: b } => t@ == text && opt_seq(i)
            == request_id && opt_seq(b) == requested_by,
        ControlCommand::Pause { requested_by: b } => opt_seq(b) == requested_by,
        ControlCommand::Kill { requested_by: b } => opt_seq(b) == requested_by,
        ControlCommand::Retry { text: t, request_id: i, requested_by: b } => t@ == text && opt_seq(i)
            == request_id && opt_seq(b) == requested_by,
    }
}

/// What the relay reports to the supervisor.
pub enum SessionNotice {
    Started { pid: i32 },
    Exited { exit_code: i32, reason: ExitReason },
}

/// Work for the process driving the relay.
pub enum RelayAction {
    /// Write bytes to the child's input.
    WriteToChild(Vec<u8>),
    /// Spawn a child of this generation, then call `on_spawned` or
    /// `on_spawn_failed`.
    Spawn { generation: u64 },
    /// Kill the child's process (group).
    KillChild { pid: i32 },
    /// Post a notice to the ingress.
    Publish(SessionNotice),
    /// Stop the relay.
    Exit,
}

/// An input to the relay's loop.
pub enum RelayEvent {
    Stdin(Vec<u8>),
    Control(ControlCommand),
    ChildExited { generation: u64, exit_code: i32 },
    ViewerDisconnected,
    TerminalDsr,
}

/// The relay's state between events.
pub struct RelayState {
    pub generation: u64,
    pub child_pid: i32,
    pub attached: bool,
    pub last_stop_requested_by: Option<String>,
    /// When the last stop (pause, kill or retry) was requested, if one is on
    /// record for the current child.
    pub last_stop_requested_at_ms: Option<u64>,
    pub last_user_interrupt_at_ms: u64,
    /// Bytes to write once the child being spawned is up.
    pub pending_input: Option<Vec<u8>>,
    pub finished: bool,
}

/// The reply to a cursor position query: row 1, column 1.
pub open spec fn dsr_reply() -> Seq<u8> {
    seq![0x1bu8, 0x5bu8, 0x31u8, 0x3bu8, 0x31u8, 0x52u8]
}

/// The cursor position query a TUI writes: `ESC [ 6 n`.
pub open spec fn dsr_query() -> Seq<u8> {
    seq![0x1bu8, 0x5bu8, 0x36u8, 0x6eu8]
}

pub open spec fn has_etx(b: Seq<u8>) -> bool {
    exists|i: int| 0 <= i < b.len() && b[i] == 0x03u8
}

fn push_kill(acts: &mut Vec<RelayAction>, pid: i32)
    ensures
        pid > 0 ==> final(acts)@ == old(acts)@.push(RelayAction::KillChild { pid }),
        pid <= 0 ==> final(acts)@ == old(acts)@,
{
    if pid > 0 {
        acts.push(RelayAction::KillChild { pid });
    }
}

/// The UTF-8 bytes of `text` followed by a newline.
pub open spec fn line_of(text: Seq<char>) -> Seq<u8> {
    encode_utf8(text) + seq![0x0au8]
}

fn line_bytes(text: &String) -> (r: Vec<u8>)
    ensures
        r@ == line_of(text@),
{
    let mut v = slice_to_vec(text.as_str().as_bytes());
    v.push(0x0a);
    v
}

impl RelayState {
    /// A relay that has not spawned its first child yet.
    pub fn new() -> (r: RelayState)
        ensures
            r.generation == 1,
            r.child_pid == -1,
            !r.attached,
            r.last_stop_requested_by is None,
            r.last_stop_requested_at_ms is None,
            r.last_user_interrupt_at_ms == 0,
            r.pending_input is None,
            !r.finished,
    {
        RelayState {
            generation: 1,
            child_pid: -1,
            attached: false,
            last_stop_requested_by: None,
            last_stop_requested_at_ms: None,
            last_user_interrupt_at_ms: 0,
            pending_input: None,
            finished: false,
        }
    }

    /// The first spawn.
    pub fn start(&self) -> (acts: Vec<RelayAction>)
        ensures
            acts@.len() == 1,
            acts@[0] == (RelayAction::Spawn { generation: self.generation }),
    {
        let mut acts: Vec<RelayAction> = Vec::new();
        acts.push(RelayAction::Spawn { generation: self.generation });
        acts
    }

    /// The child of the current generation is up under `pid`: announce it and
    /// write the input that waited for it. A stop requested of an earlier
    /// child does not count for this one.
    pub fn on_spawned(&mut self, pid: i32) -> (acts: Vec<RelayAction>)
        ensures
            *final(self) == (RelayState {
                attached: true,
                child_pid: pid,
                pending_input: None,
                last_stop_requested_by: None,
                last_stop_requested_at_ms: None,
                ..*old(self)
            }),
            acts@.len() >= 1,
            acts@[0] == (RelayAction::Publish(SessionNotice::Started { pid })),
            match old(self).pending_input {
                Some(b) => acts@.len() == 2 && acts@[1] == RelayAction::WriteToChild(b),
                None => acts@.len() == 1,
            },
    {
        self.attached = true;
        self.child_pid = pid;
        self.last_stop_requested_by = None;
        self.last_stop_requested_at_ms = None;
        let mut acts: Vec<RelayAction> = Vec::new();
        acts.push(RelayAction::Publish(SessionNotice::Started { pid }));
        let pending = self.pending_input.take();
        match pending {
            Some(b) => {
                acts.push(RelayAction::WriteToChild(b));
            },
            None => {},
        }
        acts
    }

    /// The child could not be spawned: report it and drop the waiting input.
    pub fn on_spawn_failed(&mut self) -> (acts: Vec<RelayAction>)
        ensures
            !final(self).attached,
            final(self).child_pid == -1,
            final(self).pending_input is None,
            final(self).generation == old(self).generation,
            final(self).finished == old(self).finished,
            acts@ == seq![
                RelayAction::Publish(
                    SessionNotice::Exited {
                        exit_code: SPAWN_FAILED_EXIT_CODE,
                        reason: ExitReason::SpawnFailed,
                    },
                ),
            ],
    {
        self.attached = false;
        self.child_pid = -1;
        self.pending_input = None;
        let mut acts: Vec<RelayAction> = Vec::new();
        acts.push(
            RelayAction::Publish(
                SessionNotice::Exited {
                    exit_code: SPAWN_FAILED_EXIT_CODE,
                    reason: ExitReason::SpawnFailed,
                },
            ),
        );
        acts
    }

    /// Bytes typed by the user: forwarded to the child, and an interrupt
    /// among them is time-stamped.
    pub fn on_stdin(&mut self, bytes: Vec<u8>, now: u64) -> (acts: Vec<RelayAction>)
        ensures
            stdin_applied(*old(self), *final(self), bytes@, now, acts@),
    {
        let mut i: usize = 0;
        let mut etx = false;
        while i < bytes.len()
            invariant
                0 <= i <= bytes@.len(),
                etx == exists|j: int| 0 <= j < i && bytes@[j] == 0x03u8,
            decreases bytes@.len() - i,
        {
            if bytes[i] == 0x03 {
                etx = true;
            }
            i = i + 1;
        }
        if etx {
            self.last_user_interrupt_at_ms = now;
        }
        let mut acts: Vec<RelayAction> = Vec::new();
        if self.attached {
            acts.push(RelayAction::WriteToChild(bytes));
        }
        acts
    }

    /// The terminal was asked for the cursor position: answer for it.
    pub fn on_dsr(&self) -> (acts: Vec<RelayAction>)
        ensures
            dsr_applied(*self, acts@),
    {
        let mut acts: Vec<RelayAction> = Vec::new();
        if self.attached {
            let reply: Vec<u8> = vec![0x1b, 0x5b, 0x31, 0x3b, 0x31, 0x52];
            assert(reply@ == dsr_reply());
            acts.push(RelayAction::WriteToChild(reply));
        }
        acts
    }

    /// The connection to the supervisor dropped: kill the child and stop.
    pub fn on_viewer_disconnected(&mut self) -> (acts: Vec<RelayAction>)
        ensures
            disconnect_applied(*old(self), *final(self), acts@),
    {
        let pid = self.child_pid;
        let mut acts: Vec<RelayAction> = Vec::new();
        push_kill(&mut acts, pid);
        acts.push(RelayAction::Exit);
        self.finished = true;
        proof {
            if pid > 0 {
                assert(acts@ =~= seq![RelayAction::KillChild { pid }, RelayAction::Exit]);
            } else {
                assert(acts@ =~= seq![RelayAction::Exit]);
            }
        }
        acts
    }

    /// A child exited: a stale generation is ignored; otherwise the exit is
    /// classified and reported, and the relay waits for the next control.
    pub fn on_child_exited(&mut self, generation: u64, exit_code: i32, now: u64) -> (acts: Vec<
        RelayAction,
    >)
        ensures
            exit_applied(*old(self), *final(self), generation, exit_code, now, acts@),
    {
        let mut acts: Vec<RelayAction> = Vec::new();
        if generation != self.generation {
            return acts;
        }
        let reason = classify_exit(
            &self.last_stop_requested_by,
            self.last_stop_requested_at_ms,
            self.last_user_interrupt_at_ms,
            exit_code,
            now,
        );
        acts.push(RelayAction::Publish(SessionNotice::Exited { exit_code, reason }));
        self.attached = false;
        self.child_pid = -1;
        self.last_stop_requested_by = None;
        self.last_stop_requested_at_ms = None;
        acts
    }

    /// Applies a control addressed to this session.
    pub fn on_control(&mut self, cmd: ControlCommand, now: u64) -> (acts: Vec<RelayAction>)
        ensures
            control_applied(*old(self), *final(self), cmd, now, acts@),
    {
        match cmd {
            ControlCommand::SendInput { text, .. } => {
                if blank(text.as_str()) {
                    return Vec::new();
                }
                let line = line_bytes(&text);
                let mut acts: Vec<RelayAction> = Vec::new();
                if self.attached {
                    acts.push(RelayAction::WriteToChild(line));
                } else {
                    self.generation = self.generation.wrapping_add(1);
                    self.pending_input = Some(line);
                    acts.push(RelayAction::Spawn { generation: self.generation });
                }
                acts
            },
            ControlCommand::Pause { requested_by } => {
                self.last_stop_requested_by = requested_by;
                self.last_stop_requested_at_ms = Some(now);
                let mut acts: Vec<RelayAction> = Vec::new();
                if self.attached {
                    let etx: Vec<u8> = vec![0x03];
                    assert(etx@ == seq![0x03u8]);
                    acts.push(RelayAction::WriteToChild(etx));
                }
                acts
            },
            ControlCommand::Kill { requested_by } => {
                let reason = if is_peer(&requested_by) {
                    ExitReason::ClaudeRequested
                } else {
                    ExitReason::ToolRequested
                };
                let had_child = self.attached;
                self.last_stop_requested_by = requested_by;
                self.last_stop_requested_at_ms = Some(now);
                let pid = self.child_pid;
                let mut acts: Vec<RelayAction> = Vec::new();
                push_kill(&mut acts, pid);
                let ghost killed = acts@;
                if had_child {
                    acts.push(
                        RelayAction::Publish(
                            SessionNotice::Exited { exit_code: KILLED_EXIT_CODE, reason },
                        ),
                    );
                }
                acts.push(RelayAction::Exit);
                proof {
                    let notice = RelayAction::Publish(
                        SessionNotice::Exited { exit_code: KILLED_EXIT_CODE, reason },
                    );
                    if had_child {
                        assert(acts@ =~= killed + seq![notice, RelayAction::Exit]);
                    } else {
                        assert(acts@ =~= killed + seq![RelayAction::Exit]);
                    }
                }
                self.attached = false;
                self.child_pid = -1;
                self.finished = true;
                acts
            },
            ControlCommand::Retry { text, requested_by, .. } => {
                self.last_stop_requested_by = requested_by;
                self.last_stop_requested_at_ms = Some(now);
                self.generation = self.generation.wrapping_add(1);
                let pid = self.child_pid;
                let mut acts: Vec<RelayAction> = Vec::new();
                push_kill(&mut acts, pid);
                self.attached = false;
                self.child_pid = -1;
                self.pending_input = Some(line_bytes(&text));
                acts.push(RelayAction::Spawn { generation: self.generation });
                proof {
                    let spawn = RelayAction::Spawn { generation: self.generation };
                    if pid > 0 {
                        assert(acts@ =~= seq![RelayAction::KillChild { pid }, spawn]);
                    } else {
                        assert(acts@ =~= seq![spawn]);
                    }
                }
                acts
            },
        }
    }

    /// One step of the relay's loop.
    pub fn step(&mut self, ev: RelayEvent, now: u64) -> (acts: Vec<RelayAction>)
        ensures
            match ev {
                RelayEvent::Control(cmd) => control_applied(*old(self), *final(self), cmd, now, acts@),
                RelayEvent::ChildExited { generation, exit_code } => exit_applied(
                    *old(self),
                    *final(self),
                    generation,
                    exit_code,
                    now,
                    acts@,
                ),
                RelayEvent::ViewerDisconnected => disconnect_applied(*old(self), *final(self), acts@),
                RelayEvent::TerminalDsr => *final(self) == *old(self) && dsr_applied(*old(self), acts@),
                RelayEvent::Stdin(b) => stdin_applied(*old(self), *final(self), b@, now, acts@),
            },
    {
        match ev {
            RelayEvent::Stdin(b) => self.on_stdin(b, now),
            RelayEvent::Control(cmd) => self.on_control(cmd, now),
            RelayEvent::ChildExited { generation, exit_code } => self.on_child_exited(
                generation,
                exit_code,
                now,
            ),
            RelayEvent::ViewerDisconnected => self.on_viewer_disconnected(),
            RelayEvent::TerminalDsr => self.on_dsr(),
        }
    }
}

/// `post` and `acts` are what bytes typed by the user make of `pre`: they go
/// to the child if one is attached, and an interrupt among them is stamped.
pub open spec fn stdin_applied(pre: RelayState, post: RelayState, bytes: Seq<u8>, now: u64, acts: Seq<RelayAction>) -> bool {
    &&& post == (RelayState {
        last_user_interrupt_at_ms: if has_etx(bytes) {
            now
        } else {
            pre.last_user_interrupt_at_ms
        },
        ..pre
    })
    &&& pre.attached ==> acts.len() == 1 && acts[0] is WriteToChild && acts[0]->WriteToChild_0@ == bytes
    &&& !pre.attached ==> acts.len() == 0
}

/// `acts` answers a cursor position query for the attached child, if any.
pub open spec fn dsr_applied(pre: RelayState, acts: Seq<RelayAction>) -> bool {
    &&& pre.attached ==> acts.len() == 1 && acts[0] is WriteToChild && acts[0]->WriteToChild_0@
        == dsr_reply()
    &&& !pre.attached ==> acts.len() == 0
}

/// The supervisor's stream dropped: kill the child, if any, and stop.
pub open spec fn disconnect_applied(pre: RelayState, post: RelayState, acts: Seq<RelayAction>) -> bool {
    &&& post == (RelayState { finished: true, ..pre })
    &&& pre.child_pid > 0 ==> acts == seq![RelayAction::KillChild { pid: pre.child_pid }, RelayAction::Exit]
    &&& pre.child_pid <= 0 ==> acts == seq![RelayAction::Exit]
}

/// A child of `generation` exited with `exit_code` at `now`: a stale
/// generation changes nothing; otherwise the classified exit is reported and
/// the relay waits, with no child and no stop on record.
pub open spec fn exit_applied(
    pre: RelayState,
    post: RelayState,
    generation: u64,
    exit_code: i32,
    now: u64,
    acts: Seq<RelayAction>,
) -> bool {
    if generation != pre.generation {
        acts.len() == 0 && post == pre
    } else {
        &&& acts == seq![
            RelayAction::Publish(
                SessionNotice::Exited {
                    exit_code,
                    reason: classify(
                        opt_seq(pre.last_stop_requested_by),
                        pre.last_stop_requested_at_ms,
                        pre.last_user_interrupt_at_ms,
                        exit_code,
                        now,
                    ),
                },
            ),
        ]
        &&& post == (RelayState {
            attached: false,
            child_pid: -1i32,
            last_stop_requested_by: None,
            last_stop_requested_at_ms: None,
            ..pre
        })
    }
}

/// A kill that reaches a relay whose child has already exited reports no
/// exit: the relay only stops, so the session's stored exit stays as it was.
pub proof fn lemma_kill_without_child_reports_nothing(
    pre: RelayState,
    post: RelayState,
    requested_by: Option<String>,
    now: u64,
    acts: Seq<RelayAction>,
)
    requires
        !pre.attached,
        control_applied(pre, post, ControlCommand::Kill { requested_by }, now, acts),
    ensures
        forall|i: int| 0 <= i < acts.len() ==> !(#[trigger] acts[i] is Publish),
{
    if pre.child_pid > 0 {
        assert(acts == seq![RelayAction::KillChild { pid: pre.child_pid }, RelayAction::Exit]);
    } else {
        assert(acts == seq![RelayAction::Exit]);
    }
}

pub open spec fn wrap_inc(g: u64) -> u64 {
    if g == u64::MAX {
        0
    } else {
        (g + 1) as u64
    }
}

/// `post` and `acts` are what the control `cmd` at `now` makes of `pre`.
pub open spec fn control_applied(
    pre: RelayState,
    post: RelayState,
    cmd: ControlCommand,
    now: u64,
    acts: Seq<RelayAction>,
) -> bool {
    match cmd {
        ControlCommand::SendInput { text, .. } => if is_blank(text@) {
            post == pre && acts.len() == 0
        } else if pre.attached {
            &&& post == pre
            &&& acts.len() == 1
            &&& acts[0] is WriteToChild
            &&& acts[0]->WriteToChild_0@ == line_of(text@)
        } else {
            &&& post == (RelayState {
                generation: wrap_inc(pre.generation),
                pending_input: post.pending_input,
                ..pre
            })
            &&& post.pending_input matches Some(b) && b@ == line_of(text@)
            &&& acts == seq![RelayAction::Spawn { generation: wrap_inc(pre.generation) }]
        },
        ControlCommand::Pause { requested_by } => {
            &&& post == (RelayState {
                last_stop_requested_by: requested_by,
                last_stop_requested_at_ms: Some(now),
                ..pre
            })
            &&& pre.attached ==> acts.len() == 1 && acts[0] is WriteToChild && acts[0]->WriteToChild_0@
                == seq![0x03u8]
            &&& !pre.attached ==> acts.len() == 0
        },
        ControlCommand::Kill { requested_by } => {
            let notice = RelayAction::Publish(
                SessionNotice::Exited {
                    exit_code: KILLED_EXIT_CODE,
                    reason: stop_reason(opt_seq(requested_by)),
                },
            );
            let killed = if pre.child_pid > 0 {
                seq![RelayAction::KillChild { pid: pre.child_pid }]
            } else {
                Seq::<RelayAction>::empty()
            };
            &&& post == (RelayState {
                attached: false,
                child_pid: -1i32,
                last_stop_requested_by: requested_by,
                last_stop_requested_at_ms: Some(now),
                finished: true,
                ..pre
            })
            &&& pre.attached ==> acts == killed + seq![notice, RelayAction::Exit]
            &&& !pre.attached ==> acts == killed + seq![RelayAction::Exit]
        },
        ControlCommand::Retry { text, requested_by, .. } => {
            let spawn = RelayAction::Spawn { generation: wrap_inc(pre.generation) };
            &&& post == (RelayState {
                generation: wrap_inc(pre.generation),
                attached: false,
                child_pid: -1i32,
                last_stop_requested_by: requested_by,
                last_stop_requested_at_ms: Some(now),
                pending_input: post.pending_input,
                ..pre
            })
            &&& post.pending_input matches Some(b) && b@ == line_of(text@)
            &&& pre.child_pid > 0 ==> acts == seq![RelayAction::KillChild { pid: pre.child_pid }, spawn]
            &&& pre.child_pid <= 0 ==> acts == seq![spawn]
        },
    }
}

/// `s` without trailing carriage returns and line feeds.
pub open spec fn strip_newlines(s: Seq<char>) -> Seq<char>
    decreases s.len(),
{
    if s.len() > 0 && (s.last() == '\r' || s.last() == '\n') {
        strip_newlines(s.drop_last())
    } else {
        s
    }
}

pub open spec fn has_prefix(s: Seq<char>, p: Seq<char>) -> bool {
    p.len() <= s.len() && s.take(p.len() as int) == p
}

/// What one SSE line does to the event being assembled (`ev`, `data`):
/// the new pair, and the completed `(event, data)` a blank line releases.
pub open spec fn sse_step(ev: Option<Seq<char>>, data: Option<Seq<char>>, line: Seq<char>) -> (
    Option<Seq<char>>,
    Option<Seq<char>>,
    Option<(Seq<char>, Seq<char>)>,
) {
    let l = strip_newlines(line);
    if has_prefix(l, ":"@) {
        (ev, data, None)
    } else if has_prefix(l, "event:"@) {
        (Some(crate::text::trimmed(l.skip(6))), data, None)
    } else if has_prefix(l, "data:"@) {
        let chunk = crate::text::trimmed(l.skip(5));
        match data {
            Some(d) => (ev, Some(d + "\n"@ + chunk), None),
            None => (ev, Some(chunk), None),
        }
    } else if l.len() == 0 {
        match (ev, data) {
            (Some(e), Some(d)) => (None, None, Some((e, d))),
            _ => (None, None, None),
        }
    } else {
        (ev, data, None)
    }
}

/// Assembles `event:` / `data:` lines of an event stream into events.
pub struct SseAssembler {
    pub cur_event: Option<String>,
    pub cur_data: Option<String>,
}

fn strip_line(line: &str) -> (r: String)
    ensures
        r@ == strip_newlines(line@),
{
    let mut j: usize = line.unicode_len();
    proof {
        assert(line@.take(line@.len() as int) =~= line@);
    }
    while j > 0 && (line.get_char(j - 1) == '\r' || line.get_char(j - 1) == '\n')
        invariant
            0 <= j <= line@.len(),
            strip_newlines(line@) == strip_newlines(line@.take(j as int)),
        decreases j,
    {
        proof {
            let t = line@.take(j as int);
            assert(t.drop_last() =~= line@.take(j - 1));
            assert(t.last() == line@[j - 1]);
        }
        j = j - 1;
    }
    proof {
        assert(line@.subrange(0, j as int) =~= line@.take(j as int));
        if j == line@.len() {
            assert(line@.take(j as int) =~= line@);
        }
    }
    String::from_str(line.substring_char(0, j))
}

impl SseAssembler {
    pub fn new() -> (r: SseAssembler)
        ensures
            r.cur_event is None,
            r.cur_data is None,
    {
        SseAssembler { cur_event: None, cur_data: None }
    }

    /// Takes one line of the stream; returns the `(event, data)` it completes.
    pub fn feed_line(&mut self, line: &str) -> (r: Option<(String, String)>)
        ensures
            ({
                let (e, d, out) = sse_step(opt_seq(old(self).cur_event), opt_seq(old(self).cur_data), line@);
                &&& opt_seq(final(self).cur_event) == e
                &&& opt_seq(final(self).cur_data) == d
                &&& match r {
                    Some((a, b)) => out == Some((a@, b@)),
                    None => out is None,
                }
            }),
    {
        proof {
            reveal_strlit(":");
            reveal_strlit("event:");
            reveal_strlit("data:");
            reveal_strlit("\n");
        }
        let l = strip_line(line);
        let ls = l.as_str();
        if crate::text::starts_with(ls, ":") {
            return None;
        }
        if crate::text::starts_with(ls, "event:") {
            let n = ls.unicode_len();
            self.cur_event = Some(crate::text::trim(ls.substring_char(6, n)));
            proof {
                assert(ls@.subrange(6, n as int) =~= ls@.skip(6));
            }
            return None;
        }
        if crate::text::starts_with(ls, "data:") {
            let n = ls.unicode_len();
            let chunk = crate::text::trim(ls.substring_char(5, n));
            proof {
                assert(ls@.subrange(5, n as int) =~= ls@.skip(5));
            }
            let next = match self.cur_data.take() {
                Some(d) => d.concat("\n").concat(chunk.as_str()),
                None => chunk,
            };
            self.cur_data = Some(next);
            return None;
        }
        if ls.unicode_len() == 0 {
            let e = self.cur_event.take();
            let d = self.cur_data.take();
            return match (e, d) {
                (Some(e), Some(d)) => Some((e, d)),
                _ => None,
            };
        }
        None
    }
}

/// Scans `data` from `i` up to the safe end `safe`: bytes pass through,
/// except each cursor position query, which is counted and taken out.
/// Returns the bytes passed, the count, and where the scan stopped.
pub open spec fn dsr_scan(data: Seq<u8>, i: int, safe: int) -> (Seq<u8>, nat, int)
    decreases data.len() - i,
{
    if i >= safe || i < 0 || i >= data.len() {
        (Seq::empty(), 0, i)
    } else if i + 4 <= data.len() && data.subrange(i, i + 4) == dsr_query() {
        let r = dsr_scan(data, i + 4, safe);
        (r.0, r.1 + 1, r.2)
    } else {
        let r = dsr_scan(data, i + 1, safe);
        (seq![data[i]] + r.0, r.1, r.2)
    }
}

/// The end up to which a buffer of `len` bytes can be scanned: a query may
/// still be cut by the chunk boundary in its last three bytes.
pub open spec fn safe_end(len: nat) -> int {
    if len >= 3 {
        len - 3
    } else {
        0
    }
}

/// Intercepts cursor position queries in the child's output stream, keeping
/// the bytes that might start a query cut by a chunk boundary.
pub struct DsrScanner {
    pub carry: Vec<u8>,
}

fn is_dsr_at(data: &Vec<u8>, i: usize) -> (r: bool)
    ensures
        r == (i + 4 <= data@.len() && data@.subrange(i as int, i + 4) == dsr_query()),
{
    if i >= data.len() || data.len() - i < 4 {
        return false;
    }
    let r = data[i] == 0x1b && data[i + 1] == 0x5b && data[i + 2] == 0x36 && data[i + 3] == 0x6e;
    proof {
        if r {
            assert(data@.subrange(i as int, i + 4) =~= dsr_query());
        } else {
            if data@.subrange(i as int, i + 4) == dsr_query() {
                assert(data@.subrange(i as int, i + 4)[0] == data@[i as int]);
                assert(data@.subrange(i as int, i + 4)[1] == data@[i + 1]);
                assert(data@.subrange(i as int, i + 4)[2] == data@[i + 2]);
                assert(data@.subrange(i as int, i + 4)[3] == data@[i + 3]);
            }
        }
    }
    r
}

impl DsrScanner {
    pub fn new() -> (r: DsrScanner)
        ensures
            r.carry@.len() == 0,
    {
        DsrScanner { carry: Vec::new() }
    }

    /// At the end of the stream: the carried bytes, which are passed on as they are.
    pub fn finish(&mut self) -> (r: Vec<u8>)
        ensures
            r@ == old(self).carry@,
            final(self).carry@.len() == 0,
    {
        let mut rest: Vec<u8> = Vec::new();
        rest.append(&mut self.carry);
        rest
    }

    /// Scans the carried bytes followed by `chunk`: returns the bytes to pass
    /// on and how many queries were answered; the unscanned tail is carried.
    pub fn feed(&mut self, chunk: &Vec<u8>) -> (r: (Vec<u8>, usize))
        requires
            old(self).carry@.len() + chunk@.len() <= usize::MAX,
        ensures
            ({
                let data = old(self).carry@ + chunk@;
                let (out, count, end) = dsr_scan(data, 0, safe_end(data.len()));
                &&& r.0@ == out
                &&& r.1 == count
                &&& final(self).carry@ == data.skip(end)
            }),
    {
        let mut data: Vec<u8> = Vec::new();
        data.append(&mut self.carry);
        let mut k: usize = 0;
        while k < chunk.len()
            invariant
                0 <= k <= chunk@.len(),
                data@ == old(self).carry@ + chunk@.take(k as int),
            decreases chunk@.len() - k,
        {
            data.push(chunk[k]);
            k = k + 1;
            proof {
                assert(data@ =~= old(self).carry@ + chunk@.take(k as int));
            }
        }
        proof {
            assert(chunk@.take(chunk@.len() as int) =~= chunk@);
        }
        let ghost d = data@;
        let dl = data.len();
        let safe = dl.saturating_sub(3);
        let mut out: Vec<u8> = Vec::new();
        let mut count: usize = 0;
        let mut i: usize = 0;
        while i < safe
            invariant
                data@ == d,
                dl == d.len(),
                safe == safe_end(d.len()),
                0 <= i,
                i <= d.len(),
                safe <= d.len(),
                count <= i,
                out@ + dsr_scan(d, i as int, safe as int).0 == dsr_scan(d, 0, safe as int).0,
                count + dsr_scan(d, i as int, safe as int).1 == dsr_scan(d, 0, safe as int).1,
                dsr_scan(d, i as int, safe as int).2 == dsr_scan(d, 0, safe as int).2,
            decreases d.len() - i,
        {
            if is_dsr_at(&data, i) {
                count = count + 1;
                i = i + 4;
            } else {
                let ghost rest = dsr_scan(d, i + 1, safe as int);
                out.push(data[i]);
                proof {
                    assert(out@ + rest.0 =~= (out@.drop_last()) + (seq![d[i - 0]] + rest.0));
                }
                i = i + 1;
            }
        }
        proof {
            assert(dsr_scan(d, i as int, safe as int).0 =~= Seq::<u8>::empty());
            assert(out@ + Seq::<u8>::empty() =~= out@);
        }
        let mut carry: Vec<u8> = Vec::new();
        let mut j: usize = i;
        while j < data.len()
            invariant
                data@ == d,
                i <= j <= d.len(),
                carry@ == d.subrange(i as int, j as int),
            decreases d.len() - j,
        {
            carry.push(data[j]);
            j = j + 1;
            proof {
                assert(carry@ =~= d.subrange(i as int, j as int));
            }
        }
        proof {
            assert(d.subrange(i as int, d.len() as int) =~= d.skip(i as int));
        }
        self.carry = carry;
        (out, count)
    }
}

} // verus!
