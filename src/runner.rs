//! The one-shot, non-interactive agent run: its command line, and the
//! watchdog that decides when a run is idle, over time, or to be retried.
//! Spawning, waiting and sleeping are the caller's part.
use vstd::prelude::*;

use crate::text::owned;

verus! {

/// Wall-clock budget of a run when the request names none (ms).
pub const DEFAULT_TIMEOUT_MS: u64 = 7_200_000;

/// Silence after which a run is reported idle (s).
pub const DEFAULT_IDLE_TIMEOUT_S: u64 = 60;

/// Time a run gets to stop after the soft interrupt (ms).
pub const STOP_GRACE_MS: u64 = 3000;

/// Exit code reported for a run that ran out of time.
pub const TIMEOUT_EXIT_CODE: i32 = 124;

/// Runs attempted before giving up.
pub const MAX_ATTEMPTS: u32 = 5;

/// A request for one non-interactive run.
pub struct CodexRunRequest {
    pub project_path: String,
    pub prompt: String,
    pub session_id: Option<String>,
    pub timeout_ms: Option<u64>,
}

pub open spec fn command_of(bin: Seq<char>, project: Seq<char>, session: Option<Seq<char>>) -> Seq<Seq<char>> {
    let base = seq![bin, "exec"@, "--skip-git-repo-check"@, "--cd"@, project, "--json"@];
    match session {
        Some(s) => base + seq!["resume"@, s, "-"@],
        None => base + seq!["-"@],
    }
}

pub open spec fn views(v: Seq<String>) -> Seq<Seq<char>> {
    v.map_values(|s: String| s@)
}

/// The command line of a run: the agent binary in exec mode on the project,
/// resuming `session_id` when given, reading the prompt from stdin.
pub fn build_command(codex_bin: &str, project_path: &str, session_id: &Option<String>) -> (r: Vec<String>)
    ensures
        views(r@) == command_of(
            codex_bin@,
            project_path@,
            match session_id {
                Some(s) => Some(s@),
                None => None,
            },
        ),
{
    let mut cmd: Vec<String> = Vec::new();
    cmd.push(owned(codex_bin));
    cmd.push(String::from_str("exec"));
    cmd.push(String::from_str("--skip-git-repo-check"));
    cmd.push(String::from_str("--cd"));
    cmd.push(owned(project_path));
    cmd.push(String::from_str("--json"));
    match session_id {
        Some(s) => {
            cmd.push(String::from_str("resume"));
            cmd.push(s.clone());
        },
        None => {},
    }
    cmd.push(String::from_str("-"));
    proof {
        assert(views(cmd@) =~= command_of(
            codex_bin@,
            project_path@,
            match session_id {
                Some(s) => Some(s@),
                None => None,
            },
        ));
    }
    cmd
}

/// What the run loop does next.
#[derive(Clone, Copy, Debug, PartialEq, Eq, Structural)]
pub enum WatchStep {
    /// The child has exited.
    Finished,
    /// Poll again later.
    Wait,
    /// Out of time: interrupt the child softly and give it the grace period.
    SoftStop,
    /// Still running after the grace period: kill it.
    ForceKill,
}

/// The watchdog of one run.
pub struct RunWatch {
    pub deadline_ms: u64,
    pub idle_timeout_ms: u64,
    pub last_activity_ms: u64,
    pub idle_warned: bool,
    pub timed_out: bool,
}

pub open spec fn sat_add(a: u64, b: u64) -> u64 {
    if a + b > u64::MAX {
        u64::MAX
    } else {
        (a + b) as u64
    }
}

impl RunWatch {
    /// A watchdog for a run started at `now`, with the request's timeout or
    /// the default one, and the idle threshold in seconds.
    pub fn new(now: u64, timeout_ms: Option<u64>, idle_timeout_s: u64) -> (r: RunWatch)
        ensures
            r.deadline_ms == sat_add(
                now,
                match timeout_ms {
                    Some(t) => t,
                    None => DEFAULT_TIMEOUT_MS,
                },
            ),
            r.idle_timeout_ms == if idle_timeout_s > u64::MAX / 1000 {
                u64::MAX
            } else {
                (idle_timeout_s * 1000) as u64
            },
            r.last_activity_ms == now,
            !r.idle_warned,
            !r.timed_out,
    {
        let t = match timeout_ms {
            Some(t) => t,
            None => DEFAULT_TIMEOUT_MS,
        };
        let idle = if idle_timeout_s > u64::MAX / 1000 {
            u64::MAX
        } else {
            idle_timeout_s * 1000
        };
        RunWatch {
            deadline_ms: now.saturating_add(t),
            idle_timeout_ms: idle,
            last_activity_ms: now,
            idle_warned: false,
            timed_out: false,
        }
    }

    /// The child wrote something: it is active again.
    pub fn on_output(&mut self, now: u64)
        ensures
            *final(self) == (RunWatch { last_activity_ms: now, idle_warned: false, ..*old(self) }),
    {
        self.last_activity_ms = now;
        self.idle_warned = false;
    }

    /// Reports an idle run once per silence: the idle time in seconds when the
    /// threshold has just been passed.
    pub fn check_idle(&mut self, now: u64) -> (r: Option<u64>)
        ensures
            ({
                let idle = if now >= old(self).last_activity_ms {
                    now - old(self).last_activity_ms
                } else {
                    0
                };
                if idle >= old(self).idle_timeout_ms && !old(self).idle_warned {
                    r == Some((idle / 1000) as u64) && *final(self) == (RunWatch {
                        idle_warned: true,
                        ..*old(self)
                    })
                } else {
                    r is None && *final(self) == *old(self)
                }
            }),
    {
        let idle = now.saturating_sub(self.last_activity_ms);
        if idle >= self.idle_timeout_ms && !self.idle_warned {
            self.idle_warned = true;
            Some(idle / 1000)
        } else {
            None
        }
    }

    /// One poll of the run: finished when the child exited, a soft stop once
    /// the deadline has passed, else wait.
    pub fn poll(&mut self, now: u64, child_exited: bool) -> (r: WatchStep)
        ensures
            child_exited ==> r == WatchStep::Finished && *final(self) == *old(self),
            !child_exited && now >= old(self).deadline_ms ==> r == WatchStep::SoftStop && *final(self)
                == (RunWatch { timed_out: true, ..*old(self) }),
            !child_exited && now < old(self).deadline_ms ==> r == WatchStep::Wait && *final(self)
                == *old(self),
    {
        if child_exited {
            WatchStep::Finished
        } else if now >= self.deadline_ms {
            self.timed_out = true;
            WatchStep::SoftStop
        } else {
            WatchStep::Wait
        }
    }

    /// After the grace period: done if the child exited, else kill it.
    pub fn after_grace(&self, child_exited: bool) -> (r: WatchStep)
        ensures
            r == if child_exited {
                WatchStep::Finished
            } else {
                WatchStep::ForceKill
            },
    {
        if child_exited {
            WatchStep::Finished
        } else {
            WatchStep::ForceKill
        }
    }

    /// The exit code to report: the timeout code for a run that ran out of
    /// time, else the child's code, or -1 when it had none.
    pub fn exit_code(&self, status_code: Option<i32>) -> (r: i32)
        ensures
            r == if self.timed_out {
                TIMEOUT_EXIT_CODE
            } else {
                match status_code {
                    Some(c) => c,
                    None => -1i32,
                }
            },
    {
        if self.timed_out {
            TIMEOUT_EXIT_CODE
        } else {
            match status_code {
                Some(c) => c,
                None => -1,
            }
        }
    }
}

/// Why a run failed, as the completion event reports it.
#[derive(Clone, Copy, Debug, PartialEq, Eq, Structural)]
pub enum RunErrorType {
    NoError,
    Timeout,
    ExecFailed,
}

/// How a run ended: what its result and its completion event report.
#[derive(Clone, Copy, Debug, PartialEq, Eq, Structural)]
pub struct RunOutcome {
    pub success: bool,
    pub exit_code: i32,
    pub error_type: RunErrorType,
    /// The session record's new state: done or failed.
    pub done: bool,
}

impl RunWatch {
    /// The outcome of the run given the child's exit status: a run that ran
    /// out of time failed with the timeout code and error type; otherwise it
    /// succeeded exactly when the child exited with code 0.
    pub fn outcome(&self, status_code: Option<i32>) -> (r: RunOutcome)
        ensures
            self.timed_out ==> r == (RunOutcome {
                success: false,
                exit_code: TIMEOUT_EXIT_CODE,
                error_type: RunErrorType::Timeout,
                done: false,
            }),
            !self.timed_out ==> ({
                let code = match status_code {
                    Some(c) => c,
                    None => -1i32,
                };
                r == (RunOutcome {
                    success: code == 0,
                    exit_code: code,
                    error_type: if code == 0 {
                        RunErrorType::NoError
                    } else {
                        RunErrorType::ExecFailed
                    },
                    done: code == 0,
                })
            }),
    {
        let exit_code = self.exit_code(status_code);
        if self.timed_out {
            RunOutcome { success: false, exit_code, error_type: RunErrorType::Timeout, done: false }
        } else if exit_code == 0 {
            RunOutcome { success: true, exit_code, error_type: RunErrorType::NoError, done: true }
        } else {
            RunOutcome { success: false, exit_code, error_type: RunErrorType::ExecFailed, done: false }
        }
    }
}

/// Whether another attempt follows one that ended with `success` after
/// `attempts` attempts in all.
pub fn should_attempt_again(attempts: u32, success: bool) -> (r: bool)
    ensures
        r == (!success && attempts < MAX_ATTEMPTS),
{
    !success && attempts < MAX_ATTEMPTS
}

} // verus!
