//! Launching the peer agent's terminal: the check that the project was
//! initialized, and the environment handed to the terminal.
use vstd::prelude::*;

use crate::events::{decimal, push_decimal};
use crate::skills::path_under;
use crate::text::owned;

verus! {

/// What was found of the project's initialization sentinel
/// (`.cc-spec/index/status.json`).
pub enum SentinelState {
    /// The file does not exist.
    Missing,
    /// The file exists but cannot be read.
    Unreadable,
    /// The file is not valid JSON.
    Malformed,
    /// The file parsed; `initialized` is its boolean field, if it has one.
    Parsed { initialized: Option<bool> },
}

pub open spec fn missing_text() -> Seq<char> {
    "project is not initialized: run bootstrap and the knowledge-base initialization first"@
}

pub open spec fn unreadable_text() -> Seq<char> {
    "project initialization state is unreadable: run bootstrap and the knowledge-base initialization first"@
}

pub open spec fn malformed_text() -> Seq<char> {
    "project initialization state is corrupt: run bootstrap and the knowledge-base initialization again"@
}

pub open spec fn unfinished_text() -> Seq<char> {
    "project initialization is not finished: run bootstrap and the knowledge-base initialization first"@
}

/// The sentinel of `project_root`.
pub fn sentinel_path(project_root: &str) -> (r: String)
    ensures
        r@ == path_under(project_root@, ".cc-spec/index/status.json"@),
{
    crate::skills::join_path(project_root, ".cc-spec/index/status.json")
}

/// The pre-flight check of a peer terminal launch: it passes only when the
/// sentinel parsed with `initialized: true`, and fails with one message per
/// other state.
pub fn check_initialized(s: &SentinelState) -> (r: Result<(), String>)
    ensures
        r is Ok <==> s == (SentinelState::Parsed { initialized: Some(true) }),
        s is Missing ==> r is Err && r->Err_0@ == missing_text(),
        s is Unreadable ==> r is Err && r->Err_0@ == unreadable_text(),
        s is Malformed ==> r is Err && r->Err_0@ == malformed_text(),
        s is Parsed && *s != (SentinelState::Parsed { initialized: Some(true) }) ==> r is Err
            && r->Err_0@ == unfinished_text(),
{
    match s {
        SentinelState::Missing => Err(
            String::from_str(
                "project is not initialized: run bootstrap and the knowledge-base initialization first",
            ),
        ),
        SentinelState::Unreadable => Err(
            String::from_str(
                "project initialization state is unreadable: run bootstrap and the knowledge-base initialization first",
            ),
        ),
        SentinelState::Malformed => Err(
            String::from_str(
                "project initialization state is corrupt: run bootstrap and the knowledge-base initialization again",
            ),
        ),
        SentinelState::Parsed { initialized } => match initialized {
            Some(true) => Ok(()),
            _ => Err(
                String::from_str(
                    "project initialization is not finished: run bootstrap and the knowledge-base initialization first",
                ),
            ),
        },
    }
}

pub open spec fn pairs_view(v: Seq<(String, String)>) -> Seq<(Seq<char>, Seq<char>)> {
    v.map_values(|p: (String, String)| (p.0@, p.1@))
}

/// The environment of the peer terminal: the project root, the ingress URL,
/// host and port, UTF-8 output for Python tools, and the session id and the
/// agent binary when given.
pub open spec fn peer_env_of(
    root: Seq<char>,
    host: Seq<char>,
    port: u16,
    session_id: Option<Seq<char>>,
    agent_bin: Option<Seq<char>>,
) -> Seq<(Seq<char>, Seq<char>)> {
    let p = decimal(port as nat);
    let base = seq![
        ("CC_SPEC_PROJECT_ROOT"@, root),
        ("CC_SPEC_VIEWER_URL"@, "http://"@ + host + ":"@ + p),
        ("CC_SPEC_CODEX_RUNNER"@, "rust"@),
        ("CC_SPEC_CODEX_SSE_HOST"@, host),
        ("CC_SPEC_CODEX_SSE_PORT"@, p),
        ("PYTHONIOENCODING"@, "utf-8"@),
        ("PYTHONUTF8"@, "1"@),
    ];
    let with_sid = match session_id {
        Some(s) => base.push(("CC_SPEC_SESSION_ID"@, s)),
        None => base,
    };
    match agent_bin {
        Some(b) => with_sid.push(("CODEX_PATH"@, b)),
        None => with_sid,
    }
}

fn pair(k: &str, v: String) -> (r: (String, String))
    ensures
        r.0@ == k@,
        r.1@ == v@,
{
    (owned(k), v)
}

pub fn peer_env(
    project_root: &str,
    host: &str,
    port: u16,
    session_id: &Option<String>,
    agent_bin: &Option<String>,
) -> (r: Vec<(String, String)>)
    ensures
        pairs_view(r@) == peer_env_of(
            project_root@,
            host@,
            port,
            crate::relay::opt_seq(*session_id),
            crate::relay::opt_seq(*agent_bin),
        ),
{
    let mut port_text = String::new();
    push_decimal(&mut port_text, port as u64);
    let mut url = String::from_str("http://");
    url.append(host);
    url.append(":");
    url.append(port_text.as_str());
    proof {
        reveal_strlit("http://");
        reveal_strlit(":");
        assert(port_text@ =~= decimal(port as nat));
    }
    let mut env: Vec<(String, String)> = Vec::new();
    env.push(pair("CC_SPEC_PROJECT_ROOT", owned(project_root)));
    env.push(pair("CC_SPEC_VIEWER_URL", url));
    env.push(pair("CC_SPEC_CODEX_RUNNER", String::from_str("rust")));
    env.push(pair("CC_SPEC_CODEX_SSE_HOST", owned(host)));
    env.push(pair("CC_SPEC_CODEX_SSE_PORT", port_text));
    env.push(pair("PYTHONIOENCODING", String::from_str("utf-8")));
    env.push(pair("PYTHONUTF8", String::from_str("1")));
    match session_id {
        Some(s) => env.push(pair("CC_SPEC_SESSION_ID", s.clone())),
        None => {},
    }
    match agent_bin {
        Some(b) => env.push(pair("CODEX_PATH", b.clone())),
        None => {},
    }
    proof {
        assert(pairs_view(env@) =~= peer_env_of(
            project_root@,
            host@,
            port,
            crate::relay::opt_seq(*session_id),
            crate::relay::opt_seq(*agent_bin),
        ));
    }
    env
}

} // verus!
