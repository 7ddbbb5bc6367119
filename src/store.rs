//! The per-project session document: records keyed by session id, merged by
//! patches, deleted on request and repaired when a running pid has died.
//! Reading and writing the file is the caller's part; this module decides
//! what the document becomes.
use vstd::prelude::*;

use crate::supervisor::{opt_view, Supervisor};
use crate::text::{blank, is_blank, owned, owned_opt, str_eq};

verus! {

/// Version of the document layout.
pub const SCHEMA_VERSION: u32 = 1;

/// Lifecycle of a session.
#[derive(Clone, Copy, Debug, PartialEq, Eq, Structural)]
pub enum SessionState {
    Starting,
    Running,
    Idle,
    Exited,
}

/// One session as stored. `None` stands for a null field.
#[derive(Debug)]
pub struct SessionRecord {
    pub session_id: String,
    pub created_at: String,
    pub updated_at: String,
    pub kind: String,
    pub mode: Option<String>,
    pub state: Option<SessionState>,
    pub pid: Option<i64>,
    pub exit_code: Option<i64>,
    pub last_exit_reason: Option<String>,
    pub task_summary: Option<String>,
    pub message: Option<String>,
    pub thread_id: Option<String>,
    pub turn_id: Option<String>,
}

/// Fields to merge into a record: `None` leaves a field as it is,
/// `Some(v)` sets it to `v` (which may be null).
#[derive(Debug)]
pub struct SessionPatch {
    pub kind: Option<String>,
    pub mode: Option<Option<String>>,
    pub state: Option<Option<SessionState>>,
    pub pid: Option<Option<i64>>,
    pub exit_code: Option<Option<i64>>,
    pub last_exit_reason: Option<Option<String>>,
    pub task_summary: Option<Option<String>>,
    pub message: Option<Option<String>>,
    pub thread_id: Option<Option<String>>,
    pub turn_id: Option<Option<String>>,
}

/// The whole document.
#[derive(Debug)]
pub struct SessionsDoc {
    pub schema_version: u32,
    pub updated_at: String,
    pub sessions: Vec<SessionRecord>,
}

/// What a `SessionRecord` says.
pub struct RecordModel {
    pub session_id: Seq<char>,
    pub created_at: Seq<char>,
    pub updated_at: Seq<char>,
    pub kind: Seq<char>,
    pub mode: Option<Seq<char>>,
    pub state: Option<SessionState>,
    pub pid: Option<i64>,
    pub exit_code: Option<i64>,
    pub last_exit_reason: Option<Seq<char>>,
    pub task_summary: Option<Seq<char>>,
    pub message: Option<Seq<char>>,
    pub thread_id: Option<Seq<char>>,
    pub turn_id: Option<Seq<char>>,
}

/// What a `SessionPatch` says.
pub struct PatchModel {
    pub kind: Option<Seq<char>>,
    pub mode: Option<Option<Seq<char>>>,
    pub state: Option<Option<SessionState>>,
    pub pid: Option<Option<i64>>,
    pub exit_code: Option<Option<i64>>,
    pub last_exit_reason: Option<Option<Seq<char>>>,
    pub task_summary: Option<Option<Seq<char>>>,
    pub message: Option<Option<Seq<char>>>,
    pub thread_id: Option<Option<Seq<char>>>,
    pub turn_id: Option<Option<Seq<char>>>,
}

pub open spec fn oo_view(o: Option<Option<String>>) -> Option<Option<Seq<char>>> {
    match o {
        Some(v) => Some(opt_view(v)),
        None => None,
    }
}

impl View for SessionRecord {
    type V = RecordModel;

    open spec fn view(&self) -> RecordModel {
        RecordModel {
            session_id: self.session_id@,
            created_at: self.created_at@,
            updated_at: self.updated_at@,
            kind: self.kind@,
            mode: opt_view(self.mode),
            state: self.state,
            pid: self.pid,
            exit_code: self.exit_code,
            last_exit_reason: opt_view(self.last_exit_reason),
            task_summary: opt_view(self.task_summary),
            message: opt_view(self.message),
            thread_id: opt_view(self.thread_id),
            turn_id: opt_view(self.turn_id),
        }
    }
}

impl View for SessionPatch {
    type V = PatchModel;

    open spec fn view(&self) -> PatchModel {
        PatchModel {
            kind: opt_view(self.kind),
            mode: oo_view(self.mode),
            state: self.state,
            pid: self.pid,
            exit_code: self.exit_code,
            last_exit_reason: oo_view(self.last_exit_reason),
            task_summary: oo_view(self.task_summary),
            message: oo_view(self.message),
            thread_id: oo_view(self.thread_id),
            turn_id: oo_view(self.turn_id),
        }
    }
}

pub open spec fn merged<T>(cur: Option<T>, p: Option<Option<T>>) -> Option<T> {
    match p {
        Some(v) => v,
        None => cur,
    }
}

/// `r` with `p` merged in (the time stamp is set apart).
pub open spec fn patched(r: RecordModel, p: PatchModel) -> RecordModel {
    RecordModel {
        kind: match p.kind {
            Some(k) => k,
            None => r.kind,
        },
        mode: merged(r.mode, p.mode),
        state: merged(r.state, p.state),
        pid: merged(r.pid, p.pid),
        exit_code: merged(r.exit_code, p.exit_code),
        last_exit_reason: merged(r.last_exit_reason, p.last_exit_reason),
        task_summary: merged(r.task_summary, p.task_summary),
        message: merged(r.message, p.message),
        thread_id: merged(r.thread_id, p.thread_id),
        turn_id: merged(r.turn_id, p.turn_id),
        ..r
    }
}

pub open spec fn terminal_kind() -> Seq<char> {
    "terminal"@
}

/// A record created for `sid` at `now` with nothing else set.
pub open spec fn fresh_record(sid: Seq<char>, now: Seq<char>) -> RecordModel {
    RecordModel {
        session_id: sid,
        created_at: now,
        updated_at: now,
        kind: terminal_kind(),
        mode: None,
        state: None,
        pid: None,
        exit_code: None,
        last_exit_reason: None,
        task_summary: None,
        message: None,
        thread_id: None,
        turn_id: None,
    }
}

/// The record an upsert of `p` at `now` leaves for session `sid` whose record
/// was `prev`: the old record, or a fresh one, with `p` merged in and
/// `updated_at` set to `now`.
pub open spec fn upserted(prev: Option<RecordModel>, sid: Seq<char>, p: PatchModel, now: Seq<char>) -> RecordModel {
    let base = match prev {
        Some(r) => r,
        None => fresh_record(sid, now),
    };
    RecordModel { updated_at: now, ..patched(base, p) }
}

/// Two records that agree on every field but `updated_at`.
pub open spec fn same_but_time(a: RecordModel, b: RecordModel) -> bool {
    RecordModel { updated_at: b.updated_at, ..a } == b
}

pub open spec fn ids_unique(s: Seq<SessionRecord>) -> bool {
    forall|i: int, j: int|
        0 <= i < j < s.len() ==> #[trigger] s[i].session_id@ != #[trigger] s[j].session_id@
}

pub open spec fn has_at(s: Seq<SessionRecord>, sid: Seq<char>, i: int) -> bool {
    0 <= i < s.len() && s[i].session_id@ == sid
}

/// The record of `sid` in `s`, if any.
pub open spec fn lookup(s: Seq<SessionRecord>, sid: Seq<char>) -> Option<RecordModel> {
    if exists|i: int| #[trigger] has_at(s, sid, i) {
        Some(s[choose|i: int| #[trigger] has_at(s, sid, i)]@)
    } else {
        None
    }
}

pub proof fn lemma_lookup_at(s: Seq<SessionRecord>, i: int)
    requires
        ids_unique(s),
        0 <= i < s.len(),
    ensures
        lookup(s, s[i].session_id@) == Some(s[i]@),
{
    let sid = s[i].session_id@;
    assert(has_at(s, sid, i));
    let j = choose|j: int| #[trigger] has_at(s, sid, j);
    if j != i {
        if j < i {
            assert(s[j].session_id@ != s[i].session_id@);
        } else {
            assert(s[i].session_id@ != s[j].session_id@);
        }
    }
}

pub proof fn lemma_lookup_absent(s: Seq<SessionRecord>, sid: Seq<char>)
    requires
        forall|i: int| 0 <= i < s.len() ==> #[trigger] s[i].session_id@ != sid,
    ensures
        lookup(s, sid) is None,
{
}

/// Lookups of every id but `sid` are the same in `a` and `b`.
pub open spec fn others_same(a: Seq<SessionRecord>, b: Seq<SessionRecord>, sid: Seq<char>) -> bool {
    forall|k: Seq<char>| k != sid ==> #[trigger] lookup(b, k) == lookup(a, k)
}

proof fn lemma_update_others(s: Seq<SessionRecord>, i: int, r: SessionRecord)
    requires
        ids_unique(s),
        0 <= i < s.len(),
        r.session_id@ == s[i].session_id@,
    ensures
        ids_unique(s.update(i, r)),
        lookup(s.update(i, r), r.session_id@) == Some(r@),
        others_same(s, s.update(i, r), r.session_id@),
{
    let t = s.update(i, r);
    assert forall|a: int, b: int| 0 <= a < b < t.len() implies #[trigger] t[a].session_id@
        != #[trigger] t[b].session_id@ by {
        assert(s[a].session_id@ != s[b].session_id@);
    }
    lemma_lookup_at(t, i);
    assert forall|k: Seq<char>| k != r.session_id@ implies #[trigger] lookup(t, k) == lookup(s, k) by {
        if exists|j: int| #[trigger] has_at(s, k, j) {
            let j = choose|j: int| #[trigger] has_at(s, k, j);
            lemma_lookup_at(s, j);
            lemma_lookup_at(t, j);
        } else {
            assert forall|j: int| 0 <= j < t.len() implies #[trigger] t[j].session_id@ != k by {
                assert(!has_at(s, k, j));
            }
            lemma_lookup_absent(t, k);
        }
    }
}

proof fn lemma_push_others(s: Seq<SessionRecord>, r: SessionRecord)
    requires
        ids_unique(s),
        lookup(s, r.session_id@) is None,
    ensures
        ids_unique(s.push(r)),
        lookup(s.push(r), r.session_id@) == Some(r@),
        others_same(s, s.push(r), r.session_id@),
{
    let t = s.push(r);
    assert forall|j: int| 0 <= j < s.len() implies #[trigger] s[j].session_id@ != r.session_id@ by {
        if s[j].session_id@ == r.session_id@ {
            assert(has_at(s, r.session_id@, j));
        }
    }
    assert forall|a: int, b: int| 0 <= a < b < t.len() implies #[trigger] t[a].session_id@
        != #[trigger] t[b].session_id@ by {
        if b == s.len() {
            assert(t[a] == s[a]);
        } else {
            assert(s[a].session_id@ != s[b].session_id@);
        }
    }
    lemma_lookup_at(t, s.len() as int);
    assert forall|k: Seq<char>| k != r.session_id@ implies #[trigger] lookup(t, k) == lookup(s, k) by {
        if exists|j: int| #[trigger] has_at(s, k, j) {
            let j = choose|j: int| #[trigger] has_at(s, k, j);
            lemma_lookup_at(s, j);
            lemma_lookup_at(t, j);
        } else {
            assert forall|j: int| 0 <= j < t.len() implies #[trigger] t[j].session_id@ != k by {
                if j < s.len() {
                    assert(!has_at(s, k, j));
                }
            }
            lemma_lookup_absent(t, k);
        }
    }
}

impl SessionRecord {
    /// A field-by-field copy.
    pub fn duplicate(&self) -> (r: SessionRecord)
        ensures
            r == *self,
    {
        SessionRecord {
            session_id: self.session_id.clone(),
            created_at: self.created_at.clone(),
            updated_at: self.updated_at.clone(),
            kind: self.kind.clone(),
            mode: owned_opt(&self.mode),
            state: self.state,
            pid: self.pid,
            exit_code: self.exit_code,
            last_exit_reason: owned_opt(&self.last_exit_reason),
            task_summary: owned_opt(&self.task_summary),
            message: owned_opt(&self.message),
            thread_id: owned_opt(&self.thread_id),
            turn_id: owned_opt(&self.turn_id),
        }
    }

    /// A record created for `session_id` at `now`.
    pub fn fresh(session_id: &str, now: &str) -> (r: SessionRecord)
        ensures
            r@ == fresh_record(session_id@, now@),
    {
        proof {
            reveal_strlit("terminal");
        }
        SessionRecord {
            session_id: owned(session_id),
            created_at: owned(now),
            updated_at: owned(now),
            kind: String::from_str("terminal"),
            mode: None,
            state: None,
            pid: None,
            exit_code: None,
            last_exit_reason: None,
            task_summary: None,
            message: None,
            thread_id: None,
            turn_id: None,
        }
    }
}

fn merge_str(cur: &Option<String>, p: &Option<Option<String>>) -> (r: Option<String>)
    ensures
        r == merged(*cur, *p),
{
    match p {
        Some(v) => owned_opt(v),
        None => owned_opt(cur),
    }
}

fn merge_copy<T: Copy>(cur: Option<T>, p: Option<Option<T>>) -> (r: Option<T>)
    ensures
        r == merged(cur, p),
{
    match p {
        Some(v) => v,
        None => cur,
    }
}

impl SessionPatch {
    /// A patch that changes nothing.
    pub fn empty() -> (r: SessionPatch)
        ensures
            patch_is_empty(r),
    {
        SessionPatch {
            kind: None,
            mode: None,
            state: None,
            pid: None,
            exit_code: None,
            last_exit_reason: None,
            task_summary: None,
            message: None,
            thread_id: None,
            turn_id: None,
        }
    }
}

pub open spec fn patch_is_empty(p: SessionPatch) -> bool {
    &&& p.kind is None
    &&& p.mode is None
    &&& p.state is None
    &&& p.pid is None
    &&& p.exit_code is None
    &&& p.last_exit_reason is None
    &&& p.task_summary is None
    &&& p.message is None
    &&& p.thread_id is None
    &&& p.turn_id is None
}

/// Merges `p` into `r` and stamps it at `now`.
pub fn apply_patch(r: &SessionRecord, p: &SessionPatch, now: &str) -> (out: SessionRecord)
    ensures
        out@ == (RecordModel { updated_at: now@, ..patched(r@, p@) }),
{
    SessionRecord {
        session_id: r.session_id.clone(),
        created_at: r.created_at.clone(),
        updated_at: owned(now),
        kind: match &p.kind {
            Some(k) => k.clone(),
            None => r.kind.clone(),
        },
        mode: merge_str(&r.mode, &p.mode),
        state: merge_copy(r.state, p.state),
        pid: merge_copy(r.pid, p.pid),
        exit_code: merge_copy(r.exit_code, p.exit_code),
        last_exit_reason: merge_str(&r.last_exit_reason, &p.last_exit_reason),
        task_summary: merge_str(&r.task_summary, &p.task_summary),
        message: merge_str(&r.message, &p.message),
        thread_id: merge_str(&r.thread_id, &p.thread_id),
        turn_id: merge_str(&r.turn_id, &p.turn_id),
    }
}

/// Upserting the same patch twice leaves the record that one upsert left,
/// but for `updated_at`.
pub proof fn lemma_upsert_idempotent(
    prev: Option<RecordModel>,
    sid: Seq<char>,
    p: PatchModel,
    t1: Seq<char>,
    t2: Seq<char>,
)
    requires
        prev matches Some(r) ==> r.session_id == sid,
    ensures
        same_but_time(upserted(Some(upserted(prev, sid, p, t1)), sid, p, t2), upserted(prev, sid, p, t1)),
{
}

impl SessionsDoc {
    pub open spec fn wf(&self) -> bool {
        ids_unique(self.sessions@)
    }

    pub open spec fn record(&self, sid: Seq<char>) -> Option<RecordModel> {
        lookup(self.sessions@, sid)
    }

    /// An empty document.
    pub fn new() -> (r: SessionsDoc)
        ensures
            r.wf(),
            r.schema_version == SCHEMA_VERSION,
            r.updated_at@.len() == 0,
            r.sessions@.len() == 0,
    {
        SessionsDoc { schema_version: SCHEMA_VERSION, updated_at: String::new(), sessions: Vec::new() }
    }

    /// Position of the record of `sid`.
    pub fn position(&self, session_id: &str) -> (r: Option<usize>)
        requires
            self.wf(),
        ensures
            r is None ==> self.record(session_id@) is None,
            r is Some ==> r->Some_0 < self.sessions@.len() && self.sessions@[r->Some_0 as int].session_id@
                == session_id@ && self.record(session_id@) == Some(
                self.sessions@[r->Some_0 as int]@,
            ),
    {
        let mut i: usize = 0;
        while i < self.sessions.len()
            invariant
                self.wf(),
                0 <= i <= self.sessions@.len(),
                forall|j: int| 0 <= j < i ==> #[trigger] self.sessions@[j].session_id@ != session_id@,
            decreases self.sessions.len() - i,
        {
            if str_eq(self.sessions[i].session_id.as_str(), session_id) {
                proof {
                    lemma_lookup_at(self.sessions@, i as int);
                }
                return Some(i);
            }
            i = i + 1;
        }
        proof {
            lemma_lookup_absent(self.sessions@, session_id@);
        }
        None
    }

    /// The record of `session_id`, if there is one.
    pub fn get(&self, session_id: &str) -> (r: Option<&SessionRecord>)
        requires
            self.wf(),
        ensures
            match r {
                Some(rec) => self.record(session_id@) == Some(rec@),
                None => self.record(session_id@) is None,
            },
    {
        match self.position(session_id) {
            Some(i) => Some(&self.sessions[i]),
            None => None,
        }
    }

    /// Marks the document as written at `now`.
    pub fn stamp(&mut self, now: &str)
        ensures
            final(self).schema_version == SCHEMA_VERSION,
            final(self).updated_at@ == now@,
            final(self).sessions == old(self).sessions,
    {
        self.schema_version = SCHEMA_VERSION;
        self.updated_at = owned(now);
    }

    /// Merges `p` into the record of `session_id`, creating it at `now` when
    /// absent, and stamps the record and the document at `now`.
    pub fn upsert(&mut self, session_id: &str, p: &SessionPatch, now: &str)
        requires
            old(self).wf(),
        ensures
            final(self).wf(),
            final(self).record(session_id@) == Some(upserted(old(self).record(session_id@), session_id@, p@, now@)),
            others_same(old(self).sessions@, final(self).sessions@, session_id@),
            final(self).schema_version == SCHEMA_VERSION,
            final(self).updated_at@ == now@,
    {
        match self.position(session_id) {
            Some(i) => {
                let rec = apply_patch(&self.sessions[i], p, now);
                proof {
                    lemma_update_others(self.sessions@, i as int, rec);
                }
                self.sessions.set(i, rec);
            },
            None => {
                let fresh = SessionRecord::fresh(session_id, now);
                let rec = apply_patch(&fresh, p, now);
                proof {
                    lemma_push_others(self.sessions@, rec);
                }
                self.sessions.push(rec);
            },
        }
        self.stamp(now);
    }
}

/// A record that says its session is running under a positive pid that the
/// OS does not know (`alive` is false).
pub open spec fn is_stale(r: RecordModel, alive: bool) -> bool {
    claims_running(r) && !alive
}

/// A record in `running` state with a positive pid.
pub open spec fn claims_running(r: RecordModel) -> bool {
    &&& r.state == Some(SessionState::Running)
    &&& r.pid matches Some(pid) && pid > 0
}

pub open spec fn stale_reason() -> Seq<char> {
    "stale_pid"@
}

/// `r` marked as exited because its pid is gone.
pub open spec fn marked_stale(r: RecordModel, now: Seq<char>) -> RecordModel {
    RecordModel {
        state: Some(SessionState::Exited),
        last_exit_reason: Some(stale_reason()),
        exit_code: None,
        updated_at: now,
        ..r
    }
}

/// Ids of the stale records among the first `n`.
pub open spec fn stale_ids(s: Seq<SessionRecord>, alive: Seq<bool>, n: int) -> Set<Seq<char>>
    decreases n,
{
    if n <= 0 {
        Set::empty()
    } else if is_stale(s[n - 1]@, alive[n - 1]) {
        stale_ids(s, alive, n - 1).insert(s[n - 1].session_id@)
    } else {
        stale_ids(s, alive, n - 1)
    }
}

/// The document path of a project.
pub open spec fn sessions_path_of(project_root: Seq<char>) -> Seq<char> {
    if project_root.len() > 0 && (project_root.last() == '/' || project_root.last() == '\\') {
        project_root + ".cc-spec/runtime/codex/sessions.json"@
    } else {
        project_root + "/.cc-spec/runtime/codex/sessions.json"@
    }
}

/// Where the session document of `project_root` lives.
pub fn sessions_path(project_root: &str) -> (r: String)
    ensures
        r@ == sessions_path_of(project_root@),
{
    let n = project_root.unicode_len();
    proof {
        reveal_strlit(".cc-spec/runtime/codex/sessions.json");
        reveal_strlit("/.cc-spec/runtime/codex/sessions.json");
    }
    if n > 0 {
        let c = project_root.get_char(n - 1);
        if c == '/' || c == '\\' {
            return owned(project_root).concat(".cc-spec/runtime/codex/sessions.json");
        }
    }
    owned(project_root).concat("/.cc-spec/runtime/codex/sessions.json")
}

/// Upserts `p` into the record of `session_id` unless the project root or
/// the session id is blank; returns whether it wrote.
pub fn upsert_session_record(
    doc: &mut SessionsDoc,
    project_root: &str,
    session_id: &str,
    p: &SessionPatch,
    now: &str,
) -> (r: bool)
    requires
        old(doc).wf(),
    ensures
        final(doc).wf(),
        r == !(is_blank(project_root@) || is_blank(session_id@)),
        !r ==> *final(doc) == *old(doc),
        r ==> final(doc).record(session_id@) == Some(
            upserted(old(doc).record(session_id@), session_id@, p@, now@),
        ) && others_same(old(doc).sessions@, final(doc).sessions@, session_id@),
{
    if blank(project_root) || blank(session_id) {
        return false;
    }
    doc.upsert(session_id, p, now);
    true
}

/// Marks as exited every record that claims to run under a pid that is no
/// longer alive (`alive[i]` tells of the pid of record `i`), and forgets
/// those sessions in `supervisor`. Returns whether anything changed; a blank
/// project root changes nothing.
pub fn reconcile_stale_sessions(
    doc: &mut SessionsDoc,
    supervisor: &mut Supervisor,
    project_root: &str,
    alive: &Vec<bool>,
    now: &str,
) -> (changed: bool)
    requires
        old(doc).wf(),
        old(supervisor).wf(),
        alive@.len() == old(doc).sessions@.len(),
    ensures
        final(doc).wf(),
        final(supervisor).wf(),
        is_blank(project_root@) ==> !changed && *final(doc) == *old(doc) && *final(supervisor)
            == *old(supervisor),
        !is_blank(project_root@) ==> {
            &&& final(doc).sessions@.len() == old(doc).sessions@.len()
            &&& forall|i: int|
                0 <= i < old(doc).sessions@.len() ==> #[trigger] final(doc).sessions@[i]@ == if is_stale(
                    old(doc).sessions@[i]@,
                    alive@[i],
                ) {
                    marked_stale(old(doc).sessions@[i]@, now@)
                } else {
                    old(doc).sessions@[i]@
                }
            &&& changed == exists|i: int|
                0 <= i < old(doc).sessions@.len() && is_stale(
                    #[trigger] old(doc).sessions@[i]@,
                    alive@[i],
                )
            &&& forall|k: Seq<char>|
                #[trigger] final(supervisor).get(k) == if stale_ids(
                    old(doc).sessions@,
                    alive@,
                    old(doc).sessions@.len() as int,
                ).contains(k) {
                    None
                } else {
                    old(supervisor).get(k)
                }
        },
        !is_blank(project_root@) ==> forall|i: int|
            0 <= i < final(doc).sessions@.len() && claims_running(#[trigger] final(doc).sessions@[i]@)
                ==> alive@[i],
{
    if blank(project_root) {
        return false;
    }
    let ghost s0 = doc.sessions@;
    let ghost sup0 = *supervisor;
    let mut changed = false;
    let mut i: usize = 0;
    while i < doc.sessions.len()
        invariant
            doc.wf(),
            supervisor.wf(),
            doc.sessions@.len() == s0.len(),
            alive@.len() == s0.len(),
            0 <= i <= s0.len(),
            forall|j: int|
                0 <= j < i ==> #[trigger] doc.sessions@[j]@ == if is_stale(s0[j]@, alive@[j]) {
                    marked_stale(s0[j]@, now@)
                } else {
                    s0[j]@
                },
            forall|j: int| i <= j < s0.len() ==> #[trigger] doc.sessions@[j] == s0[j],
            changed == exists|j: int| 0 <= j < i && is_stale(#[trigger] s0[j]@, alive@[j]),
            forall|k: Seq<char>|
                #[trigger] supervisor.get(k) == if stale_ids(s0, alive@, i as int).contains(k) {
                    None
                } else {
                    sup0.get(k)
                },
        decreases s0.len() - i,
    {
        let rec = &doc.sessions[i];
        let stale = match rec.state {
            Some(SessionState::Running) => match rec.pid {
                Some(pid) => pid > 0 && !alive[i],
                None => false,
            },
            _ => false,
        };
        if stale {
            let mut updated = rec.duplicate();
            updated.state = Some(SessionState::Exited);
            updated.last_exit_reason = Some(String::from_str("stale_pid"));
            updated.exit_code = None;
            updated.updated_at = owned(now);
            proof {
                reveal_strlit("stale_pid");
                lemma_update_others(doc.sessions@, i as int, updated);
            }
            let sid = rec.session_id.clone();
            doc.sessions.set(i, updated);
            let ghost before = *supervisor;
            supervisor.remove(sid.as_str());
            proof {
                assert forall|k: Seq<char>|
                    #[trigger] supervisor.get(k) == if stale_ids(s0, alive@, i + 1).contains(k) {
                        None
                    } else {
                        sup0.get(k)
                    } by {
                    if k != sid@ {
                        assert(supervisor.get(k) == before.get(k));
                    }
                }
            }
            changed = true;
        }
        i = i + 1;
    }
    changed
}

pub open spec fn empty_error_text() -> Seq<char> {
    "project_root or session_id is empty"@
}

pub open spec fn not_found_text(sid: Seq<char>) -> Seq<char> {
    "Session "@ + sid + " not found"@
}

/// Removes the record of `session_id` from the document and forgets the
/// session in `supervisor`. Blank arguments and an unknown session are errors.
pub fn delete_session_record(
    doc: &mut SessionsDoc,
    supervisor: &mut Supervisor,
    project_root: &str,
    session_id: &str,
) -> (r: Result<(), String>)
    requires
        old(doc).wf(),
        old(supervisor).wf(),
    ensures
        final(doc).wf(),
        final(supervisor).wf(),
        (is_blank(project_root@) || is_blank(session_id@)) ==> r is Err && r->Err_0@ == empty_error_text()
            && *final(doc) == *old(doc) && *final(supervisor) == *old(supervisor),
        !(is_blank(project_root@) || is_blank(session_id@)) && old(doc).record(session_id@) is None
            ==> r is Err && r->Err_0@ == not_found_text(session_id@) && *final(doc) == *old(doc)
            && *final(supervisor) == *old(supervisor),
        !(is_blank(project_root@) || is_blank(session_id@)) && old(doc).record(session_id@) is Some
            ==> {
            &&& r is Ok
            &&& final(doc).record(session_id@) is None
            &&& others_same(old(doc).sessions@, final(doc).sessions@, session_id@)
            &&& final(supervisor).get(session_id@) is None
            &&& forall|k: Seq<char>|
                k != session_id@ ==> #[trigger] final(supervisor).get(k) == old(supervisor).get(k)
        },
{
    if blank(project_root) || blank(session_id) {
        proof {
            reveal_strlit("project_root or session_id is empty");
        }
        return Err(String::from_str("project_root or session_id is empty"));
    }
    match doc.position(session_id) {
        None => {
            proof {
                reveal_strlit("Session ");
                reveal_strlit(" not found");
            }
            Err(String::from_str("Session ").concat(session_id).concat(" not found"))
        },
        Some(i) => {
            let ghost s = doc.sessions@;
            doc.sessions.remove(i);
            proof {
                lemma_remove_others(s, i as int);
            }
            supervisor.remove(session_id);
            Ok(())
        },
    }
}

proof fn lemma_remove_others(s: Seq<SessionRecord>, i: int)
    requires
        ids_unique(s),
        0 <= i < s.len(),
    ensures
        ids_unique(s.remove(i)),
        lookup(s.remove(i), s[i].session_id@) is None,
        others_same(s, s.remove(i), s[i].session_id@),
{
    let t = s.remove(i);
    let sid = s[i].session_id@;
    assert forall|a: int, b: int| 0 <= a < b < t.len() implies #[trigger] t[a].session_id@
        != #[trigger] t[b].session_id@ by {
        let oa = if a < i { a } else { a + 1 };
        let ob = if b < i { b } else { b + 1 };
        assert(t[a] == s[oa]);
        assert(t[b] == s[ob]);
    }
    assert forall|j: int| 0 <= j < t.len() implies #[trigger] t[j].session_id@ != sid by {
        let oj = if j < i { j } else { j + 1 };
        assert(t[j] == s[oj]);
        if oj < i {
            assert(s[oj].session_id@ != s[i].session_id@);
        } else {
            assert(s[i].session_id@ != s[oj].session_id@);
        }
    }
    lemma_lookup_absent(t, sid);
    assert forall|k: Seq<char>| k != sid implies #[trigger] lookup(t, k) == lookup(s, k) by {
        if exists|j: int| #[trigger] has_at(s, k, j) {
            let j = choose|j: int| #[trigger] has_at(s, k, j);
            assert(j != i);
            let tj = if j < i { j } else { j - 1 };
            assert(t[tj] == s[j]);
            lemma_lookup_at(s, j);
            lemma_lookup_at(t, tj);
        } else {
            assert forall|j: int| 0 <= j < t.len() implies #[trigger] t[j].session_id@ != k by {
                let oj = if j < i { j } else { j + 1 };
                assert(t[j] == s[oj]);
                assert(!has_at(s, k, oj));
            }
            lemma_lookup_absent(t, k);
        }
    }
}

} // verus!
