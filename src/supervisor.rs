//! The supervisor's in-memory table of sessions: the outstanding request of
//! each, its retry counter and who last asked it to stop.
use vstd::prelude::*;

use crate::text::{owned, owned_opt, str_eq};

verus! {

/// Automatic retries allowed for one outstanding request.
pub const AUTO_RETRY_MAX: u32 = 3;

/// An input sent on behalf of a caller that waits for its completion.
#[derive(Debug)]
pub struct PendingRequest {
    pub id: String,
    pub prompt: String,
    pub requested_by: String,
    pub created_at_ms: u64,
}

/// What the supervisor keeps for one session.
pub struct SupervisorSession {
    pub project_root: Option<String>,
    pub pending: Option<PendingRequest>,
    pub retry_count: u32,
    pub last_stop_requested_by: Option<String>,
    /// Retries broadcast for the current request.
    pub retries_sent: Ghost<nat>,
}

pub struct SupervisorEntry {
    pub session_id: String,
    pub session: SupervisorSession,
}

/// All sessions the supervisor knows, one entry per session id.
pub struct Supervisor {
    entries: Vec<SupervisorEntry>,
}

/// What a `PendingRequest` says.
pub struct PendingModel {
    pub id: Seq<char>,
    pub prompt: Seq<char>,
    pub requested_by: Seq<char>,
    pub created_at_ms: u64,
}

/// What a `SupervisorSession` says.
pub struct SessionModel {
    pub project_root: Option<Seq<char>>,
    pub pending: Option<PendingModel>,
    pub retry_count: u32,
    pub last_stop_requested_by: Option<Seq<char>>,
    pub retries_sent: nat,
}

pub open spec fn opt_view(o: Option<String>) -> Option<Seq<char>> {
    match o {
        Some(s) => Some(s@),
        None => None,
    }
}

impl View for PendingRequest {
    type V = PendingModel;

    open spec fn view(&self) -> PendingModel {
        PendingModel {
            id: self.id@,
            prompt: self.prompt@,
            requested_by: self.requested_by@,
            created_at_ms: self.created_at_ms,
        }
    }
}

pub open spec fn pending_view(o: Option<PendingRequest>) -> Option<PendingModel> {
    match o {
        Some(p) => Some(p@),
        None => None,
    }
}

impl View for SupervisorSession {
    type V = SessionModel;

    open spec fn view(&self) -> SessionModel {
        SessionModel {
            project_root: opt_view(self.project_root),
            pending: pending_view(self.pending),
            retry_count: self.retry_count,
            last_stop_requested_by: opt_view(self.last_stop_requested_by),
            retries_sent: self.retries_sent@,
        }
    }
}

pub open spec fn default_session() -> SessionModel {
    SessionModel {
        project_root: None,
        pending: None,
        retry_count: 0,
        last_stop_requested_by: None,
        retries_sent: 0,
    }
}

/// The session `prev`, or a new one where there was none.
pub open spec fn or_default(prev: Option<SessionModel>) -> SessionModel {
    match prev {
        Some(s) => s,
        None => default_session(),
    }
}

/// The retry budget holds: no more retries were broadcast for the current
/// request than the counter shows, and never more than the maximum.
pub open spec fn retry_budget_kept(s: SessionModel) -> bool {
    &&& s.retries_sent <= s.retry_count
    &&& s.retries_sent <= AUTO_RETRY_MAX
}

pub open spec fn keys_unique(s: Seq<SupervisorEntry>) -> bool {
    forall|i: int, j: int|
        0 <= i < j < s.len() ==> #[trigger] s[i].session_id@ != #[trigger] s[j].session_id@
}

pub open spec fn key_at(s: Seq<SupervisorEntry>, sid: Seq<char>, i: int) -> bool {
    0 <= i < s.len() && s[i].session_id@ == sid
}

pub open spec fn find(s: Seq<SupervisorEntry>, sid: Seq<char>) -> Option<SessionModel> {
    if exists|i: int| #[trigger] key_at(s, sid, i) {
        Some(s[choose|i: int| #[trigger] key_at(s, sid, i)].session@)
    } else {
        None
    }
}

proof fn lemma_find_at(s: Seq<SupervisorEntry>, i: int)
    requires
        keys_unique(s),
        0 <= i < s.len(),
    ensures
        find(s, s[i].session_id@) == Some(s[i].session@),
{
    let sid = s[i].session_id@;
    assert(key_at(s, sid, i));
    let j = choose|j: int| #[trigger] key_at(s, sid, j);
    if j != i {
        if j < i {
            assert(s[j].session_id@ != s[i].session_id@);
        } else {
            assert(s[i].session_id@ != s[j].session_id@);
        }
    }
}

proof fn lemma_find_absent(s: Seq<SupervisorEntry>, sid: Seq<char>)
    requires
        forall|i: int| 0 <= i < s.len() ==> #[trigger] s[i].session_id@ != sid,
    ensures
        find(s, sid) is None,
{
}

pub open spec fn others_kept(a: Seq<SupervisorEntry>, b: Seq<SupervisorEntry>, sid: Seq<char>) -> bool {
    forall|k: Seq<char>| k != sid ==> #[trigger] find(b, k) == find(a, k)
}

proof fn lemma_set_entry(s: Seq<SupervisorEntry>, i: int, e: SupervisorEntry)
    requires
        keys_unique(s),
        0 <= i < s.len(),
        e.session_id@ == s[i].session_id@,
    ensures
        keys_unique(s.update(i, e)),
        find(s.update(i, e), e.session_id@) == Some(e.session@),
        others_kept(s, s.update(i, e), e.session_id@),
{
    let t = s.update(i, e);
    assert forall|a: int, b: int| 0 <= a < b < t.len() implies #[trigger] t[a].session_id@
        != #[trigger] t[b].session_id@ by {
        assert(s[a].session_id@ != s[b].session_id@);
    }
    lemma_find_at(t, i);
    assert forall|k: Seq<char>| k != e.session_id@ implies #[trigger] find(t, k) == find(s, k) by {
        if exists|j: int| #[trigger] key_at(s, k, j) {
            let j = choose|j: int| #[trigger] key_at(s, k, j);
            lemma_find_at(s, j);
            lemma_find_at(t, j);
        } else {
            assert forall|j: int| 0 <= j < t.len() implies #[trigger] t[j].session_id@ != k by {
                assert(!key_at(s, k, j));
            }
            lemma_find_absent(t, k);
        }
    }
}

proof fn lemma_push_entry(s: Seq<SupervisorEntry>, e: SupervisorEntry)
    requires
        keys_unique(s),
        find(s, e.session_id@) is None,
    ensures
        keys_unique(s.push(e)),
        find(s.push(e), e.session_id@) == Some(e.session@),
        others_kept(s, s.push(e), e.session_id@),
{
    let t = s.push(e);
    assert forall|j: int| 0 <= j < s.len() implies #[trigger] s[j].session_id@ != e.session_id@ by {
        if s[j].session_id@ == e.session_id@ {
            assert(key_at(s, e.session_id@, j));
        }
    }
    assert forall|a: int, b: int| 0 <= a < b < t.len() implies #[trigger] t[a].session_id@
        != #[trigger] t[b].session_id@ by {
        if b == s.len() {
            assert(t[a] == s[a]);
        } else {
            assert(s[a].session_id@ != s[b].session_id@);
        }
    }
    lemma_find_at(t, s.len() as int);
    assert forall|k: Seq<char>| k != e.session_id@ implies #[trigger] find(t, k) == find(s, k) by {
        if exists|j: int| #[trigger] key_at(s, k, j) {
            let j = choose|j: int| #[trigger] key_at(s, k, j);
            lemma_find_at(s, j);
            lemma_find_at(t, j);
        } else {
            assert forall|j: int| 0 <= j < t.len() implies #[trigger] t[j].session_id@ != k by {
                if j < s.len() {
                    assert(!key_at(s, k, j));
                }
            }
            lemma_find_absent(t, k);
        }
    }
}

proof fn lemma_remove_entry(s: Seq<SupervisorEntry>, i: int)
    requires
        keys_unique(s),
        0 <= i < s.len(),
    ensures
        keys_unique(s.remove(i)),
        find(s.remove(i), s[i].session_id@) is None,
        others_kept(s, s.remove(i), s[i].session_id@),
{
    let t = s.remove(i);
    let sid = s[i].session_id@;
    assert forall|a: int, b: int| 0 <= a < b < t.len() implies #[trigger] t[a].session_id@
        != #[trigger] t[b].session_id@ by {
        let oa = if a < i { a } else { a + 1 };
        let ob = if b < i { b } else { b + 1 };
        assert(t[a] == s[oa]);
        assert(t[b] == s[ob]);
    }
    assert forall|j: int| 0 <= j < t.len() implies #[trigger] t[j].session_id@ != sid by {
        let oj = if j < i { j } else { j + 1 };
        assert(t[j] == s[oj]);
        if oj < i {
            assert(s[oj].session_id@ != s[i].session_id@);
        } else {
            assert(s[i].session_id@ != s[oj].session_id@);
        }
    }
    lemma_find_absent(t, sid);
    assert forall|k: Seq<char>| k != sid implies #[trigger] find(t, k) == find(s, k) by {
        if exists|j: int| #[trigger] key_at(s, k, j) {
            let j = choose|j: int| #[trigger] key_at(s, k, j);
            assert(j != i);
            let tj = if j < i { j } else { j - 1 };
            assert(t[tj] == s[j]);
            lemma_find_at(s, j);
            lemma_find_at(t, tj);
        } else {
            assert forall|j: int| 0 <= j < t.len() implies #[trigger] t[j].session_id@ != k by {
                let oj = if j < i { j } else { j + 1 };
                assert(t[j] == s[oj]);
                assert(!key_at(s, k, oj));
            }
            lemma_find_absent(t, k);
        }
    }
}

impl PendingRequest {
    pub fn duplicate(&self) -> (r: PendingRequest)
        ensures
            r == *self,
    {
        PendingRequest {
            id: self.id.clone(),
            prompt: self.prompt.clone(),
            requested_by: self.requested_by.clone(),
            created_at_ms: self.created_at_ms,
        }
    }
}

fn dup_pending(p: &Option<PendingRequest>) -> (r: Option<PendingRequest>)
    ensures
        r == *p,
{
    match p {
        Some(v) => Some(v.duplicate()),
        None => None,
    }
}

impl SupervisorSession {
    pub fn new() -> (r: SupervisorSession)
        ensures
            r@ == default_session(),
    {
        SupervisorSession {
            project_root: None,
            pending: None,
            retry_count: 0,
            last_stop_requested_by: None,
            retries_sent: Ghost(0),
        }
    }

    pub fn duplicate(&self) -> (r: SupervisorSession)
        ensures
            r == *self,
    {
        SupervisorSession {
            project_root: owned_opt(&self.project_root),
            pending: dup_pending(&self.pending),
            retry_count: self.retry_count,
            last_stop_requested_by: owned_opt(&self.last_stop_requested_by),
            retries_sent: self.retries_sent,
        }
    }
}

impl Supervisor {
    /// Every session appears once and keeps its retry budget; each therefore
    /// has at most one outstanding request.
    pub closed spec fn wf(&self) -> bool {
        &&& keys_unique(self.entries@)
        &&& forall|i: int|
            0 <= i < self.entries@.len() ==> retry_budget_kept(#[trigger] self.entries@[i].session@)
    }

    /// The session `sid`, if the supervisor knows it.
    pub closed spec fn get(&self, sid: Seq<char>) -> Option<SessionModel> {
        find(self.entries@, sid)
    }

    /// Every session the supervisor knows keeps its retry budget: at most
    /// `AUTO_RETRY_MAX` retries are broadcast for its outstanding request.
    pub proof fn lemma_budget(&self, sid: Seq<char>)
        requires
            self.wf(),
            self.get(sid) is Some,
        ensures
            retry_budget_kept(self.get(sid)->Some_0),
    {
        let i = choose|i: int| #[trigger] key_at(self.entries@, sid, i);
        assert(key_at(self.entries@, sid, i));
        lemma_find_at(self.entries@, i);
    }

    /// Entry `i` belongs to session `sid` and holds an outstanding request.
    pub closed spec fn holds_pending(&self, sid: Seq<char>, i: int) -> bool {
        &&& 0 <= i < self.entries@.len()
        &&& self.entries@[i].session_id@ == sid
        &&& self.entries@[i].session.pending is Some
    }

    /// A session has at most one outstanding request: no two entries of the
    /// table hold one for the same session.
    pub proof fn lemma_pending_unique(&self, sid: Seq<char>, i: int, j: int)
        requires
            self.wf(),
            self.holds_pending(sid, i),
            self.holds_pending(sid, j),
        ensures
            i == j,
    {
        if i < j {
            assert(self.entries@[i].session_id@ != self.entries@[j].session_id@);
        } else if j < i {
            assert(self.entries@[j].session_id@ != self.entries@[i].session_id@);
        }
    }

    pub fn new() -> (r: Supervisor)
        ensures
            r.wf(),
            forall|k: Seq<char>| #[trigger] r.get(k) is None,
    {
        Supervisor { entries: Vec::new() }
    }

    fn position(&self, session_id: &str) -> (r: Option<usize>)
        requires
            self.wf(),
        ensures
            r is None ==> self.get(session_id@) is None,
            r is Some ==> r->Some_0 < self.entries@.len() && self.entries@[r->Some_0 as int].session_id@
                == session_id@ && self.get(session_id@) == Some(
                self.entries@[r->Some_0 as int].session@,
            ),
    {
        let mut i: usize = 0;
        while i < self.entries.len()
            invariant
                self.wf(),
                0 <= i <= self.entries@.len(),
                forall|j: int| 0 <= j < i ==> #[trigger] self.entries@[j].session_id@ != session_id@,
            decreases self.entries.len() - i,
        {
            if str_eq(self.entries[i].session_id.as_str(), session_id) {
                proof {
                    lemma_find_at(self.entries@, i as int);
                }
                return Some(i);
            }
            i = i + 1;
        }
        proof {
            lemma_find_absent(self.entries@, session_id@);
        }
        None
    }

    /// The session `session_id`, if known.
    pub fn session(&self, session_id: &str) -> (r: Option<&SupervisorSession>)
        requires
            self.wf(),
        ensures
            match r {
                Some(s) => self.get(session_id@) == Some(s@),
                None => self.get(session_id@) is None,
            },
    {
        match self.position(session_id) {
            Some(i) => Some(&self.entries[i].session),
            None => None,
        }
    }

    /// Stores `s` as the session `session_id`, adding it when new.
    fn put(&mut self, session_id: &str, s: SupervisorSession)
        requires
            old(self).wf(),
            retry_budget_kept(s@),
        ensures
            final(self).wf(),
            final(self).get(session_id@) == Some(s@),
            same_elsewhere(*old(self), *final(self), session_id@),
    {
        let ghost sv = s@;
        let e = SupervisorEntry { session_id: owned(session_id), session: s };
        assert(e.session@ == sv);
        match self.position(session_id) {
            Some(i) => {
                let ghost s0 = self.entries@;
                proof {
                    lemma_set_entry(self.entries@, i as int, e);
                }
                self.entries.set(i, e);
                proof {
                    assert forall|j: int| 0 <= j < self.entries@.len() implies retry_budget_kept(
                        #[trigger] self.entries@[j].session@,
                    ) by {
                        if j != i {
                            assert(self.entries@[j] == s0[j]);
                            assert(retry_budget_kept(s0[j].session@));
                        } else {
                            assert(self.entries@[j] == e);
                        }
                    }
                }
            },
            None => {
                let ghost s0 = self.entries@;
                proof {
                    lemma_push_entry(self.entries@, e);
                }
                self.entries.push(e);
                proof {
                    assert forall|j: int| 0 <= j < self.entries@.len() implies retry_budget_kept(
                        #[trigger] self.entries@[j].session@,
                    ) by {
                        if j < s0.len() {
                            assert(self.entries@[j] == s0[j]);
                            assert(retry_budget_kept(s0[j].session@));
                        } else {
                            assert(self.entries@[j] == e);
                        }
                    }
                }
            },
        }
    }

    /// A copy of the session `session_id`, or a new one when unknown.
    fn current(&self, session_id: &str) -> (r: SupervisorSession)
        requires
            self.wf(),
        ensures
            r@ == or_default(self.get(session_id@)),
            retry_budget_kept(r@),
    {
        match self.position(session_id) {
            Some(i) => {
                proof {
                    assert(retry_budget_kept(self.entries@[i as int].session@));
                }
                self.entries[i].session.duplicate()
            },
            None => SupervisorSession::new(),
        }
    }

    /// Makes sure the session is known and returns a copy of it.
    pub fn upsert(&mut self, session_id: &str) -> (r: SupervisorSession)
        requires
            old(self).wf(),
        ensures
            final(self).wf(),
            r@ == or_default(old(self).get(session_id@)),
            final(self).get(session_id@) == Some(r@),
            same_elsewhere(*old(self), *final(self), session_id@),
    {
        let s = self.current(session_id);
        let copy = s.duplicate();
        self.put(session_id, s);
        copy
    }

    /// Forgets the session.
    pub fn remove(&mut self, session_id: &str)
        requires
            old(self).wf(),
        ensures
            final(self).wf(),
            final(self).get(session_id@) is None,
            same_elsewhere(*old(self), *final(self), session_id@),
    {
        match self.position(session_id) {
            Some(i) => {
                let ghost s = self.entries@;
                self.entries.remove(i);
                proof {
                    lemma_remove_entry(s, i as int);
                    assert forall|j: int| 0 <= j < self.entries@.len() implies retry_budget_kept(
                        #[trigger] self.entries@[j].session@,
                    ) by {
                        let oj = if j < i { j } else { j + 1 };
                        assert(self.entries@[j] == s[oj]);
                    }
                }
            },
            None => {
                proof {
                    assert(same_elsewhere(*self, *self, session_id@));
                }
            },
        }
    }

    /// The outstanding request of the session, left in place.
    pub fn peek_pending(&self, session_id: &str) -> (r: Option<PendingRequest>)
        requires
            self.wf(),
        ensures
            pending_view(r) == match self.get(session_id@) {
                Some(s) => s.pending,
                None => None,
            },
    {
        match self.position(session_id) {
            Some(i) => dup_pending(&self.entries[i].session.pending),
            None => None,
        }
    }

    /// Takes the outstanding request of a known session away.
    pub fn take_pending(&mut self, session_id: &str) -> (r: Option<PendingRequest>)
        requires
            old(self).wf(),
        ensures
            final(self).wf(),
            match old(self).get(session_id@) {
                Some(s) => pending_view(r) == s.pending && final(self).get(session_id@) == Some(
                    SessionModel { pending: None, ..s },
                ),
                None => r is None && final(self).get(session_id@) is None,
            },
            same_elsewhere(*old(self), *final(self), session_id@),
    {
        match self.position(session_id) {
            Some(_) => {
                let mut s = self.current(session_id);
                let taken = dup_pending(&s.pending);
                s.pending = None;
                self.put(session_id, s);
                taken
            },
            None => {
                proof {
                    assert(same_elsewhere(*self, *self, session_id@));
                }
                None
            },
        }
    }

    /// Counts one more retry (the counter stops at its largest value) and
    /// returns the new count; a count within the budget is a retry that will
    /// be broadcast.
    pub fn inc_retry(&mut self, session_id: &str) -> (r: u32)
        requires
            old(self).wf(),
        ensures
            final(self).wf(),
            r == sat_inc(or_default(old(self).get(session_id@)).retry_count),
            final(self).get(session_id@) == Some(counted_retry(or_default(old(self).get(session_id@)))),
            same_elsewhere(*old(self), *final(self), session_id@),
    {
        let mut s = self.current(session_id);
        if s.retry_count < u32::MAX {
            s.retry_count = s.retry_count + 1;
        }
        if s.retry_count <= AUTO_RETRY_MAX {
            s.retries_sent = Ghost(s.retries_sent@ + 1);
        }
        let r = s.retry_count;
        self.put(session_id, s);
        r
    }

    /// Clears the retry counter.
    pub fn reset_retry(&mut self, session_id: &str)
        requires
            old(self).wf(),
        ensures
            final(self).wf(),
            final(self).get(session_id@) == Some(
                SessionModel { retry_count: 0, retries_sent: 0, ..or_default(old(self).get(session_id@)) },
            ),
            same_elsewhere(*old(self), *final(self), session_id@),
    {
        let mut s = self.current(session_id);
        s.retry_count = 0;
        s.retries_sent = Ghost(0);
        self.put(session_id, s);
    }

    /// Records the project root of the session; a blank root changes nothing
    /// but makes the session known.
    pub fn set_project_root(&mut self, session_id: &str, project_root: &str)
        requires
            old(self).wf(),
        ensures
            final(self).wf(),
            final(self).get(session_id@) == Some(
                with_root(or_default(old(self).get(session_id@)), project_root@),
            ),
            same_elsewhere(*old(self), *final(self), session_id@),
    {
        let mut s = self.current(session_id);
        if !crate::text::blank(project_root) {
            s.project_root = Some(owned(project_root));
        }
        self.put(session_id, s);
    }

    /// Records who last asked the session to stop.
    pub fn record_stop(&mut self, session_id: &str, requested_by: &str)
        requires
            old(self).wf(),
        ensures
            final(self).wf(),
            final(self).get(session_id@) == Some(
                SessionModel {
                    last_stop_requested_by: Some(requested_by@),
                    ..or_default(old(self).get(session_id@))
                },
            ),
            same_elsewhere(*old(self), *final(self), session_id@),
    {
        let mut s = self.current(session_id);
        s.last_stop_requested_by = Some(owned(requested_by));
        self.put(session_id, s);
    }

    /// Installs `pending` as the outstanding request of the session, in place
    /// of any earlier one, and records the project root.
    pub fn install_pending(&mut self, session_id: &str, project_root: &str, pending: PendingRequest)
        requires
            old(self).wf(),
        ensures
            final(self).wf(),
            final(self).get(session_id@) == Some(
                SessionModel {
                    pending: Some(pending@),
                    retries_sent: 0,
                    ..with_root(or_default(old(self).get(session_id@)), project_root@)
                },
            ),
            same_elsewhere(*old(self), *final(self), session_id@),
    {
        let mut s = self.current(session_id);
        if !crate::text::blank(project_root) {
            s.project_root = Some(owned(project_root));
        }
        s.pending = Some(pending);
        s.retries_sent = Ghost(0);
        self.put(session_id, s);
    }

    /// Installs a request for `prompt` under a fresh id, stamped now, and
    /// returns the id.
    pub fn set_pending_request(
        &mut self,
        session_id: &str,
        project_root: &str,
        requested_by: &str,
        prompt: &str,
    ) -> (r: String)
        requires
            old(self).wf(),
        ensures
            final(self).wf(),
            r@.len() == 36,
            exists|created_at_ms: u64|
                #[trigger] installed(
                    old(self).get(session_id@),
                    project_root@,
                    r@,
                    prompt@,
                    requested_by@,
                    created_at_ms,
                ) == final(self).get(session_id@),
            same_elsewhere(*old(self), *final(self), session_id@),
    {
        let request_id = crate::clock::new_uuid();
        let pending = PendingRequest {
            id: request_id.clone(),
            prompt: owned(prompt),
            requested_by: owned(requested_by),
            created_at_ms: crate::clock::now_ms(),
        };
        let ghost t = pending.created_at_ms;
        self.install_pending(session_id, project_root, pending);
        assert(installed(old(self).get(session_id@), project_root@, request_id@, prompt@, requested_by@, t)
            == self.get(session_id@));
        request_id
    }
}

/// The session after a request is installed over `prev`: the project root
/// recorded unless blank, the request in place of any earlier one, and no
/// retries broadcast for it yet.
pub open spec fn installed(
    prev: Option<SessionModel>,
    project_root: Seq<char>,
    id: Seq<char>,
    prompt: Seq<char>,
    requested_by: Seq<char>,
    created_at_ms: u64,
) -> Option<SessionModel> {
    Some(
        SessionModel {
            pending: Some(PendingModel { id, prompt, requested_by, created_at_ms }),
            retries_sent: 0,
            ..with_root(or_default(prev), project_root)
        },
    )
}

/// `b` knows every session but `sid` as `a` does.
pub open spec fn same_elsewhere(a: Supervisor, b: Supervisor, sid: Seq<char>) -> bool {
    forall|k: Seq<char>| k != sid ==> #[trigger] b.get(k) == a.get(k)
}

/// `s` after one more crash-like exit: the counter goes up, and a retry is
/// counted when the new count is within the budget.
pub open spec fn counted_retry(s: SessionModel) -> SessionModel {
    let c = sat_inc(s.retry_count);
    SessionModel {
        retry_count: c,
        retries_sent: if c <= AUTO_RETRY_MAX {
            s.retries_sent + 1
        } else {
            s.retries_sent
        },
        ..s
    }
}

pub open spec fn sat_inc(n: u32) -> u32 {
    if n < u32::MAX {
        (n + 1) as u32
    } else {
        n
    }
}

/// `s` with its project root set to `root` unless `root` is blank.
pub open spec fn with_root(s: SessionModel, root: Seq<char>) -> SessionModel {
    if crate::text::is_blank(root) {
        s
    } else {
        SessionModel { project_root: Some(root), ..s }
    }
}

} // verus!
