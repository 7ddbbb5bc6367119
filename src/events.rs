//! The event bus's bookkeeping: every published event gets the next sequence
//! number and enters a bounded history that queries read in publish order.
//! Fan-out to live subscribers is the owning process's part.
use vstd::prelude::*;

use crate::text::{owned_opt, str_eq};

verus! {

/// Events kept for queries.
pub const HISTORY_CAPACITY: usize = 1000;

/// Results a query returns when it names no limit.
pub const DEFAULT_QUERY_LIMIT: usize = 100;

/// Most results a query returns.
pub const MAX_QUERY_LIMIT: usize = 500;

/// Who produced an event.
#[derive(Clone, Copy, Debug, PartialEq, Eq, Structural)]
pub enum AgentSource {
    Claude,
    Codex,
    System,
    Viewer,
}

impl Default for AgentSource {
    fn default() -> (r: Self)
        ensures
            r == AgentSource::System,
    {
        AgentSource::System
    }
}

/// What happened. JSON payloads travel as their text.
pub enum AgentEventType {
    Started { pid: Option<u32>, project_root: Option<String> },
    Stream { text: String, channel: Option<String>, partial: Option<bool> },
    ToolRequest { tool_name: String, arguments: Option<String>, requires_approval: Option<bool> },
    ToolResult { tool_name: String, success: bool, result: Option<String>, duration_ms: Option<u64> },
    Completed { success: bool, exit_code: Option<i32>, duration_ms: Option<u64> },
    Error { message: String, error_type: Option<String>, recoverable: Option<bool> },
    Heartbeat { last_activity: Option<String> },
}

/// A published event.
pub struct AgentEvent {
    pub id: String,
    pub ts: String,
    pub event_type: AgentEventType,
    pub source: AgentSource,
    pub session_id: String,
    pub run_id: String,
    pub seq: u64,
}

/// A history query; every filter that is set must match.
pub struct EventQuery {
    pub session_id: Option<String>,
    pub run_id: Option<String>,
    /// Only events after this sequence number.
    pub after_seq: Option<u64>,
    pub limit: Option<usize>,
    pub types: Option<Vec<String>>,
}

/// The flat form of an event that older consumers read.
pub enum SimpleAgentEvent {
    Started { session_id: String, source: AgentSource },
    Stream { session_id: String, source: AgentSource, text: String },
    ToolRequest { session_id: String, source: AgentSource, tool_name: String },
    ToolResult { session_id: String, source: AgentSource, success: bool },
    Completed { session_id: String, source: AgentSource, success: bool },
    Error { session_id: String, source: AgentSource, message: String },
}

/// The wire name of an event's type.
pub open spec fn wire_type_name(t: AgentEventType) -> Seq<char> {
    match t {
        AgentEventType::Started { .. } => "agent.started"@,
        AgentEventType::Stream { .. } => "agent.stream"@,
        AgentEventType::ToolRequest { .. } => "agent.tool.request"@,
        AgentEventType::ToolResult { .. } => "agent.tool.result"@,
        AgentEventType::Completed { .. } => "agent.completed"@,
        AgentEventType::Error { .. } => "agent.error"@,
        AgentEventType::Heartbeat { .. } => "agent.heartbeat"@,
    }
}

/// `n` in decimal, most significant digit first.
pub open spec fn decimal(n: nat) -> Seq<char>
    decreases n,
{
    if n < 10 {
        seq![(n + 48) as char]
    } else {
        decimal(n / 10).push(((n % 10) + 48) as char)
    }
}

/// `d` left-padded with zeros to `width` characters.
pub open spec fn zero_pad(d: Seq<char>, width: nat) -> Seq<char> {
    if d.len() >= width {
        d
    } else {
        Seq::new((width - d.len()) as nat, |i: int| '0') + d
    }
}

/// The id of the event with sequence number `seq`.
pub open spec fn event_id(seq: u64) -> Seq<char> {
    "evt_"@ + zero_pad(decimal(seq as nat), 12)
}

fn digit_text(d: u64) -> (r: &'static str)
    requires
        d < 10,
    ensures
        r@ == seq![(d + 48) as char],
{
    proof {
        reveal_strlit("0");
        reveal_strlit("1");
        reveal_strlit("2");
        reveal_strlit("3");
        reveal_strlit("4");
        reveal_strlit("5");
        reveal_strlit("6");
        reveal_strlit("7");
        reveal_strlit("8");
        reveal_strlit("9");
    }
    if d == 0 {
        "0"
    } else if d == 1 {
        "1"
    } else if d == 2 {
        "2"
    } else if d == 3 {
        "3"
    } else if d == 4 {
        "4"
    } else if d == 5 {
        "5"
    } else if d == 6 {
        "6"
    } else if d == 7 {
        "7"
    } else if d == 8 {
        "8"
    } else {
        "9"
    }
}

/// Appends the decimal digits of `n`.
pub(crate) fn push_decimal(out: &mut String, n: u64)
    ensures
        final(out)@ == old(out)@ + decimal(n as nat),
    decreases n,
{
    if n >= 10 {
        push_decimal(out, n / 10);
    }
    out.append(digit_text(n % 10));
    proof {
        if n >= 10 {
            assert(decimal(n as nat) == decimal((n / 10) as nat).push(((n % 10) + 48) as char));
        }
    }
}

/// The number of decimal digits of `n`.
fn decimal_len(n: u64) -> (r: u64)
    ensures
        r == decimal(n as nat).len(),
        r <= n as int + 1,
    decreases n,
{
    if n >= 10 {
        decimal_len(n / 10) + 1
    } else {
        1
    }
}

/// The id of the event numbered `seq`: `evt_` and the number in decimal,
/// zero-padded to twelve places.
fn format_event_id(seq: u64) -> (r: String)
    ensures
        r@ == event_id(seq),
{
    let mut out = String::from_str("evt_");
    proof {
        reveal_strlit("evt_");
        reveal_strlit("0");
    }
    let len = decimal_len(seq);
    let mut k: u64 = len;
    let ghost start = out@;
    while k < 12
        invariant
            len == decimal(seq as nat).len(),
            len <= k <= 12 || (len > 12 && k == len),
            out@ == start + Seq::new((k - len) as nat, |i: int| '0'),
        decreases 12 - k,
    {
        out.append("0");
        k = k + 1;
        proof {
            reveal_strlit("0");
            assert(out@ =~= start + Seq::new((k - len) as nat, |i: int| '0'));
        }
    }
    push_decimal(&mut out, seq);
    proof {
        let d = decimal(seq as nat);
        if d.len() >= 12 {
            assert(Seq::new((k - len) as nat, |i: int| '0') =~= Seq::<char>::empty());
            assert(out@ =~= "evt_"@ + d);
        } else {
            assert(k == 12);
            assert(out@ =~= "evt_"@ + (Seq::new((12 - d.len()) as nat, |i: int| '0') + d));
        }
    }
    out
}

pub open spec fn opt_matches(filter: Option<String>, value: String) -> bool {
    match filter {
        Some(f) => f@ == value@,
        None => true,
    }
}

pub open spec fn listed(ts: Seq<String>, name: Seq<char>) -> bool {
    exists|i: int| 0 <= i < ts.len() && (#[trigger] ts[i])@ == name
}

pub open spec fn type_allowed(types: Option<Vec<String>>, t: AgentEventType) -> bool {
    match types {
        Some(ts) => listed(ts@, wire_type_name(t)),
        None => true,
    }
}

/// Whether event `e` passes the filters of `q`.
pub open spec fn event_matches(q: EventQuery, e: AgentEvent) -> bool {
    &&& opt_matches(q.session_id, e.session_id)
    &&& opt_matches(q.run_id, e.run_id)
    &&& match q.after_seq {
        Some(a) => e.seq > a,
        None => true,
    }
    &&& type_allowed(q.types, e.event_type)
}

/// The number of results a query asks for, after the default and the cap.
pub open spec fn query_limit(q: EventQuery) -> nat {
    let l = match q.limit {
        Some(l) => l as nat,
        None => DEFAULT_QUERY_LIMIT as nat,
    };
    if l > MAX_QUERY_LIMIT {
        MAX_QUERY_LIMIT as nat
    } else {
        l
    }
}

/// The first `n` elements of `s`, or all of it when shorter.
pub open spec fn first_n<T>(s: Seq<T>, n: nat) -> Seq<T> {
    if s.len() <= n {
        s
    } else {
        s.take(n as int)
    }
}

pub open spec fn matching(h: Seq<AgentEvent>, q: EventQuery) -> Seq<AgentEvent> {
    h.filter(|e: AgentEvent| event_matches(q, e))
}

/// The events of `h` carry consecutive sequence numbers ending at `last`:
/// `h` is the latest stretch of the publish order, without gaps.
pub open spec fn numbered(h: Seq<AgentEvent>, last: u64) -> bool {
    &&& h.len() <= last
    &&& forall|i: int| 0 <= i < h.len() ==> (#[trigger] h[i]).seq == last - (h.len() - 1 - i)
}

impl AgentEventType {
    pub fn duplicate(&self) -> (r: AgentEventType)
        ensures
            r == *self,
    {
        match self {
            AgentEventType::Started { pid, project_root } => AgentEventType::Started {
                pid: *pid,
                project_root: owned_opt(project_root),
            },
            AgentEventType::Stream { text, channel, partial } => AgentEventType::Stream {
                text: text.clone(),
                channel: owned_opt(channel),
                partial: *partial,
            },
            AgentEventType::ToolRequest { tool_name, arguments, requires_approval } => {
                AgentEventType::ToolRequest {
                    tool_name: tool_name.clone(),
                    arguments: owned_opt(arguments),
                    requires_approval: *requires_approval,
                }
            },
            AgentEventType::ToolResult { tool_name, success, result, duration_ms } => {
                AgentEventType::ToolResult {
                    tool_name: tool_name.clone(),
                    success: *success,
                    result: owned_opt(result),
                    duration_ms: *duration_ms,
                }
            },
            AgentEventType::Completed { success, exit_code, duration_ms } => AgentEventType::Completed {
                success: *success,
                exit_code: *exit_code,
                duration_ms: *duration_ms,
            },
            AgentEventType::Error { message, error_type, recoverable } => AgentEventType::Error {
                message: message.clone(),
                error_type: owned_opt(error_type),
                recoverable: *recoverable,
            },
            AgentEventType::Heartbeat { last_activity } => AgentEventType::Heartbeat {
                last_activity: owned_opt(last_activity),
            },
        }
    }

    /// The wire name of this type.
    pub fn name(&self) -> (r: String)
        ensures
            r@ == wire_type_name(*self),
    {
        match self {
            AgentEventType::Started { .. } => String::from_str("agent.started"),
            AgentEventType::Stream { .. } => String::from_str("agent.stream"),
            AgentEventType::ToolRequest { .. } => String::from_str("agent.tool.request"),
            AgentEventType::ToolResult { .. } => String::from_str("agent.tool.result"),
            AgentEventType::Completed { .. } => String::from_str("agent.completed"),
            AgentEventType::Error { .. } => String::from_str("agent.error"),
            AgentEventType::Heartbeat { .. } => String::from_str("agent.heartbeat"),
        }
    }
}

impl AgentEvent {
    pub fn duplicate(&self) -> (r: AgentEvent)
        ensures
            r == *self,
    {
        AgentEvent {
            id: self.id.clone(),
            ts: self.ts.clone(),
            event_type: self.event_type.duplicate(),
            source: self.source,
            session_id: self.session_id.clone(),
            run_id: self.run_id.clone(),
            seq: self.seq,
        }
    }
}

impl SimpleAgentEvent {
    /// The flat form of `event`; a heartbeat reads as a start.
    pub fn from_event(event: &AgentEvent) -> (r: SimpleAgentEvent)
        ensures
            simple_of(r, *event),
    {
        let source = event.source;
        let session_id = event.session_id.clone();
        match &event.event_type {
            AgentEventType::Started { .. } => SimpleAgentEvent::Started { session_id, source },
            AgentEventType::Stream { text, .. } => SimpleAgentEvent::Stream {
                session_id,
                source,
                text: text.clone(),
            },
            AgentEventType::ToolRequest { tool_name, .. } => SimpleAgentEvent::ToolRequest {
                session_id,
                source,
                tool_name: tool_name.clone(),
            },
            AgentEventType::ToolResult { success, .. } => SimpleAgentEvent::ToolResult {
                session_id,
                source,
                success: *success,
            },
            AgentEventType::Completed { success, .. } => SimpleAgentEvent::Completed {
                session_id,
                source,
                success: *success,
            },
            AgentEventType::Error { message, .. } => SimpleAgentEvent::Error {
                session_id,
                source,
                message: message.clone(),
            },
            AgentEventType::Heartbeat { .. } => SimpleAgentEvent::Started { session_id, source },
        }
    }
}

/// `s` is the flat form of `e`.
pub open spec fn simple_of(s: SimpleAgentEvent, e: AgentEvent) -> bool {
    let src = e.source;
    match e.event_type {
        AgentEventType::Started { .. } | AgentEventType::Heartbeat { .. } => s matches SimpleAgentEvent::Started {
            session_id,
            source,
        } && session_id == e.session_id && source == src,
        AgentEventType::Stream { text, .. } => s matches SimpleAgentEvent::Stream {
            session_id,
            source,
            text: t,
        } && session_id == e.session_id && source == src && t == text,
        AgentEventType::ToolRequest { tool_name, .. } => s matches SimpleAgentEvent::ToolRequest {
            session_id,
            source,
            tool_name: n,
        } && session_id == e.session_id && source == src && n == tool_name,
        AgentEventType::ToolResult { success, .. } => s matches SimpleAgentEvent::ToolResult {
            session_id,
            source,
            success: ok,
        } && session_id == e.session_id && source == src && ok == success,
        AgentEventType::Completed { success, .. } => s matches SimpleAgentEvent::Completed {
            session_id,
            source,
            success: ok,
        } && session_id == e.session_id && source == src && ok == success,
        AgentEventType::Error { message, .. } => s matches SimpleAgentEvent::Error {
            session_id,
            source,
            message: m,
        } && session_id == e.session_id && source == src && m == message,
    }
}

/// The bus's history and sequence counter.
pub struct EventDispatcher {
    history: Vec<AgentEvent>,
    seq_counter: u64,
}

impl EventDispatcher {
    pub closed spec fn history_view(&self) -> Seq<AgentEvent> {
        self.history@
    }

    pub closed spec fn last(&self) -> u64 {
        self.seq_counter
    }

    /// The history never exceeds its capacity.
    pub open spec fn wf(&self) -> bool {
        self.history_view().len() <= HISTORY_CAPACITY
    }

    pub fn new() -> (r: EventDispatcher)
        ensures
            r.wf(),
            r.history_view().len() == 0,
            r.last() == 0,
            numbered(r.history_view(), r.last()),
    {
        EventDispatcher { history: Vec::new(), seq_counter: 0 }
    }

    fn next_seq(&mut self) -> (r: u64)
        requires
            old(self).last() < u64::MAX,
        ensures
            r == old(self).last() + 1,
            final(self).last() == r,
            final(self).history_view() == old(self).history_view(),
    {
        self.seq_counter = self.seq_counter + 1;
        self.seq_counter
    }

    fn generate_id(&self, seq: u64) -> (r: String)
        ensures
            r@ == event_id(seq),
    {
        format_event_id(seq)
    }

    /// Adds `event` to the history, dropping the oldest event when full.
    pub fn publish(&mut self, event: AgentEvent)
        requires
            old(self).wf(),
        ensures
            final(self).wf(),
            final(self).last() == old(self).last(),
            final(self).history_view() == if old(self).history_view().len() >= HISTORY_CAPACITY {
                old(self).history_view().drop_first().push(event)
            } else {
                old(self).history_view().push(event)
            },
    {
        if self.history.len() >= HISTORY_CAPACITY {
            self.history.remove(0);
            proof {
                assert(self.history@ =~= old(self).history@.drop_first());
            }
        }
        self.history.push(event);
    }

    /// Publishes an event of the given kind under the next sequence number
    /// and its id, stamped `ts`, and returns it.
    pub fn publish_at(
        &mut self,
        event_type: AgentEventType,
        source: AgentSource,
        session_id: String,
        run_id: String,
        ts: String,
    ) -> (r: AgentEvent)
        requires
            old(self).wf(),
            old(self).last() < u64::MAX,
        ensures
            final(self).wf(),
            r.seq == old(self).last() + 1,
            final(self).last() == r.seq,
            r.id@ == event_id(r.seq),
            r.ts == ts,
            r.event_type == event_type,
            r.source == source,
            r.session_id == session_id,
            r.run_id == run_id,
            final(self).history_view() == if old(self).history_view().len() >= HISTORY_CAPACITY {
                old(self).history_view().drop_first().push(r)
            } else {
                old(self).history_view().push(r)
            },
            numbered(old(self).history_view(), old(self).last()) ==> numbered(
                final(self).history_view(),
                final(self).last(),
            ),
    {
        let seq = self.next_seq();
        let event = AgentEvent {
            id: self.generate_id(seq),
            ts,
            event_type,
            source,
            session_id,
            run_id,
            seq,
        };
        let copy = event.duplicate();
        let ghost h0 = self.history@;
        self.publish(copy);
        proof {
            let h = self.history@;
            if numbered(h0, (seq - 1) as u64) {
                assert forall|i: int| 0 <= i < h.len() implies (#[trigger] h[i]).seq == seq - (h.len() - 1 - i) by {
                    if i < h.len() - 1 {
                        if h0.len() >= HISTORY_CAPACITY {
                            assert(h[i] == h0[i + 1]);
                        } else {
                            assert(h[i] == h0[i]);
                        }
                    }
                }
            }
        }
        event
    }

    /// `publish_at`, stamped with the current time.
    pub fn publish_raw(
        &mut self,
        event_type: AgentEventType,
        source: AgentSource,
        session_id: String,
        run_id: String,
    ) -> (r: AgentEvent)
        requires
            old(self).wf(),
            old(self).last() < u64::MAX,
        ensures
            final(self).wf(),
            r.seq == old(self).last() + 1,
            final(self).last() == r.seq,
            r.id@ == event_id(r.seq),
            r.event_type == event_type,
            r.source == source,
            r.session_id == session_id,
            r.run_id == run_id,
            final(self).history_view().last() == r,
            numbered(old(self).history_view(), old(self).last()) ==> numbered(
                final(self).history_view(),
                final(self).last(),
            ),
    {
        let ts = crate::clock::now_rfc3339();
        self.publish_at(event_type, source, session_id, run_id, ts)
    }

    /// The last sequence number handed out.
    pub fn last_seq(&self) -> (r: u64)
        ensures
            r == self.last(),
    {
        self.seq_counter
    }

    /// Forgets the history; numbering goes on.
    pub fn clear_history(&mut self)
        ensures
            final(self).wf(),
            final(self).history_view().len() == 0,
            final(self).last() == old(self).last(),
            numbered(final(self).history_view(), final(self).last()),
    {
        self.history = Vec::new();
    }

    /// The events of the history that match `q`, oldest first, at most the
    /// query's limit.
    pub fn query(&self, q: &EventQuery) -> (r: Vec<AgentEvent>)
        ensures
            r@ == first_n(matching(self.history_view(), *q), query_limit(*q)),
    {
        let limit = match q.limit {
            Some(l) => if l > MAX_QUERY_LIMIT {
                MAX_QUERY_LIMIT
            } else {
                l
            },
            None => DEFAULT_QUERY_LIMIT,
        };
        let mut out: Vec<AgentEvent> = Vec::new();
        let mut i: usize = 0;
        while i < self.history.len()
            invariant
                0 <= i <= self.history@.len(),
                limit == query_limit(*q),
                out@ == first_n(matching(self.history@.take(i as int), *q), limit as nat),
            decreases self.history@.len() - i,
        {
            let e = &self.history[i];
            let ok = matches_query(q, e);
            proof {
                let h = self.history@;
                assert(h.take(i + 1) =~= h.take(i as int).push(h[i as int]));
                reveal(Seq::filter);
                assert(h.take(i + 1).drop_last() =~= h.take(i as int));
            }
            if ok && out.len() < limit {
                out.push(e.duplicate());
            } else {
                proof {
                    let m = matching(self.history@.take(i as int), *q);
                    let m2 = matching(self.history@.take(i + 1), *q);
                    if ok {
                        assert(m2 =~= m.push(*e));
                        assert(m2.take(limit as int) =~= m.take(limit as int));
                    }
                }
            }
            i = i + 1;
        }
        proof {
            assert(self.history@.take(self.history@.len() as int) =~= self.history@);
        }
        out
    }
}

fn opt_filter_ok(filter: &Option<String>, value: &String) -> (r: bool)
    ensures
        r == opt_matches(*filter, *value),
{
    match filter {
        Some(f) => str_eq(f.as_str(), value.as_str()),
        None => true,
    }
}

fn type_ok(types: &Option<Vec<String>>, t: &AgentEventType) -> (r: bool)
    ensures
        r == type_allowed(*types, *t),
{
    match types {
        None => true,
        Some(ts) => {
            let name = t.name();
            let mut i: usize = 0;
            while i < ts.len()
                invariant
                    0 <= i <= ts@.len(),
                    *types == Some(*ts),
                    name@ == wire_type_name(*t),
                    forall|j: int| 0 <= j < i ==> (#[trigger] ts@[j])@ != wire_type_name(*t),
                decreases ts@.len() - i,
            {
                if str_eq(ts[i].as_str(), name.as_str()) {
                    proof {
                        assert((ts@[i as int])@ == wire_type_name(*t));
                        assert(listed(ts@, wire_type_name(*t)));
                    }
                    return true;
                }
                i = i + 1;
            }
            false
        },
    }
}

/// Events published through `publish_at` are numbered in publish order
/// without gaps, so the history (and any stretch of it that a subscriber
/// receives in order) is a contiguous run of the publish order: each event
/// after the first carries the number after its predecessor's.
pub proof fn lemma_history_contiguous(h: Seq<AgentEvent>, last: u64, i: int)
    requires
        numbered(h, last),
        0 < i < h.len(),
    ensures
        h[i].seq == h[i - 1].seq + 1,
{
}

/// Whether event `e` passes the filters of `q`.
pub fn matches_query(q: &EventQuery, e: &AgentEvent) -> (r: bool)
    ensures
        r == event_matches(*q, *e),
{
    if !opt_filter_ok(&q.session_id, &e.session_id) {
        return false;
    }
    if !opt_filter_ok(&q.run_id, &e.run_id) {
        return false;
    }
    match q.after_seq {
        Some(a) => {
            if e.seq <= a {
                return false;
            }
        },
        None => {},
    }
    type_ok(&q.types, &e.event_type)
}

pub open spec fn text_view(o: Option<String>) -> Option<Seq<char>> {
    match o {
        Some(s) => Some(s@),
        None => None,
    }
}

pub open spec fn or_empty(o: Option<Seq<char>>) -> Seq<char> {
    match o {
        Some(s) => s,
        None => Seq::empty(),
    }
}

/// The session and run ids of an ingress payload: each falls back on the
/// other, and on `unknown` when both are missing or empty.
pub open spec fn normalized_ids(session_id: Option<Seq<char>>, run_id: Option<Seq<char>>) -> (Seq<char>, Seq<char>) {
    let s = or_empty(session_id);
    let r = or_empty(run_id);
    let sid = if s.len() == 0 {
        r
    } else {
        s
    };
    let rid = if r.len() == 0 {
        sid
    } else {
        r
    };
    let sid2 = if sid.len() == 0 {
        "unknown"@
    } else {
        sid
    };
    let rid2 = if rid.len() == 0 {
        sid2
    } else {
        rid
    };
    (sid2, rid2)
}

fn text_or_empty(o: &Option<String>) -> (r: String)
    ensures
        r@ == or_empty(text_view(*o)),
{
    match o {
        Some(s) => s.clone(),
        None => String::new(),
    }
}

/// The session and run ids of an ingress payload (see `normalized_ids`).
pub fn normalize_agent_ids(session_id: &Option<String>, run_id: &Option<String>) -> (r: (String, String))
    ensures
        (r.0@, r.1@) == normalized_ids(text_view(*session_id), text_view(*run_id)),
{
    let s = text_or_empty(session_id);
    let r = text_or_empty(run_id);
    let sid = if s.unicode_len() == 0 {
        r.clone()
    } else {
        s
    };
    let rid = if r.unicode_len() == 0 {
        sid.clone()
    } else {
        r
    };
    let sid2 = if sid.unicode_len() == 0 {
        proof {
            reveal_strlit("unknown");
        }
        String::from_str("unknown")
    } else {
        sid
    };
    let rid2 = if rid.unicode_len() == 0 {
        sid2.clone()
    } else {
        rid
    };
    (sid2, rid2)
}

/// The fields of an ingress payload that the bus reads.
pub struct IngressFields {
    pub pid: Option<u64>,
    pub project_root: Option<String>,
    pub text: Option<String>,
    pub stream: Option<String>,
    pub success: Option<bool>,
    pub exit_code: Option<i64>,
    pub duration_ms: Option<u64>,
    pub message: Option<String>,
    pub error_type: Option<String>,
}

/// `r` is the bus event for an ingress payload of type `t` with fields `f`:
/// `codex.started`, `codex.stream`, `codex.completed`, `codex.error` and
/// `codex.user_input` each map to their typed event (input typed by the user
/// is a stream on the `user_input` channel from the viewer); other types map
/// to none.
pub open spec fn bus_event_of(t: Seq<char>, f: IngressFields, r: Option<(AgentEventType, AgentSource)>) -> bool {
    if t == "codex.started"@ {
        r matches Some((AgentEventType::Started { pid, project_root }, src)) && src == AgentSource::Codex
            && pid == (match f.pid {
            Some(p) => Some(p as u32),
            None => None,
        }) && text_view(project_root) == text_view(f.project_root)
    } else if t == "codex.stream"@ {
        r matches Some((AgentEventType::Stream { text, channel, partial }, src)) && src == AgentSource::Codex
            && text@ == or_empty(text_view(f.text)) && text_view(channel) == text_view(f.stream)
            && partial is None
    } else if t == "codex.completed"@ {
        r matches Some((AgentEventType::Completed { success, exit_code, duration_ms }, src)) && src
            == AgentSource::Codex && success == (f.success == Some(true)) && exit_code == (match f.exit_code {
            Some(c) => Some(c as i32),
            None => None,
        }) && duration_ms == f.duration_ms
    } else if t == "codex.error"@ {
        r matches Some((AgentEventType::Error { message, error_type, recoverable }, src)) && src
            == AgentSource::Codex && message@ == (match text_view(f.message) {
            Some(m) => m,
            None => "unknown error"@,
        }) && text_view(error_type) == text_view(f.error_type) && recoverable is None
    } else if t == "codex.user_input"@ {
        r matches Some((AgentEventType::Stream { text, channel, partial }, src)) && src == AgentSource::Viewer
            && text@ == or_empty(text_view(f.text)) && text_view(channel) == Some("user_input"@)
            && partial is None
    } else {
        r is None
    }
}

fn opt_clone(o: &Option<String>) -> (r: Option<String>)
    ensures
        text_view(r) == text_view(*o),
{
    match o {
        Some(s) => Some(s.clone()),
        None => None,
    }
}

/// The typed bus event of an ingress payload of type `event_type`, if the
/// bus takes that type (see `bus_event_of`).
pub fn agent_event_from_ingest(event_type: &str, f: &IngressFields) -> (r: Option<(AgentEventType, AgentSource)>)
    ensures
        bus_event_of(event_type@, *f, r),
{
    proof {
        reveal_strlit("user_input");
        reveal_strlit("unknown error");
    }
    if str_eq(event_type, "codex.started") {
        let pid = match f.pid {
            Some(p) => Some(p as u32),
            None => None,
        };
        Some((AgentEventType::Started { pid, project_root: opt_clone(&f.project_root) }, AgentSource::Codex))
    } else if str_eq(event_type, "codex.stream") {
        Some(
            (
                AgentEventType::Stream {
                    text: text_or_empty(&f.text),
                    channel: opt_clone(&f.stream),
                    partial: None,
                },
                AgentSource::Codex,
            ),
        )
    } else if str_eq(event_type, "codex.completed") {
        let exit_code = match f.exit_code {
            Some(c) => Some(c as i32),
            None => None,
        };
        let success = match f.success {
            Some(b) => b,
            None => false,
        };
        Some(
            (
                AgentEventType::Completed { success, exit_code, duration_ms: f.duration_ms },
                AgentSource::Codex,
            ),
        )
    } else if str_eq(event_type, "codex.error") {
        let message = match &f.message {
            Some(m) => m.clone(),
            None => String::from_str("unknown error"),
        };
        Some(
            (
                AgentEventType::Error { message, error_type: opt_clone(&f.error_type), recoverable: None },
                AgentSource::Codex,
            ),
        )
    } else if str_eq(event_type, "codex.user_input") {
        Some(
            (
                AgentEventType::Stream {
                    text: text_or_empty(&f.text),
                    channel: Some(String::from_str("user_input")),
                    partial: None,
                },
                AgentSource::Viewer,
            ),
        )
    } else {
        None
    }
}

/// The SSE event name under which a bus event is sent.
pub open spec fn sse_name(t: AgentEventType) -> Seq<char> {
    match t {
        AgentEventType::Started { .. } => "agent:started"@,
        AgentEventType::Stream { .. } => "agent:stream"@,
        AgentEventType::ToolRequest { .. } => "agent:tool_request"@,
        AgentEventType::ToolResult { .. } => "agent:tool_result"@,
        AgentEventType::Completed { .. } => "agent:completed"@,
        AgentEventType::Error { .. } => "agent:error"@,
        AgentEventType::Heartbeat { .. } => "agent:heartbeat"@,
    }
}

pub fn agent_event_name(t: &AgentEventType) -> (r: String)
    ensures
        r@ == sse_name(*t),
{
    match t {
        AgentEventType::Started { .. } => String::from_str("agent:started"),
        AgentEventType::Stream { .. } => String::from_str("agent:stream"),
        AgentEventType::ToolRequest { .. } => String::from_str("agent:tool_request"),
        AgentEventType::ToolResult { .. } => String::from_str("agent:tool_result"),
        AgentEventType::Completed { .. } => String::from_str("agent:completed"),
        AgentEventType::Error { .. } => String::from_str("agent:error"),
        AgentEventType::Heartbeat { .. } => String::from_str("agent:heartbeat"),
    }
}

} // verus!
