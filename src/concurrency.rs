//! Admission control for agent runs: per-class limits, a shared global cap and
//! a FIFO wait queue. Tickets are plain values; the process that owns the
//! controller delivers a ticket admitted from the queue to its waiter.
use vstd::prelude::*;

use crate::clock::now_rfc3339;

verus! {

/// Default hard cap on agent runs of all classes together.
pub const TOTAL_CONCURRENCY_LIMIT: u8 = 6;

/// The two classes of agent run.
#[derive(Clone, Copy, Debug, PartialEq, Eq, Structural)]
pub enum TaskType {
    CC,
    CX,
}

/// A task waiting for a slot.
#[derive(Clone, Debug)]
pub struct PendingTask {
    pub id: u64,
    pub task_type: TaskType,
    pub description: String,
    pub project_path: String,
    pub queued_at: String,
}

/// Proof that the holder owns an admitted slot of `task_type`.
#[derive(Debug)]
pub struct TaskHandle {
    task_id: u64,
    task_type: TaskType,
}

/// A queued task as reported by `status`.
#[derive(Clone, Debug)]
pub struct QueuedTaskInfo {
    pub id: u64,
    pub task_type: String,
    pub description: String,
    pub project_path: String,
    pub queued_at: String,
    pub position: usize,
}

/// A snapshot of the controller.
#[derive(Clone, Debug)]
pub struct ConcurrencyStatus {
    pub cc_running: u8,
    pub cx_running: u8,
    pub cc_max: u8,
    pub cx_max: u8,
    pub cc_queued: usize,
    pub cx_queued: usize,
    pub total_running: u8,
    pub total_max: u8,
    pub queue: Vec<QueuedTaskInfo>,
}

impl TaskHandle {
    pub closed spec fn id(&self) -> u64 {
        self.task_id
    }

    pub closed spec fn kind(&self) -> TaskType {
        self.task_type
    }

    pub fn task_id(&self) -> (r: u64)
        ensures
            r == self.id(),
    {
        self.task_id
    }

    pub fn task_type(&self) -> (r: TaskType)
        ensures
            r == self.kind(),
    {
        self.task_type
    }
}

/// Name of a task class as shown to the user.
pub open spec fn task_type_label(t: TaskType) -> Seq<char> {
    match t {
        TaskType::CC => seq!['C', 'C'],
        TaskType::CX => seq!['C', 'X'],
    }
}

/// The class that is not `t`.
pub open spec fn other(t: TaskType) -> TaskType {
    match t {
        TaskType::CC => TaskType::CX,
        TaskType::CX => TaskType::CC,
    }
}

/// Number of tasks of class `t` in `q`.
pub open spec fn count_class(q: Seq<PendingTask>, t: TaskType) -> nat
    decreases q.len(),
{
    if q.len() == 0 {
        0
    } else {
        count_class(q.drop_last(), t) + if q.last().task_type == t {
            1nat
        } else {
            0nat
        }
    }
}

pub struct ConcurrencyController {
    cc_running: u8,
    cx_running: u8,
    cc_max: u8,
    cx_max: u8,
    total_max: u8,
    task_id_counter: u64,
    queue: Vec<PendingTask>,
    /// Slots of each class handed out and given back since creation.
    cc_admitted: Ghost<nat>,
    cc_released: Ghost<nat>,
    cx_admitted: Ghost<nat>,
    cx_released: Ghost<nat>,
}

impl ConcurrencyController {
    pub closed spec fn running(&self, t: TaskType) -> nat {
        match t {
            TaskType::CC => self.cc_running as nat,
            TaskType::CX => self.cx_running as nat,
        }
    }

    pub closed spec fn limit(&self, t: TaskType) -> nat {
        match t {
            TaskType::CC => self.cc_max as nat,
            TaskType::CX => self.cx_max as nat,
        }
    }

    pub closed spec fn global_cap(&self) -> nat {
        self.total_max as nat
    }

    pub closed spec fn admitted(&self, t: TaskType) -> nat {
        match t {
            TaskType::CC => self.cc_admitted@,
            TaskType::CX => self.cx_admitted@,
        }
    }

    pub closed spec fn released(&self, t: TaskType) -> nat {
        match t {
            TaskType::CC => self.cc_released@,
            TaskType::CX => self.cx_released@,
        }
    }

    /// The id the next task will get.
    pub closed spec fn next_id(&self) -> u64 {
        self.task_id_counter
    }

    pub closed spec fn queued(&self) -> Seq<PendingTask> {
        self.queue@
    }

    pub open spec fn total(&self) -> nat {
        self.running(TaskType::CC) + self.running(TaskType::CX)
    }

    /// Whether a task of class `t` may start now.
    pub open spec fn has_capacity(&self, t: TaskType) -> bool {
        self.running(t) < self.limit(t) && self.total() < self.global_cap()
    }

    /// Every class is within its limit and the classes together within the cap.
    pub open spec fn counters_safe(&self) -> bool {
        &&& self.running(TaskType::CC) <= self.limit(TaskType::CC)
        &&& self.running(TaskType::CX) <= self.limit(TaskType::CX)
        &&& self.total() <= self.global_cap()
    }

    /// Well-formedness: the cap is never exceeded, each counter is what was
    /// handed out minus what came back, and queued ids are increasing and
    /// below the next id.
    pub open spec fn wf(&self) -> bool {
        &&& self.total() <= self.global_cap()
        &&& self.running(TaskType::CC) == self.admitted(TaskType::CC) - self.released(TaskType::CC)
        &&& self.running(TaskType::CX) == self.admitted(TaskType::CX) - self.released(TaskType::CX)
        &&& self.released(TaskType::CC) <= self.admitted(TaskType::CC)
        &&& self.released(TaskType::CX) <= self.admitted(TaskType::CX)
        &&& forall|i: int, j: int|
            0 <= i < j < self.queued().len() ==> #[trigger] self.queued()[i].id
                < #[trigger] self.queued()[j].id
        &&& forall|i: int| 0 <= i < self.queued().len() ==> #[trigger] self.queued()[i].id < self.next_id()
    }

    /// A controller with the default global cap.
    pub fn new(cc_max: u8, cx_max: u8) -> (r: Self)
        ensures
            r.wf(),
            r.counters_safe(),
            r.limit(TaskType::CC) == cc_max,
            r.limit(TaskType::CX) == cx_max,
            r.global_cap() == TOTAL_CONCURRENCY_LIMIT,
            r.running(TaskType::CC) == 0,
            r.running(TaskType::CX) == 0,
            r.queued().len() == 0,
            r.next_id() == 0,
    {
        Self::with_global_cap(cc_max, cx_max, TOTAL_CONCURRENCY_LIMIT)
    }

    /// A controller with an explicit global cap.
    pub fn with_global_cap(cc_max: u8, cx_max: u8, total_max: u8) -> (r: Self)
        ensures
            r.wf(),
            r.counters_safe(),
            r.limit(TaskType::CC) == cc_max,
            r.limit(TaskType::CX) == cx_max,
            r.global_cap() == total_max,
            r.running(TaskType::CC) == 0,
            r.running(TaskType::CX) == 0,
            r.queued().len() == 0,
            r.next_id() == 0,
    {
        ConcurrencyController {
            cc_running: 0,
            cx_running: 0,
            cc_max,
            cx_max,
            total_max,
            task_id_counter: 0,
            queue: Vec::new(),
            cc_admitted: Ghost(0),
            cc_released: Ghost(0),
            cx_admitted: Ghost(0),
            cx_released: Ghost(0),
        }
    }

    /// Changes the per-class limits; running tasks keep their slots.
    pub fn set_limits(&mut self, cc_max: u8, cx_max: u8)
        requires
            old(self).wf(),
        ensures
            final(self).wf(),
            final(self).limit(TaskType::CC) == cc_max,
            final(self).limit(TaskType::CX) == cx_max,
            final(self).global_cap() == old(self).global_cap(),
            running_same(*old(self), *final(self)),
            admitted_same(*old(self), *final(self)),
            released_same(*old(self), *final(self)),
            final(self).queued() == old(self).queued(),
            final(self).next_id() == old(self).next_id(),
            old(self).running(TaskType::CC) <= cc_max && old(self).running(TaskType::CX) <= cx_max
                ==> final(self).counters_safe(),
    {
        self.cc_max = cc_max;
        self.cx_max = cx_max;
    }

    pub fn total_running(&self) -> (r: u8)
        requires
            self.wf(),
        ensures
            r == self.total(),
    {
        self.cc_running + self.cx_running
    }

    pub fn cc_running(&self) -> (r: u8)
        ensures
            r == self.running(TaskType::CC),
    {
        self.cc_running
    }

    pub fn cx_running(&self) -> (r: u8)
        ensures
            r == self.running(TaskType::CX),
    {
        self.cx_running
    }

    pub fn global_limit(&self) -> (r: u8)
        ensures
            r == self.global_cap(),
    {
        self.total_max
    }

    fn can_start_cc(&self) -> (r: bool)
        requires
            self.wf(),
        ensures
            r == self.has_capacity(TaskType::CC),
    {
        self.cc_running < self.cc_max && self.total_running() < self.total_max
    }

    fn can_start_cx(&self) -> (r: bool)
        requires
            self.wf(),
        ensures
            r == self.has_capacity(TaskType::CX),
    {
        self.cx_running < self.cx_max && self.total_running() < self.total_max
    }

    /// Whether a task of class `t` may start now.
    pub fn can_start(&self, t: TaskType) -> (r: bool)
        requires
            self.wf(),
        ensures
            r == self.has_capacity(t),
    {
        match t {
            TaskType::CC => self.can_start_cc(),
            TaskType::CX => self.can_start_cx(),
        }
    }

    fn acquire_internal(&mut self, t: TaskType)
        requires
            old(self).wf(),
            old(self).has_capacity(t),
        ensures
            final(self).wf(),
            final(self).running(t) == old(self).running(t) + 1,
            final(self).admitted(t) == old(self).admitted(t) + 1,
            final(self).running(other(t)) == old(self).running(other(t)),
            final(self).admitted(other(t)) == old(self).admitted(other(t)),
            released_same(*old(self), *final(self)),
            limits_same(*old(self), *final(self)),
            final(self).global_cap() == old(self).global_cap(),
            final(self).queued() == old(self).queued(),
            final(self).next_id() == old(self).next_id(),
            old(self).counters_safe() ==> final(self).counters_safe(),
    {
        match t {
            TaskType::CC => {
                self.cc_running = self.cc_running + 1;
                self.cc_admitted = Ghost(self.cc_admitted@ + 1);
            },
            TaskType::CX => {
                self.cx_running = self.cx_running + 1;
                self.cx_admitted = Ghost(self.cx_admitted@ + 1);
            },
        }
    }

    /// Gives one slot of class `t` back; a counter already at zero stays there.
    fn release_internal(&mut self, t: TaskType)
        requires
            old(self).wf(),
        ensures
            final(self).wf(),
            final(self).running(t) == if old(self).running(t) > 0 {
                (old(self).running(t) - 1) as nat
            } else {
                0
            },
            final(self).released(t) == old(self).released(t) + if old(self).running(t) > 0 {
                1nat
            } else {
                0nat
            },
            final(self).running(other(t)) == old(self).running(other(t)),
            final(self).released(other(t)) == old(self).released(other(t)),
            admitted_same(*old(self), *final(self)),
            limits_same(*old(self), *final(self)),
            final(self).global_cap() == old(self).global_cap(),
            final(self).queued() == old(self).queued(),
            final(self).next_id() == old(self).next_id(),
            old(self).counters_safe() ==> final(self).counters_safe(),
    {
        match t {
            TaskType::CC => {
                if self.cc_running > 0 {
                    self.cc_running = self.cc_running - 1;
                    self.cc_released = Ghost(self.cc_released@ + 1);
                }
            },
            TaskType::CX => {
                if self.cx_running > 0 {
                    self.cx_running = self.cx_running - 1;
                    self.cx_released = Ghost(self.cx_released@ + 1);
                }
            },
        }
    }

    fn next_task_id(&mut self) -> (r: u64)
        requires
            old(self).wf(),
            old(self).next_id() < u64::MAX,
        ensures
            final(self).wf(),
            r == old(self).next_id(),
            final(self).next_id() == old(self).next_id() + 1,
            running_same(*old(self), *final(self)),
            admitted_same(*old(self), *final(self)),
            released_same(*old(self), *final(self)),
            limits_same(*old(self), *final(self)),
            final(self).global_cap() == old(self).global_cap(),
            final(self).queued() == old(self).queued(),
    {
        let id = self.task_id_counter;
        self.task_id_counter = self.task_id_counter + 1;
        id
    }

    /// Whether a task of class `t` is waiting in the queue.
    fn class_waiting(&self, t: TaskType) -> (r: bool)
        ensures
            r == waiting(self.queued(), t),
    {
        let mut i: usize = 0;
        while i < self.queue.len()
            invariant
                0 <= i <= self.queue@.len(),
                forall|j: int| 0 <= j < i ==> (#[trigger] self.queue@[j]).task_type != t,
            decreases self.queue@.len() - i,
        {
            if self.queue[i].task_type == t {
                proof {
                    assert(self.queue@[i as int].task_type == t);
                }
                return true;
            }
            i = i + 1;
        }
        false
    }

    /// Takes a slot of class `t` at once when one is free and no task of the
    /// class waits before it; otherwise queues the task at the tail and
    /// returns its id in `Err`.
    pub fn try_acquire(
        &mut self,
        t: TaskType,
        description: String,
        project_path: String,
        queued_at: String,
    ) -> (r: Result<TaskHandle, u64>)
        requires
            old(self).wf(),
            old(self).next_id() < u64::MAX,
        ensures
            final(self).wf(),
            acquired(*old(self), *final(self), t, description, project_path, queued_at, r),
    {
        if self.can_start(t) && !self.class_waiting(t) {
            self.acquire_internal(t);
            let id = self.next_task_id();
            Ok(TaskHandle { task_id: id, task_type: t })
        } else {
            let id = self.next_task_id();
            let task = PendingTask { id, task_type: t, description, project_path, queued_at };
            self.queue.push(task);
            Err(id)
        }
    }

    /// `try_acquire` for class CC, stamping a queued task with the current time.
    pub fn try_acquire_cc(&mut self, description: String, project_path: String) -> (r: Result<
        TaskHandle,
        u64,
    >)
        requires
            old(self).wf(),
            old(self).next_id() < u64::MAX,
        ensures
            final(self).wf(),
            exists|queued_at: String|
                #[trigger] acquired(
                    *old(self),
                    *final(self),
                    TaskType::CC,
                    description,
                    project_path,
                    queued_at,
                    r,
                ),
    {
        let queued_at = now_rfc3339();
        let ghost qa = queued_at;
        let r = self.try_acquire(TaskType::CC, description, project_path, queued_at);
        assert(acquired(*old(self), *self, TaskType::CC, description, project_path, qa, r));
        r
    }

    /// `try_acquire` for class CX, stamping a queued task with the current time.
    pub fn try_acquire_cx(&mut self, description: String, project_path: String) -> (r: Result<
        TaskHandle,
        u64,
    >)
        requires
            old(self).wf(),
            old(self).next_id() < u64::MAX,
        ensures
            final(self).wf(),
            exists|queued_at: String|
                #[trigger] acquired(
                    *old(self),
                    *final(self),
                    TaskType::CX,
                    description,
                    project_path,
                    queued_at,
                    r,
                ),
    {
        let queued_at = now_rfc3339();
        let ghost qa = queued_at;
        let r = self.try_acquire(TaskType::CX, description, project_path, queued_at);
        assert(acquired(*old(self), *self, TaskType::CX, description, project_path, qa, r));
        r
    }

    /// Admits the first queued task whose class has capacity, if any, and
    /// returns its ticket.
    fn try_schedule_next(&mut self) -> (r: Option<TaskHandle>)
        requires
            old(self).wf(),
        ensures
            final(self).wf(),
            final(self).next_id() == old(self).next_id(),
            limits_same(*old(self), *final(self)),
            final(self).global_cap() == old(self).global_cap(),
            released_same(*old(self), *final(self)),
            old(self).counters_safe() ==> final(self).counters_safe(),
            r is None ==> {
                &&& final(self).queued() == old(self).queued()
                &&& running_same(*old(self), *final(self))
                &&& admitted_same(*old(self), *final(self))
                &&& forall|i: int|
                    0 <= i < old(self).queued().len() ==> !old(self).has_capacity(
                        #[trigger] old(self).queued()[i].task_type,
                    )
            },
            r is Some ==> scheduled(*old(self), *final(self), r->Some_0),
    {
        match self.first_eligible() {
            None => None,
            Some(i) => {
                let t = self.queue[i].task_type;
                let ghost q = self.queue@;
                let task = self.queue.remove(i);
                proof {
                    assert forall|a: int, b: int|
                        0 <= a < b < self.queue@.len() implies #[trigger] self.queue@[a].id
                        < #[trigger] self.queue@[b].id by {
                        let oa = if a < i { a } else { a + 1 };
                        let ob = if b < i { b } else { b + 1 };
                        assert(self.queue@[a] == q[oa]);
                        assert(self.queue@[b] == q[ob]);
                    }
                    assert forall|a: int| 0 <= a < self.queue@.len() implies #[trigger] self.queue@[a].id
                        < self.task_id_counter by {
                        let oa = if a < i { a } else { a + 1 };
                        assert(self.queue@[a] == q[oa]);
                    }
                }
                self.acquire_internal(t);
                let h = TaskHandle { task_id: task.id, task_type: t };
                proof {
                    assert forall|j: int| 0 <= j < i implies #[trigger] old(self).queued()[j].task_type
                        != t by {
                        assert(!old(self).has_capacity(old(self).queued()[j].task_type));
                    }
                    assert(admitted_at(*old(self), *self, i as int, h));
                    assert(scheduled(*old(self), *self, h));
                }
                Some(h)
            },
        }
    }

    /// Index of the first queued task whose class has capacity.
    fn first_eligible(&self) -> (r: Option<usize>)
        requires
            self.wf(),
        ensures
            r is None ==> forall|i: int|
                0 <= i < self.queued().len() ==> !self.has_capacity(#[trigger] self.queued()[i].task_type),
            r is Some ==> {
                &&& r->Some_0 < self.queued().len()
                &&& self.has_capacity(self.queued()[r->Some_0 as int].task_type)
                &&& forall|j: int|
                    0 <= j < r->Some_0 ==> !self.has_capacity(#[trigger] self.queued()[j].task_type)
            },
    {
        let mut i: usize = 0;
        while i < self.queue.len()
            invariant
                self.wf(),
                0 <= i <= self.queue.len(),
                forall|j: int| 0 <= j < i ==> !self.has_capacity(#[trigger] self.queue@[j].task_type),
            decreases self.queue.len() - i,
        {
            if self.can_start(self.queue[i].task_type) {
                return Some(i);
            }
            i = i + 1;
        }
        None
    }

    /// Gives a ticket's slot back (never below zero) and admits the first
    /// queued task that can then start; its ticket is returned.
    pub fn release(&mut self, handle: TaskHandle) -> (r: Option<TaskHandle>)
        requires
            old(self).wf(),
        ensures
            final(self).wf(),
            final(self).next_id() == old(self).next_id(),
            old(self).counters_safe() ==> final(self).counters_safe(),
            released_then_scheduled(*old(self), *final(self), handle.kind(), r),
    {
        self.release_internal(handle.task_type);
        let ghost mid = *self;
        let r = self.try_schedule_next();
        assert(released_then_scheduled(*old(self), *self, handle.kind(), r)) by {
            assert(release_step(*old(self), mid, handle.kind()));
        }
        r
    }

    /// Removes a task that is still queued; returns whether it was there.
    pub fn cancel_queued(&mut self, task_id: u64) -> (r: bool)
        requires
            old(self).wf(),
        ensures
            final(self).wf(),
            r == exists|i: int| 0 <= i < old(self).queued().len() && #[trigger] old(self).queued()[i].id == task_id,
            final(self).queued() == old(self).queued().filter(|t: PendingTask| t.id != task_id),
            running_same(*old(self), *final(self)),
            admitted_same(*old(self), *final(self)),
            released_same(*old(self), *final(self)),
            limits_same(*old(self), *final(self)),
            final(self).global_cap() == old(self).global_cap(),
            final(self).next_id() == old(self).next_id(),
            old(self).counters_safe() ==> final(self).counters_safe(),
    {
        let mut i: usize = 0;
        while i < self.queue.len()
            invariant
                self.wf(),
                *self == *old(self),
                0 <= i <= self.queue.len(),
                forall|j: int| 0 <= j < i ==> #[trigger] self.queue@[j].id != task_id,
            decreases self.queue.len() - i,
        {
            if self.queue[i].id == task_id {
                let ghost q = self.queue@;
                self.queue.remove(i);
                proof {
                    assert forall|a: int, b: int|
                        0 <= a < b < self.queue@.len() implies #[trigger] self.queue@[a].id
                        < #[trigger] self.queue@[b].id by {
                        let oa = if a < i { a } else { a + 1 };
                        let ob = if b < i { b } else { b + 1 };
                        assert(self.queue@[a] == q[oa]);
                        assert(self.queue@[b] == q[ob]);
                    }
                    assert forall|a: int| 0 <= a < self.queue@.len() implies #[trigger] self.queue@[a].id
                        < self.task_id_counter by {
                        let oa = if a < i { a } else { a + 1 };
                        assert(self.queue@[a] == q[oa]);
                    }
                    lemma_filter_remove_unique(q, i as int, task_id);
                }
                return true;
            }
            i = i + 1;
        }
        proof {
            lemma_filter_absent(self.queue@, task_id);
        }
        false
    }

    /// Counters, limits and the queue with positions.
    pub fn status(&self) -> (r: ConcurrencyStatus)
        requires
            self.wf(),
        ensures
            r.cc_running == self.running(TaskType::CC),
            r.cx_running == self.running(TaskType::CX),
            r.cc_max == self.limit(TaskType::CC),
            r.cx_max == self.limit(TaskType::CX),
            r.total_running == self.total(),
            r.total_max == self.global_cap(),
            r.cc_queued == count_class(self.queued(), TaskType::CC),
            r.cx_queued == count_class(self.queued(), TaskType::CX),
            r.queue@.len() == self.queued().len(),
            forall|i: int|
                0 <= i < r.queue@.len() ==> {
                    &&& (#[trigger] r.queue@[i]).id == self.queued()[i].id
                    &&& r.queue@[i].task_type@ == task_type_label(self.queued()[i].task_type)
                    &&& r.queue@[i].description == self.queued()[i].description
                    &&& r.queue@[i].project_path == self.queued()[i].project_path
                    &&& r.queue@[i].queued_at == self.queued()[i].queued_at
                    &&& r.queue@[i].position == i
                },
    {
        let mut cc_queued: usize = 0;
        let mut cx_queued: usize = 0;
        let mut queue: Vec<QueuedTaskInfo> = Vec::new();
        let mut i: usize = 0;
        while i < self.queue.len()
            invariant
                0 <= i <= self.queue.len(),
                cc_queued == count_class(self.queue@.take(i as int), TaskType::CC),
                cx_queued == count_class(self.queue@.take(i as int), TaskType::CX),
                cc_queued <= i,
                cx_queued <= i,
                queue@.len() == i,
                forall|k: int|
                    0 <= k < i ==> {
                        &&& (#[trigger] queue@[k]).id == self.queue@[k].id
                        &&& queue@[k].task_type@ == task_type_label(self.queue@[k].task_type)
                        &&& queue@[k].description == self.queue@[k].description
                        &&& queue@[k].project_path == self.queue@[k].project_path
                        &&& queue@[k].queued_at == self.queue@[k].queued_at
                        &&& queue@[k].position == k
                    },
            decreases self.queue.len() - i,
        {
            let t = &self.queue[i];
            proof {
                assert(self.queue@.take(i + 1).drop_last() == self.queue@.take(i as int));
            }
            let label = match t.task_type {
                TaskType::CC => {
                    cc_queued = cc_queued + 1;
                    String::from_str("CC")
                },
                TaskType::CX => {
                    cx_queued = cx_queued + 1;
                    String::from_str("CX")
                },
            };
            proof {
                reveal_strlit("CC");
                reveal_strlit("CX");
            }
            queue.push(
                QueuedTaskInfo {
                    id: t.id,
                    task_type: label,
                    description: t.description.clone(),
                    project_path: t.project_path.clone(),
                    queued_at: t.queued_at.clone(),
                    position: i,
                },
            );
            i = i + 1;
        }
        proof {
            assert(self.queue@.take(self.queue@.len() as int) == self.queue@);
        }
        ConcurrencyStatus {
            cc_running: self.cc_running,
            cx_running: self.cx_running,
            cc_max: self.cc_max,
            cx_max: self.cx_max,
            cc_queued,
            cx_queued,
            total_running: self.total_running(),
            total_max: self.total_max,
            queue,
        }
    }
}

impl Default for ConcurrencyController {
    fn default() -> (r: Self)
        ensures
            r.wf(),
            r.limit(TaskType::CC) == 3,
            r.limit(TaskType::CX) == 5,
            r.global_cap() == TOTAL_CONCURRENCY_LIMIT,
            r.total() == 0,
            r.queued().len() == 0,
    {
        Self::new(3, 5)
    }
}

pub open spec fn limits_same(a: ConcurrencyController, b: ConcurrencyController) -> bool {
    &&& a.limit(TaskType::CC) == b.limit(TaskType::CC)
    &&& a.limit(TaskType::CX) == b.limit(TaskType::CX)
    &&& a.global_cap() == b.global_cap()
}

pub open spec fn running_same(a: ConcurrencyController, b: ConcurrencyController) -> bool {
    a.running(TaskType::CC) == b.running(TaskType::CC) && a.running(TaskType::CX) == b.running(TaskType::CX)
}

pub open spec fn admitted_same(a: ConcurrencyController, b: ConcurrencyController) -> bool {
    a.admitted(TaskType::CC) == b.admitted(TaskType::CC) && a.admitted(TaskType::CX) == b.admitted(TaskType::CX)
}

pub open spec fn released_same(a: ConcurrencyController, b: ConcurrencyController) -> bool {
    a.released(TaskType::CC) == b.released(TaskType::CC) && a.released(TaskType::CX) == b.released(TaskType::CX)
}

/// `post` is `pre` after the queued task at `i` was admitted with ticket `h`:
/// it was the first queued task whose class had capacity, so no earlier task
/// of the same class was passed over.
pub open spec fn admitted_at(
    pre: ConcurrencyController,
    post: ConcurrencyController,
    i: int,
    h: TaskHandle,
) -> bool {
    let t = pre.queued()[i].task_type;
    &&& pre.has_capacity(t)
    &&& forall|j: int| 0 <= j < i ==> !pre.has_capacity(#[trigger] pre.queued()[j].task_type)
    &&& forall|j: int| 0 <= j < i ==> #[trigger] pre.queued()[j].task_type != t
    &&& h.id() == pre.queued()[i].id
    &&& h.kind() == t
    &&& post.queued() == pre.queued().remove(i)
    &&& post.running(t) == pre.running(t) + 1
    &&& post.admitted(t) == pre.admitted(t) + 1
    &&& post.running(other(t)) == pre.running(other(t))
    &&& post.admitted(other(t)) == pre.admitted(other(t))
}

/// A task of class `t` waits in `q`.
pub open spec fn waiting(q: Seq<PendingTask>, t: TaskType) -> bool {
    exists|i: int| 0 <= i < q.len() && (#[trigger] q[i]).task_type == t
}

/// A request of class `t` is admitted at once: its class has capacity and no
/// task of the class waits, so no queued task is overtaken.
pub open spec fn admits_now(c: ConcurrencyController, t: TaskType) -> bool {
    c.has_capacity(t) && !waiting(c.queued(), t)
}

/// `post` and `r` are what a request of class `t` makes of `pre`: admitted
/// under the next id when `admits_now`, else queued at the tail under that id.
pub open spec fn acquired(
    pre: ConcurrencyController,
    post: ConcurrencyController,
    t: TaskType,
    description: String,
    project_path: String,
    queued_at: String,
    r: Result<TaskHandle, u64>,
) -> bool {
    &&& post.next_id() == pre.next_id() + 1
    &&& limits_same(pre, post)
    &&& released_same(pre, post)
    &&& (pre.counters_safe() ==> post.counters_safe())
    &&& admits_now(pre, t) ==> {
        &&& r is Ok
        &&& r->Ok_0.id() == pre.next_id()
        &&& r->Ok_0.kind() == t
        &&& post.running(t) == pre.running(t) + 1
        &&& post.admitted(t) == pre.admitted(t) + 1
        &&& post.running(other(t)) == pre.running(other(t))
        &&& post.admitted(other(t)) == pre.admitted(other(t))
        &&& post.queued() == pre.queued()
    }
    &&& !admits_now(pre, t) ==> {
        &&& r == Err::<TaskHandle, u64>(pre.next_id())
        &&& running_same(pre, post)
        &&& admitted_same(pre, post)
        &&& post.queued() == pre.queued().push(
            PendingTask { id: pre.next_id(), task_type: t, description, project_path, queued_at },
        )
    }
}

/// `post` is `pre` after one queued task was admitted with ticket `h`.
pub open spec fn scheduled(pre: ConcurrencyController, post: ConcurrencyController, h: TaskHandle) -> bool {
    exists|i: int| 0 <= i < pre.queued().len() && #[trigger] admitted_at(pre, post, i, h)
}

/// `post` is `pre` after one slot of class `t` was given back.
pub open spec fn release_step(pre: ConcurrencyController, post: ConcurrencyController, t: TaskType) -> bool {
    &&& post.running(t) == if pre.running(t) > 0 {
        (pre.running(t) - 1) as nat
    } else {
        0
    }
    &&& post.released(t) == pre.released(t) + if pre.running(t) > 0 {
        1nat
    } else {
        0nat
    }
    &&& post.running(other(t)) == pre.running(other(t))
    &&& post.released(other(t)) == pre.released(other(t))
    &&& admitted_same(pre, post)
    &&& limits_same(pre, post)
    &&& post.global_cap() == pre.global_cap()
    &&& post.queued() == pre.queued()
    &&& post.next_id() == pre.next_id()
    &&& post.wf()
}

/// `post` is `pre` after a release of class `t` followed by one scheduling
/// pass that admitted `r`, if anything.
pub open spec fn released_then_scheduled(
    pre: ConcurrencyController,
    post: ConcurrencyController,
    t: TaskType,
    r: Option<TaskHandle>,
) -> bool {
    exists|mid: ConcurrencyController|
        {
            &&& #[trigger] release_step(pre, mid, t)
            &&& released_same(mid, post)
            &&& limits_same(mid, post)
            &&& post.global_cap() == mid.global_cap()
            &&& r is None ==> {
                &&& post.queued() == mid.queued()
                &&& running_same(mid, post)
                &&& admitted_same(mid, post)
                &&& forall|i: int|
                    0 <= i < mid.queued().len() ==> !mid.has_capacity(
                        #[trigger] mid.queued()[i].task_type,
                    )
            }
            &&& r is Some ==> scheduled(mid, post, r->Some_0)
        }
}

/// FIFO within a class: when a release admits a queued task, no task of the
/// same class queued before it is passed over.
pub proof fn lemma_admission_fifo(
    pre: ConcurrencyController,
    post: ConcurrencyController,
    h: TaskHandle,
    a: int,
    b: int,
)
    requires
        pre.wf(),
        scheduled(pre, post, h),
        0 <= a < b < pre.queued().len(),
        pre.queued()[a].task_type == pre.queued()[b].task_type,
    ensures
        h.id() != pre.queued()[b].id,
{
    let i = choose|i: int| 0 <= i < pre.queued().len() && #[trigger] admitted_at(pre, post, i, h);
    if h.id() == pre.queued()[b].id {
        if i < b {
            assert(pre.queued()[i].id < pre.queued()[b].id);
        } else if i > b {
            assert(pre.queued()[b].id < pre.queued()[i].id);
        } else {
            assert(pre.queued()[a].task_type != pre.queued()[i].task_type);
        }
    }
}

proof fn lemma_filter_absent(q: Seq<PendingTask>, id: u64)
    requires
        forall|j: int| 0 <= j < q.len() ==> #[trigger] q[j].id != id,
    ensures
        q.filter(|t: PendingTask| t.id != id) == q,
    decreases q.len(),
{
    reveal(Seq::filter);
    if q.len() > 0 {
        lemma_filter_absent(q.drop_last(), id);
    }
}

proof fn lemma_filter_remove_unique(q: Seq<PendingTask>, i: int, id: u64)
    requires
        0 <= i < q.len(),
        q[i].id == id,
        forall|a: int, b: int| 0 <= a < b < q.len() ==> #[trigger] q[a].id < #[trigger] q[b].id,
    ensures
        q.filter(|t: PendingTask| t.id != id) == q.remove(i),
    decreases q.len(),
{
    reveal(Seq::filter);
    if i == q.len() - 1 {
        assert forall|j: int| 0 <= j < q.drop_last().len() implies #[trigger] q.drop_last()[j].id != id by {
            assert(q[j].id < q[i].id);
        }
        lemma_filter_absent(q.drop_last(), id);
        assert(q.remove(i) =~= q.drop_last());
    } else {
        let p = q.drop_last();
        assert forall|a: int, b: int| 0 <= a < b < p.len() implies #[trigger] p[a].id < #[trigger] p[b].id by {
            assert(p[a] == q[a]);
            assert(p[b] == q[b]);
        }
        lemma_filter_remove_unique(p, i, id);
        assert(q.last().id != id) by {
            assert(q[i].id < q[q.len() - 1].id);
        }
        assert(q.remove(i) =~= p.remove(i).push(q.last()));
    }
}

} // verus!
