//! The reactor core: task bookkeeping, the oneshot registration protocol and
//! the two-phase (scan, then drain) resumption queue.
//!
//! The reactor owns three arenas — live tasks, outstanding wake capabilities
//! and resource registrations — plus a FIFO queue of tasks to resume. The OS
//! readiness multiplexer and the polling of user futures stay outside; they
//! drive this state machine with plain values: a batch of fired tokens comes
//! in through [`Reactor::scan`], tasks to poll come out of
//! [`Reactor::next_resumption`], and each poll's outcome is reported back
//! through [`Reactor::report_poll`].

use vstd::prelude::*;

use crate::leak_storage::inserted;
use crate::leak_storage::spec_remove;
use crate::leak_storage::spec_set;
use crate::leak_storage::Key;
use crate::leak_storage::LeakStorage;
use crate::leak_storage::StorageModel;

verus! {

/// The readiness condition a registration waits for.
#[derive(Clone, Copy, Debug, PartialEq, Eq, Structural)]
pub enum Interest {
    Readable,
    Writable,
}

/// The readiness a fired event reports; an event may report both directions.
#[derive(Clone, Copy, Debug, PartialEq, Eq, Structural)]
pub struct Readiness {
    pub readable: bool,
    pub writable: bool,
}

impl Readiness {
    /// Whether this readiness satisfies `interest`.
    pub open spec fn satisfies_spec(self, interest: Interest) -> bool {
        match interest {
            Interest::Readable => self.readable,
            Interest::Writable => self.writable,
        }
    }

    pub fn satisfies(&self, interest: Interest) -> (b: bool)
        ensures
            b == self.satisfies_spec(interest),
    {
        match interest {
            Interest::Readable => self.readable,
            Interest::Writable => self.writable,
        }
    }
}

/// A task slot: live, or retired (tombstoned) by cancellation and kept only
/// so that a late-arriving wake capability finds the tombstone instead of a
/// reused slot.
#[derive(Clone, Copy, Debug, PartialEq, Eq, Structural)]
pub enum TaskStatus {
    Live,
    Retired,
}

/// What an outstanding wake capability resumes, and through which resource
/// it was registered.
#[derive(Clone, Copy, Debug, PartialEq, Eq, Structural)]
pub struct WakerEntry {
    pub task: Key,
    pub resource: Key,
}

/// The multiplexer-side state of one resource: idle, or armed with a oneshot
/// token that fires when `interest` is satisfied.
#[derive(Clone, Copy, Debug, PartialEq, Eq, Structural)]
pub enum Registration {
    Idle,
    Armed { token: Key, interest: Interest },
}

/// One fired readiness event, as the multiplexer reports it.
#[derive(Clone, Copy, Debug, PartialEq, Eq, Structural)]
pub struct Event {
    pub token: Key,
    pub readiness: Readiness,
}

/// The outcome of one poll of a task.
#[derive(Clone, Copy, Debug, PartialEq, Eq, Structural)]
pub enum PollOutcome {
    Ready,
    Pending,
}

/// The token a registration is armed with, if any.
pub open spec fn reg_token(r: Registration) -> Option<Key> {
    match r {
        Registration::Armed { token, .. } => Some(token),
        Registration::Idle => None,
    }
}

/// The interest a registration is armed with.
pub open spec fn reg_interest(r: Registration) -> Interest
    recommends
        r is Armed,
{
    match r {
        Registration::Armed { interest, .. } => interest,
        Registration::Idle => Interest::Readable,
    }
}

/// Mathematical model of the whole reactor.
#[verifier::ext_equal]
pub ghost struct ReactorModel {
    pub tasks: StorageModel<TaskStatus>,
    pub wakers: StorageModel<WakerEntry>,
    pub regs: StorageModel<Registration>,
    pub queue: Seq<Key>,
}

/// The contribution of one task slot to the live-task count.
pub open spec fn task_contrib(s: Option<TaskStatus>) -> nat {
    if s == Some(TaskStatus::Live) {
        1nat
    } else {
        0nat
    }
}

/// Number of live tasks held in the task arena.
pub open spec fn live_tasks(s: Seq<Option<TaskStatus>>) -> nat
    decreases s.len(),
{
    if s.len() == 0 {
        0
    } else {
        live_tasks(s.drop_last()) + task_contrib(s.last())
    }
}

pub proof fn lemma_live_tasks_push(s: Seq<Option<TaskStatus>>, v: Option<TaskStatus>)
    ensures
        live_tasks(s.push(v)) == live_tasks(s) + task_contrib(v),
{
    assert(s.push(v).drop_last() =~= s);
}

pub proof fn lemma_live_tasks_update(s: Seq<Option<TaskStatus>>, i: int, v: Option<TaskStatus>)
    requires
        0 <= i < s.len(),
    ensures
        live_tasks(s.update(i, v)) + task_contrib(s[i]) == live_tasks(s) + task_contrib(v),
    decreases s.len(),
{
    if i == s.len() - 1 {
        assert(s.update(i, v).drop_last() =~= s.drop_last());
    } else {
        assert(s.update(i, v).drop_last() =~= s.drop_last().update(i, v));
        lemma_live_tasks_update(s.drop_last(), i, v);
    }
}

/// A live task slot keeps the live-task count positive: decrementing the
/// count when removing a live task can never take it below zero.
pub proof fn lemma_live_tasks_lower_bound(s: Seq<Option<TaskStatus>>, i: int)
    requires
        0 <= i < s.len(),
        s[i] == Some(TaskStatus::Live),
    ensures
        live_tasks(s) >= 1,
    decreases s.len(),
{
    if i < s.len() - 1 {
        lemma_live_tasks_lower_bound(s.drop_last(), i);
    }
}

/// With no live slot anywhere, the live-task count is zero.
pub proof fn lemma_live_tasks_none(s: Seq<Option<TaskStatus>>)
    requires
        forall|i: int| 0 <= i < s.len() ==> s[i] != Some(TaskStatus::Live),
    ensures
        live_tasks(s) == 0,
    decreases s.len(),
{
    if s.len() > 0 {
        lemma_live_tasks_none(s.drop_last());
    }
}

/// Oneshot discipline, stated over the model: every outstanding wake
/// capability is the token its resource's registration is armed with, and
/// every armed registration's token is outstanding — so a resource has at
/// most one outstanding token at any time.
pub open spec fn model_wf(m: ReactorModel) -> bool {
    &&& m.tasks.wf()
    &&& m.wakers.wf()
    &&& m.regs.wf()
    &&& forall|t: Key|
            #[trigger] m.wakers.valid(t) ==> {
                &&& m.regs.valid(m.wakers.value_at(t).resource)
                &&& reg_token(m.regs.value_at(m.wakers.value_at(t).resource)) == Some(t)
            }
    &&& forall|r: Key|
            #[trigger] m.regs.valid(r) && m.regs.value_at(r) is Armed ==> {
                &&& m.wakers.valid(reg_token(m.regs.value_at(r))->0)
                &&& m.wakers.value_at(reg_token(m.regs.value_at(r))->0).resource == r
            }
}

/// Reactor state: the three arenas, the FIFO resumption queue, the live-task
/// counter and the configured capacity of one event batch.
pub struct Reactor {
    tasks: LeakStorage<TaskStatus>,
    wakers: LeakStorage<WakerEntry>,
    regs: LeakStorage<Registration>,
    queue: Vec<Key>,
    counter: usize,
    events_capacity: usize,
}

impl View for Reactor {
    type V = ReactorModel;

    closed spec fn view(&self) -> ReactorModel {
        ReactorModel { tasks: self.tasks@, wakers: self.wakers@, regs: self.regs@, queue: self.queue@ }
    }
}

impl Reactor {
    /// Validity: the arenas are well formed, the counter equals the number
    /// of live tasks, and the oneshot discipline holds.
    pub closed spec fn inv(&self) -> bool {
        &&& self.tasks.inv()
        &&& self.wakers.inv()
        &&& self.regs.inv()
        &&& self.counter == live_tasks(self@.tasks.slots)
        &&& model_wf(self@)
    }

    /// Create an empty reactor; `events_capacity` is the size of one event
    /// batch, kept for whoever drives the multiplexer.
    pub fn new_reactor(events_capacity: usize) -> (r: Reactor)
        ensures
            r.inv(),
            r@.tasks.slots.len() == 0,
            r@.wakers.slots.len() == 0,
            r@.regs.slots.len() == 0,
            r@.queue.len() == 0,
            r.events_capacity_spec() == events_capacity,
    {
        Reactor {
            tasks: LeakStorage::new(),
            wakers: LeakStorage::new(),
            regs: LeakStorage::new(),
            queue: Vec::new(),
            counter: 0,
            events_capacity: events_capacity,
        }
    }

    pub closed spec fn events_capacity_spec(&self) -> usize {
        self.events_capacity
    }

    pub fn events_capacity(&self) -> (n: usize)
        ensures
            n == self.events_capacity_spec(),
    {
        self.events_capacity
    }

    /// Number of live tasks; the event loop runs while this is nonzero.
    pub fn live_task_count(&self) -> (n: usize)
        requires
            self.inv(),
        ensures
            n == live_tasks(self@.tasks.slots),
    {
        self.counter
    }

    /// Number of resumptions waiting to be drained.
    pub fn pending_resumptions(&self) -> (n: usize)
        ensures
            n == self@.queue.len(),
    {
        self.queue.len()
    }

    /// Admit a new task into the arena and schedule its first poll. Tasks
    /// are lazy, so the first poll is driven explicitly by enqueuing the
    /// fresh task, not by waiting for an event that may never come.
    pub fn do_spawn(&mut self) -> (t: Key)
        requires
            old(self).inv(),
            live_tasks(old(self)@.tasks.slots) < usize::MAX,
        ensures
            final(self).inv(),
            inserted(old(self)@.tasks, final(self)@.tasks, t, TaskStatus::Live),
            final(self)@.tasks.valid(t),
            final(self)@.tasks.value_at(t) == TaskStatus::Live,
            !old(self)@.tasks.valid(t),
            final(self)@.queue == old(self)@.queue.push(t),
            final(self)@.wakers == old(self)@.wakers,
            final(self)@.regs == old(self)@.regs,
            live_tasks(final(self)@.tasks.slots) == live_tasks(old(self)@.tasks.slots) + 1,
    {
        let ghost m0 = self@;
        let t = self.tasks.insert(TaskStatus::Live);
        proof {
            if t.index < m0.tasks.slots.len() {
                lemma_live_tasks_update(m0.tasks.slots, t.index as int, Some(TaskStatus::Live));
            } else {
                lemma_live_tasks_push(m0.tasks.slots, Some(TaskStatus::Live));
            }
        }
        self.counter = self.counter + 1;
        self.queue.push(t);
        t
    }

    /// The waker bridge: ask that `task` be resumed. The request is queued,
    /// never polled in place, so detecting readiness stays decoupled from
    /// executing the poll. A request for a task that is no longer live is
    /// reported back and ignored, not acted on.
    pub fn wake(&mut self, task: Key) -> (woken: bool)
        requires
            old(self).inv(),
        ensures
            final(self).inv(),
            woken == (old(self)@.tasks.valid(task) && old(self)@.tasks.value_at(task)
                == TaskStatus::Live),
            final(self)@.tasks == old(self)@.tasks,
            final(self)@.wakers == old(self)@.wakers,
            final(self)@.regs == old(self)@.regs,
            final(self)@.queue == if woken {
                old(self)@.queue.push(task)
            } else {
                old(self)@.queue
            },
    {
        let live = match self.tasks.get_ref(task) {
            Some(s) => match *s {
                TaskStatus::Live => true,
                TaskStatus::Retired => false,
            },
            None => false,
        };
        if live {
            self.queue.push(task);
        }
        live
    }

    /// Cancel `task`: tombstone its slot and take it out of the live count.
    /// The slot stays occupied so that a wake capability arriving later finds
    /// the tombstone rather than a reused slot.
    pub fn retire(&mut self, task: Key) -> (retired: bool)
        requires
            old(self).inv(),
        ensures
            final(self).inv(),
            retired == (old(self)@.tasks.valid(task) && old(self)@.tasks.value_at(task)
                == TaskStatus::Live),
            final(self)@.tasks == if retired {
                spec_set(old(self)@.tasks, task, TaskStatus::Retired)
            } else {
                old(self)@.tasks
            },
            final(self)@.wakers == old(self)@.wakers,
            final(self)@.regs == old(self)@.regs,
            final(self)@.queue == old(self)@.queue,
            live_tasks(final(self)@.tasks.slots) == live_tasks(old(self)@.tasks.slots) - (
            if retired {
                1int
            } else {
                0int
            }),
    {
        let ghost m0 = self@;
        let live = match self.tasks.get_ref(task) {
            Some(s) => match *s {
                TaskStatus::Live => true,
                TaskStatus::Retired => false,
            },
            None => false,
        };
        if live {
            let _ = self.tasks.set(task, TaskStatus::Retired);
            proof {
                lemma_live_tasks_update(m0.tasks.slots, task.index as int, Some(TaskStatus::Retired));
                lemma_live_tasks_lower_bound(m0.tasks.slots, task.index as int);
            }
            self.counter = self.counter - 1;
            true
        } else {
            false
        }
    }
    /// One-time association of a fresh resource with the reactor, made at
    /// adapter construction: a placeholder subscription with no interest, so
    /// that later rearming is uniform whether it is the first or the Nth.
    pub fn register(&mut self) -> (r: Key)
        requires
            old(self).inv(),
        ensures
            final(self).inv(),
            inserted(old(self)@.regs, final(self)@.regs, r, Registration::Idle),
            final(self)@.regs.valid(r),
            final(self)@.regs.value_at(r) == Registration::Idle,
            !old(self)@.regs.valid(r),
            final(self)@.tasks == old(self)@.tasks,
            final(self)@.wakers == old(self)@.wakers,
            final(self)@.queue == old(self)@.queue,
    {
        self.regs.insert(Registration::Idle)
    }

    /// Arm `resource` with a fresh oneshot token that resumes `task` when
    /// `interest` is satisfied. Any token the resource was still armed with
    /// is consumed first, so a resource never has two outstanding tokens.
    /// Returns the fresh token, or `None` when `resource` is not a handle
    /// this reactor issued.
    pub fn reregister(&mut self, resource: Key, task: Key, interest: Interest) -> (token: Option<
        Key,
    >)
        requires
            old(self).inv(),
        ensures
            final(self).inv(),
            !old(self)@.regs.valid(resource) ==> token is None && final(self)@ == old(self)@,
            old(self)@.regs.valid(resource) ==> token is Some && reregistered(
                old(self)@,
                final(self)@,
                resource,
                task,
                interest,
                token->0,
            ),
    {
        let reg = match self.regs.get_ref(resource) {
            Some(r) => *r,
            None => {
                return None;
            },
        };
        match reg {
            Registration::Armed { token: t0, .. } => {
                let _ = self.wakers.remove(t0);
            },
            Registration::Idle => {},
        }
        let t = self.wakers.insert(WakerEntry { task, resource });
        let _ = self.regs.set(resource, Registration::Armed { token: t, interest });
        Some(t)
    }

    /// Drop `resource`'s registration, consuming any token it was armed
    /// with. This is what releasing a resource does to the reactor's state.
    pub fn deregister(&mut self, resource: Key) -> (removed: bool)
        requires
            old(self).inv(),
        ensures
            final(self).inv(),
            final(self)@ == deregister_t(old(self)@, resource),
            removed == old(self)@.regs.valid(resource),
    {
        let reg = match self.regs.get_ref(resource) {
            Some(r) => *r,
            None => {
                return false;
            },
        };
        match reg {
            Registration::Armed { token: t0, .. } => {
                let _ = self.wakers.remove(t0);
            },
            Registration::Idle => {},
        }
        let _ = self.regs.remove(resource);
        proof {
            assert(self@ =~= deregister_t(old(self)@, resource));
        }
        true
    }

    /// Act on one fired readiness event: resolve `token`, consume it (the
    /// registration is oneshot and goes idle), and append the owning task to
    /// the resumption queue if it is still live. A tombstoned task's slot is
    /// reclaimed instead of resumed; a token this reactor no longer holds,
    /// or a readiness that does not satisfy the armed interest, changes
    /// nothing. Returns the task that was queued, if any.
    pub fn deliver(&mut self, token: Key, readiness: Readiness) -> (woken: Option<Key>)
        requires
            old(self).inv(),
        ensures
            final(self).inv(),
            final(self)@ == deliver_t(old(self)@, token, readiness),
            woken == deliver_woken(old(self)@, token, readiness),
    {
        let ghost m0 = self@;
        let entry = match self.wakers.get_ref(token) {
            Some(e) => *e,
            None => {
                return None;
            },
        };
        let reg = match self.regs.get_ref(entry.resource) {
            Some(r) => *r,
            None => {
                return None;
            },
        };
        let interest = match reg {
            Registration::Armed { token: t2, interest } => {
                if t2 != token {
                    return None;
                }
                interest
            },
            Registration::Idle => {
                return None;
            },
        };
        if !readiness.satisfies(interest) {
            return None;
        }
        let _ = self.wakers.remove(token);
        let _ = self.regs.set(entry.resource, Registration::Idle);
        let status = match self.tasks.get_ref(entry.task) {
            Some(s) => Some(*s),
            None => None,
        };
        match status {
            Some(TaskStatus::Live) => {
                self.queue.push(entry.task);
                proof {
                    assert(self@ =~= deliver_t(m0, token, readiness));
                }
                Some(entry.task)
            },
            Some(TaskStatus::Retired) => {
                let _ = self.tasks.remove(entry.task);
                proof {
                    lemma_live_tasks_update(m0.tasks.slots, entry.task.index as int, None);
                    assert(self@ =~= deliver_t(m0, token, readiness));
                }
                None
            },
            None => {
                proof {
                    assert(self@ =~= deliver_t(m0, token, readiness));
                }
                None
            },
        }
    }

    /// Act on one whole batch of fired events, in the order the multiplexer
    /// reported them. Only bookkeeping happens here; no task is polled until
    /// the scan is complete and the queue is drained, so a poll can safely
    /// rearm registrations without aliasing the scan.
    pub fn scan(&mut self, events: &Vec<Event>)
        requires
            old(self).inv(),
        ensures
            final(self).inv(),
            final(self)@ == scan_t(old(self)@, events@),
    {
        let ghost m0 = self@;
        let n = events.len();
        let mut i: usize = 0;
        while i < n
            invariant
                self.inv(),
                i <= n,
                n == events@.len(),
                self@ == scan_t(m0, events@.subrange(0, i as int)),
            decreases n - i,
        {
            let e = events[i];
            let _ = self.deliver(e.token, e.readiness);
            proof {
                assert(events@.subrange(0, i as int).push(events@[i as int]) =~= events@.subrange(
                    0,
                    i as int + 1,
                ));
                lemma_scan_snoc(m0, events@.subrange(0, i as int), events@[i as int]);
            }
            i = i + 1;
        }
        proof {
            assert(events@.subrange(0, n as int) =~= events@);
        }
    }

    /// The drain phase, one step: the first queued task that is still live,
    /// with everything queued before it (tasks meanwhile finished or retired)
    /// discarded. Resumptions come out in the order they were queued.
    pub fn next_resumption(&mut self) -> (t: Option<Key>)
        requires
            old(self).inv(),
        ensures
            final(self).inv(),
            final(self)@.tasks == old(self)@.tasks,
            final(self)@.wakers == old(self)@.wakers,
            final(self)@.regs == old(self)@.regs,
            (final(self)@.queue, t) == drain_next_t(old(self)@.tasks, old(self)@.queue),
            t is Some ==> old(self)@.tasks.valid(t->0) && old(self)@.tasks.value_at(t->0)
                == TaskStatus::Live,
    {
        loop
            invariant
                self.inv(),
                self@.tasks == old(self)@.tasks,
                self@.wakers == old(self)@.wakers,
                self@.regs == old(self)@.regs,
                drain_next_t(self@.tasks, self@.queue) == drain_next_t(
                    old(self)@.tasks,
                    old(self)@.queue,
                ),
            decreases self@.queue.len(),
        {
            if self.queue.len() == 0 {
                return None;
            }
            let ghost q0 = self.queue@;
            let h = self.queue[0];
            let live = match self.tasks.get_ref(h) {
                Some(s) => match *s {
                    TaskStatus::Live => true,
                    TaskStatus::Retired => false,
                },
                None => false,
            };
            let _ = self.queue.remove(0);
            proof {
                assert(self.queue@ =~= q0.subrange(1, q0.len() as int));
            }
            if live {
                return Some(h);
            }
        }
    }

    /// Whether `task` is a live task of this reactor.
    pub fn is_live(&self, task: Key) -> (b: bool)
        requires
            self.inv(),
        ensures
            b == (self@.tasks.valid(task) && self@.tasks.value_at(task) == TaskStatus::Live),
    {
        match self.tasks.get_ref(task) {
            Some(s) => match *s {
                TaskStatus::Live => true,
                TaskStatus::Retired => false,
            },
            None => false,
        }
    }

    /// Whether `resource` is a registration handle this reactor issued and
    /// still holds.
    pub fn is_registered(&self, resource: Key) -> (b: bool)
        requires
            self.inv(),
        ensures
            b == self@.regs.valid(resource),
    {
        match self.regs.get_ref(resource) {
            Some(_) => true,
            None => false,
        }
    }
}

/// Every reactor this module hands out satisfies the oneshot discipline and
/// fits the machine: this carries a reactor's validity over to its model, so
/// the laws stated over [`ReactorModel`] apply to it.
pub proof fn lemma_inv_implies_model_wf(r: &Reactor)
    requires
        r.inv(),
    ensures
        model_wf(r@),
        r@.tasks.slots.len() <= usize::MAX,
{
    crate::leak_storage::lemma_model_fits(&r.tasks);
}

/// Relation between the models before and after rearming `resource` for
/// `interest` with the fresh token `t` resuming `task`: the old token (if
/// the resource was still armed) is consumed, the fresh token is outstanding,
/// and tasks and queue are untouched.
pub open spec fn reregistered(
    m0: ReactorModel,
    m1: ReactorModel,
    resource: Key,
    task: Key,
    interest: Interest,
    t: Key,
) -> bool {
    let w1 = match reg_token(m0.regs.value_at(resource)) {
        Some(t0) => spec_remove(m0.wakers, t0),
        None => m0.wakers,
    };
    &&& inserted(w1, m1.wakers, t, WakerEntry { task, resource })
    &&& m1.regs == spec_set(m0.regs, resource, Registration::Armed { token: t, interest })
    &&& m1.tasks == m0.tasks
    &&& m1.queue == m0.queue
    &&& m1.wakers.valid(t)
    &&& m1.wakers.value_at(t) == (WakerEntry { task, resource })
    &&& !m0.wakers.valid(t)
    &&& m1.regs.valid(resource)
    &&& m1.regs.value_at(resource) == (Registration::Armed { token: t, interest })
    &&& match reg_token(m0.regs.value_at(resource)) {
        Some(t0) => t0 != t && !m1.wakers.valid(t0),
        None => true,
    }
}

/// Model of dropping `resource`'s registration together with any token it
/// was armed with.
pub open spec fn deregister_t(m: ReactorModel, resource: Key) -> ReactorModel {
    if !m.regs.valid(resource) {
        m
    } else {
        ReactorModel {
            tasks: m.tasks,
            wakers: match reg_token(m.regs.value_at(resource)) {
                Some(t0) => spec_remove(m.wakers, t0),
                None => m.wakers,
            },
            regs: spec_remove(m.regs, resource),
            queue: m.queue,
        }
    }
}

/// A fired event for `token` is acted on only while the token is
/// outstanding, its resource is armed with exactly this token, and the
/// reported readiness satisfies the armed interest.
pub open spec fn deliverable(m: ReactorModel, token: Key, readiness: Readiness) -> bool {
    &&& m.wakers.valid(token)
    &&& m.regs.valid(m.wakers.value_at(token).resource)
    &&& reg_token(m.regs.value_at(m.wakers.value_at(token).resource)) == Some(token)
    &&& readiness.satisfies_spec(reg_interest(m.regs.value_at(m.wakers.value_at(token).resource)))
}

/// Model of acting on one fired event: the oneshot token is consumed, the
/// registration goes idle, and the owning task is queued if still live (a
/// tombstoned task's slot is reclaimed instead).
pub open spec fn deliver_t(m: ReactorModel, token: Key, readiness: Readiness) -> ReactorModel {
    if !deliverable(m, token, readiness) {
        m
    } else {
        let e = m.wakers.value_at(token);
        ReactorModel {
            tasks: if m.tasks.valid(e.task) && m.tasks.value_at(e.task) == TaskStatus::Retired {
                spec_remove(m.tasks, e.task)
            } else {
                m.tasks
            },
            wakers: spec_remove(m.wakers, token),
            regs: spec_set(m.regs, e.resource, Registration::Idle),
            queue: if m.tasks.valid(e.task) && m.tasks.value_at(e.task) == TaskStatus::Live {
                m.queue.push(e.task)
            } else {
                m.queue
            },
        }
    }
}

/// The task an event for `token` queues for resumption, if any.
pub open spec fn deliver_woken(m: ReactorModel, token: Key, readiness: Readiness) -> Option<Key> {
    if deliverable(m, token, readiness) && m.tasks.valid(m.wakers.value_at(token).task)
        && m.tasks.value_at(m.wakers.value_at(token).task) == TaskStatus::Live {
        Some(m.wakers.value_at(token).task)
    } else {
        None
    }
}

/// Model of acting on a whole batch of events, in reported order.
pub open spec fn scan_t(m: ReactorModel, events: Seq<Event>) -> ReactorModel
    decreases events.len(),
{
    if events.len() == 0 {
        m
    } else {
        scan_t(
            deliver_t(m, events[0].token, events[0].readiness),
            events.subrange(1, events.len() as int),
        )
    }
}

proof fn lemma_scan_snoc(m: ReactorModel, events: Seq<Event>, e: Event)
    ensures
        scan_t(m, events.push(e)) == deliver_t(scan_t(m, events), e.token, e.readiness),
    decreases events.len(),
{
    if events.len() == 0 {
        let m1 = deliver_t(m, e.token, e.readiness);
        assert(events.push(e)[0] == e);
        assert(events.push(e).subrange(1, 1) =~= Seq::<Event>::empty());
        assert(scan_t(m, events.push(e)) == scan_t(m1, events.push(e).subrange(1, 1)));
        assert(scan_t(m1, events.push(e).subrange(1, 1)) == m1);
        assert(scan_t(m, events) == m);
    } else {
        assert(events.push(e)[0] == events[0]);
        assert(events.push(e).subrange(1, events.len() as int + 1) =~= events.subrange(
            1,
            events.len() as int,
        ).push(e));
        lemma_scan_snoc(
            deliver_t(m, events[0].token, events[0].readiness),
            events.subrange(1, events.len() as int),
            e,
        );
    }
}

/// Model of the drain step: everything queued up to and including the first
/// still-live task is dequeued, and that task (if any) is handed out.
pub open spec fn drain_next_t(tasks: StorageModel<TaskStatus>, queue: Seq<Key>) -> (Seq<Key>, Option<
    Key,
>)
    decreases queue.len(),
{
    if queue.len() == 0 {
        (queue, None::<Key>)
    } else {
        let h = queue[0];
        let rest = queue.subrange(1, queue.len() as int);
        if tasks.valid(h) && tasks.value_at(h) == TaskStatus::Live {
            (rest, Some(h))
        } else {
            drain_next_t(tasks, rest)
        }
    }
}

/// Model of reporting one poll's outcome: a live task that reported ready is
/// removed from the arena; any other report changes nothing.
pub open spec fn report_t(m: ReactorModel, task: Key, outcome: PollOutcome) -> ReactorModel {
    if outcome == PollOutcome::Ready && m.tasks.valid(task) && m.tasks.value_at(task)
        == TaskStatus::Live {
        ReactorModel {
            tasks: spec_remove(m.tasks, task),
            wakers: m.wakers,
            regs: m.regs,
            queue: m.queue,
        }
    } else {
        m
    }
}

impl Reactor {
    /// Report the outcome of polling `task`: `Ready` removes the task from
    /// the arena and the live count (its slot may later be reused, its old
    /// handles go stale); `Pending` leaves it awaiting a future wake.
    /// Reports for tasks that are not live change nothing — the live count
    /// can never be decremented past zero.
    pub fn report_poll(&mut self, task: Key, outcome: PollOutcome) -> (finished: bool)
        requires
            old(self).inv(),
        ensures
            final(self).inv(),
            final(self)@ == report_t(old(self)@, task, outcome),
            finished == (outcome == PollOutcome::Ready && old(self)@.tasks.valid(task) && old(
                self,
            )@.tasks.value_at(task) == TaskStatus::Live),
    {
        let ghost m0 = self@;
        match outcome {
            PollOutcome::Pending => false,
            PollOutcome::Ready => {
                let live = match self.tasks.get_ref(task) {
                    Some(s) => match *s {
                        TaskStatus::Live => true,
                        TaskStatus::Retired => false,
                    },
                    None => false,
                };
                if live {
                    let _ = self.tasks.remove(task);
                    proof {
                        lemma_live_tasks_update(m0.tasks.slots, task.index as int, None);
                        lemma_live_tasks_lower_bound(m0.tasks.slots, task.index as int);
                        assert(self@ =~= report_t(m0, task, outcome));
                    }
                    self.counter = self.counter - 1;
                    true
                } else {
                    false
                }
            },
        }
    }
}

} // verus!
