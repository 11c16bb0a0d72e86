//! The guarantees the reactor gives its users, stated and proved over the
//! reactor model: quiescence when every task is ready at once, exactly-once
//! resumption per registration, the oneshot interest law, and the
//! impossibility of decrementing the live count past zero.

use vstd::prelude::*;

use crate::leak_storage::spec_remove;
use crate::leak_storage::Key;
use crate::leak_storage::StorageModel;
use crate::reactor::deliver_t;
use crate::reactor::deliver_woken;
use crate::reactor::drain_next_t;
use crate::reactor::lemma_live_tasks_lower_bound;
use crate::reactor::lemma_live_tasks_none;
use crate::reactor::lemma_live_tasks_update;
use crate::reactor::live_tasks;
use crate::reactor::model_wf;
use crate::reactor::reg_interest;
use crate::reactor::report_t;
use crate::reactor::reregistered;
use crate::reactor::Interest;
use crate::reactor::PollOutcome;
use crate::reactor::ReactorModel;
use crate::reactor::Readiness;
use crate::reactor::TaskStatus;

verus! {

/// Model of the drain phase when every polled task reports ready at once:
/// each queued entry in turn is discarded if no longer live, or polled and
/// removed from the arena.
pub open spec fn drain_all_ready_t(
    tasks: StorageModel<TaskStatus>,
    queue: Seq<Key>,
) -> StorageModel<TaskStatus>
    decreases queue.len(),
{
    if queue.len() == 0 {
        tasks
    } else {
        let h = queue[0];
        let rest = queue.subrange(1, queue.len() as int);
        if tasks.valid(h) && tasks.value_at(h) == TaskStatus::Live {
            drain_all_ready_t(spec_remove(tasks, h), rest)
        } else {
            drain_all_ready_t(tasks, rest)
        }
    }
}

/// One round of the drain loop — take the next resumption, poll it, report
/// ready — agrees with one step of `drain_all_ready_t`: the task handed out
/// is live, and a ready report removes exactly it from the arena (that is
/// what `report_t` does to a live task), so draining round by round computes
/// `drain_all_ready_t`.
pub proof fn lemma_drain_round_ready(tasks: StorageModel<TaskStatus>, queue: Seq<Key>)
    ensures
        ({
            let (q1, next) = drain_next_t(tasks, queue);
            match next {
                Some(h) => tasks.valid(h) && tasks.value_at(h) == TaskStatus::Live
                    && drain_all_ready_t(tasks, queue) == drain_all_ready_t(
                    spec_remove(tasks, h),
                    q1,
                ),
                None => drain_all_ready_t(tasks, queue) == tasks && q1.len() == 0,
            }
        }),
    decreases queue.len(),
{
    if queue.len() > 0 {
        let h = queue[0];
        let rest = queue.subrange(1, queue.len() as int);
        if !(tasks.valid(h) && tasks.value_at(h) == TaskStatus::Live) {
            lemma_drain_round_ready(tasks, rest);
        }
    }
}

/// For any set of tasks that all resolve to ready on their first poll, with
/// no intervening events, draining the queue leaves no live task: the run
/// loop's condition goes false and the arena holds no task. Holds whenever
/// every live task is somewhere in the queue, as it is right after spawning.
pub proof fn lemma_first_poll_quiescence(tasks: StorageModel<TaskStatus>, queue: Seq<Key>)
    requires
        tasks.wf(),
        tasks.slots.len() <= usize::MAX,
        forall|k: Key|
            tasks.valid(k) && tasks.value_at(k) == TaskStatus::Live ==> queue.contains(k),
    ensures
        live_tasks(drain_all_ready_t(tasks, queue).slots) == 0,
    decreases queue.len(),
{
    if queue.len() == 0 {
        assert forall|i: int| 0 <= i < tasks.slots.len() implies tasks.slots[i] != Some(
            TaskStatus::Live,
        ) by {
            if tasks.slots[i] == Some(TaskStatus::Live) {
                let k = Key { index: i as usize, generation: tasks.gens[i] };
                assert(tasks.valid(k));
                assert(queue.contains(k));
            }
        }
        lemma_live_tasks_none(tasks.slots);
    } else {
        let h = queue[0];
        let rest = queue.subrange(1, queue.len() as int);
        if tasks.valid(h) && tasks.value_at(h) == TaskStatus::Live {
            let tasks1 = spec_remove(tasks, h);
            assert forall|k: Key|
                tasks1.valid(k) && tasks1.value_at(k) == TaskStatus::Live implies rest.contains(
                k,
            ) by {
                assert(k.index != h.index);
                assert(tasks.valid(k) && tasks.value_at(k) == TaskStatus::Live);
                let j = choose|j: int| 0 <= j < queue.len() && queue[j] == k;
                assert(j != 0);
                assert(rest[j - 1] == k);
            }
            lemma_first_poll_quiescence(tasks1, rest);
        } else {
            assert forall|k: Key|
                tasks.valid(k) && tasks.value_at(k) == TaskStatus::Live implies rest.contains(
                k,
            ) by {
                let j = choose|j: int| 0 <= j < queue.len() && queue[j] == k;
                assert(j != 0);
                assert(rest[j - 1] == k);
            }
            lemma_first_poll_quiescence(tasks, rest);
        }
    }
}

/// A task pending on one registration is resumed exactly once for it: the
/// first event whose readiness satisfies the armed interest queues the task
/// once and consumes the oneshot token, and a second event for the same
/// token — whatever its readiness — resumes nothing and changes nothing.
pub proof fn lemma_resumed_exactly_once(
    m: ReactorModel,
    token: Key,
    rdy1: Readiness,
    rdy2: Readiness,
)
    requires
        model_wf(m),
        m.wakers.valid(token),
        rdy1.satisfies_spec(reg_interest(m.regs.value_at(m.wakers.value_at(token).resource))),
        m.tasks.valid(m.wakers.value_at(token).task),
        m.tasks.value_at(m.wakers.value_at(token).task) == TaskStatus::Live,
    ensures
        deliver_t(m, token, rdy1).queue == m.queue.push(m.wakers.value_at(token).task),
        deliver_woken(m, token, rdy1) == Some(m.wakers.value_at(token).task),
        deliver_t(deliver_t(m, token, rdy1), token, rdy2) == deliver_t(m, token, rdy1),
        deliver_woken(deliver_t(m, token, rdy1), token, rdy2) is None,
{
    let m1 = deliver_t(m, token, rdy1);
    assert(!m1.wakers.valid(token));
}

/// Oneshot law, one half: while a token is outstanding, readiness that does
/// not satisfy the interest it was armed with resumes nothing and changes
/// nothing.
pub proof fn lemma_unmatched_readiness_ignored(m: ReactorModel, token: Key, rdy: Readiness)
    requires
        m.wakers.valid(token),
        !rdy.satisfies_spec(reg_interest(m.regs.value_at(m.wakers.value_at(token).resource))),
    ensures
        deliver_t(m, token, rdy) == m,
        deliver_woken(m, token, rdy) is None,
{
}

/// Oneshot law, as the adapters meet it: right after a resource is rearmed
/// for readable interest, an unrelated writable-only readiness change for
/// its token resumes nothing and changes nothing — only a readable event, or
/// rearming, moves the reactor.
pub proof fn lemma_oneshot_readable(
    m0: ReactorModel,
    m1: ReactorModel,
    resource: Key,
    task: Key,
    t: Key,
)
    requires
        reregistered(m0, m1, resource, task, Interest::Readable, t),
    ensures
        deliver_t(m1, t, Readiness { readable: false, writable: true }) == m1,
        deliver_woken(m1, t, Readiness { readable: false, writable: true }) is None,
{
    lemma_unmatched_readiness_ignored(m1, t, Readiness { readable: false, writable: true });
}

/// A wake capability whose task is gone resumes nothing: consuming the
/// oneshot token of a completed or cancelled task queues no resumption, so a
/// capability that outlives its task can never reach a reused slot.
pub proof fn lemma_stale_capability_resumes_nothing(m: ReactorModel, token: Key, rdy: Readiness)
    requires
        !(m.tasks.valid(m.wakers.value_at(token).task) && m.tasks.value_at(
            m.wakers.value_at(token).task,
        ) == TaskStatus::Live),
    ensures
        deliver_woken(m, token, rdy) is None,
        deliver_t(m, token, rdy).queue == m.queue,
{
}

/// The live count can never be decremented past zero: a ready report removes
/// only a task that is live, and a live task keeps the count at one or more,
/// whatever interleaving of spawns, would-blocks and events came before. A
/// report for a task that is not live changes nothing.
pub proof fn lemma_no_count_underflow(m: ReactorModel, task: Key, outcome: PollOutcome)
    requires
        m.tasks.wf(),
    ensures
        ({
            let m1 = report_t(m, task, outcome);
            if outcome == PollOutcome::Ready && m.tasks.valid(task) && m.tasks.value_at(task)
                == TaskStatus::Live {
                &&& live_tasks(m.tasks.slots) >= 1
                &&& live_tasks(m1.tasks.slots) == live_tasks(m.tasks.slots) - 1
            } else {
                m1 == m
            }
        }),
{
    if outcome == PollOutcome::Ready && m.tasks.valid(task) && m.tasks.value_at(task)
        == TaskStatus::Live {
        lemma_live_tasks_lower_bound(m.tasks.slots, task.index as int);
        lemma_live_tasks_update(m.tasks.slots, task.index as int, None);
    }
}

} // verus!
