//! Resource-adapter decisions: how stream- and listener-like adapters turn
//! the report of one non-blocking operation into the poll protocol.
//!
//! The syscall itself happens outside the crate; its report arrives here as
//! plain data ([`IoOutcome`], [`AcceptOutcome`]) with the operation's error
//! carried through opaquely. Success becomes a ready poll; would-block arms
//! the resource's oneshot registration with the relevant interest and
//! becomes pending; any other failure is surfaced as that operation's own
//! failure, local to the task and never fatal to the reactor.

use vstd::prelude::*;

use crate::leak_storage::inserted;
use crate::leak_storage::Key;
use crate::reactor::reregistered;
use crate::reactor::Interest;
use crate::reactor::PollOutcome;
use crate::reactor::Reactor;
use crate::reactor::Registration;

verus! {

/// What one non-blocking read or write attempt reported: a byte count, a
/// would-block condition, or any other failure.
#[derive(Clone, Debug, PartialEq, Eq)]
pub enum IoOutcome<E> {
    Done(usize),
    WouldBlock,
    Failed(E),
}

/// The adapter's answer for one read or write poll. `Pending` carries the
/// fresh oneshot token; whoever drives the OS multiplexer attaches it to the
/// resource's registration so the fired event can name it.
#[derive(Clone, Debug, PartialEq, Eq)]
pub enum PollStatus<E> {
    Ready(usize),
    Pending(Key),
    Failed(E),
}

/// What one non-blocking accept attempt reported.
#[derive(Clone, Debug, PartialEq, Eq)]
pub enum AcceptOutcome<E> {
    Accepted,
    WouldBlock,
    Failed(E),
}

/// The adapter's answer for one accept poll: on success, the registration
/// handle for the newly accepted resource; on would-block, the fresh oneshot
/// token, as in [`PollStatus`].
#[derive(Clone, Debug, PartialEq, Eq)]
pub enum AcceptPoll<E> {
    Accepted(Key),
    Pending(Key),
    Failed(E),
}

/// One read poll of a stream-like resource: success yields the byte count
/// read; would-block arms `resource` for readable interest on behalf of
/// `task` and yields pending; any other failure is returned unchanged and
/// leaves the reactor untouched.
pub fn stream_poll_read<E>(
    r: &mut Reactor,
    resource: Key,
    task: Key,
    outcome: IoOutcome<E>,
) -> (p: PollStatus<E>)
    requires
        old(r).inv(),
        old(r)@.regs.valid(resource),
    ensures
        final(r).inv(),
        match outcome {
            IoOutcome::Done(n) => p == PollStatus::<E>::Ready(n) && final(r)@ == old(r)@,
            IoOutcome::WouldBlock => p matches PollStatus::Pending(t) && reregistered(
                old(r)@,
                final(r)@,
                resource,
                task,
                Interest::Readable,
                t,
            ),
            IoOutcome::Failed(e) => p == PollStatus::<E>::Failed(e) && final(r)@ == old(r)@,
        },
{
    match outcome {
        IoOutcome::Done(n) => PollStatus::Ready(n),
        IoOutcome::WouldBlock => {
            let token = r.reregister(resource, task, Interest::Readable);
            match token {
                Some(t) => PollStatus::Pending(t),
                None => unreached(),
            }
        },
        IoOutcome::Failed(e) => PollStatus::Failed(e),
    }
}

/// One write poll of a stream-like resource: as [`stream_poll_read`], with
/// writable interest on would-block.
pub fn stream_poll_write<E>(
    r: &mut Reactor,
    resource: Key,
    task: Key,
    outcome: IoOutcome<E>,
) -> (p: PollStatus<E>)
    requires
        old(r).inv(),
        old(r)@.regs.valid(resource),
    ensures
        final(r).inv(),
        match outcome {
            IoOutcome::Done(n) => p == PollStatus::<E>::Ready(n) && final(r)@ == old(r)@,
            IoOutcome::WouldBlock => p matches PollStatus::Pending(t) && reregistered(
                old(r)@,
                final(r)@,
                resource,
                task,
                Interest::Writable,
                t,
            ),
            IoOutcome::Failed(e) => p == PollStatus::<E>::Failed(e) && final(r)@ == old(r)@,
        },
{
    match outcome {
        IoOutcome::Done(n) => PollStatus::Ready(n),
        IoOutcome::WouldBlock => {
            let token = r.reregister(resource, task, Interest::Writable);
            match token {
                Some(t) => PollStatus::Pending(t),
                None => unreached(),
            }
        },
        IoOutcome::Failed(e) => PollStatus::Failed(e),
    }
}

/// Flushing an adapter is a no-op that completes at once: the adapters
/// buffer nothing.
pub fn stream_poll_flush() -> (p: PollOutcome)
    ensures
        p == PollOutcome::Ready,
{
    PollOutcome::Ready
}

/// Closing an adapter completes at once; the resource itself is released —
/// and thereby deregistered — when the adapter is dropped.
pub fn stream_poll_close() -> (p: PollOutcome)
    ensures
        p == PollOutcome::Ready,
{
    PollOutcome::Ready
}

/// One accept poll of a listener-like resource: an accepted connection is
/// registered with the reactor (a fresh idle registration, so later rearming
/// is uniform) before it is yielded; would-block arms the listener for
/// readable interest and yields pending; any other failure is returned
/// unchanged.
pub fn listener_poll_next<E>(
    r: &mut Reactor,
    resource: Key,
    task: Key,
    outcome: AcceptOutcome<E>,
) -> (p: AcceptPoll<E>)
    requires
        old(r).inv(),
        old(r)@.regs.valid(resource),
    ensures
        final(r).inv(),
        match outcome {
            AcceptOutcome::Accepted => p matches AcceptPoll::Accepted(nr) && {
                &&& inserted(old(r)@.regs, final(r)@.regs, nr, Registration::Idle)
                &&& final(r)@.regs.valid(nr)
                &&& final(r)@.regs.value_at(nr) == Registration::Idle
                &&& !old(r)@.regs.valid(nr)
                &&& final(r)@.tasks == old(r)@.tasks
                &&& final(r)@.wakers == old(r)@.wakers
                &&& final(r)@.queue == old(r)@.queue
            },
            AcceptOutcome::WouldBlock => p matches AcceptPoll::Pending(t) && reregistered(
                old(r)@,
                final(r)@,
                resource,
                task,
                Interest::Readable,
                t,
            ),
            AcceptOutcome::Failed(e) => p == AcceptPoll::<E>::Failed(e) && final(r)@ == old(r)@,
        },
{
    match outcome {
        AcceptOutcome::Accepted => {
            let nr = r.register();
            AcceptPoll::Accepted(nr)
        },
        AcceptOutcome::WouldBlock => {
            let token = r.reregister(resource, task, Interest::Readable);
            match token {
                Some(t) => AcceptPoll::Pending(t),
                None => unreached(),
            }
        },
        AcceptOutcome::Failed(e) => AcceptPoll::Failed(e),
    }
}

} // verus!
