//! Whole-protocol runs driven with scripted and pseudo-random event
//! sequences, standing in for the operating system and the user tasks.

use reactor_core::adapters::listener_poll_next;
use reactor_core::adapters::stream_poll_read;
use reactor_core::adapters::stream_poll_write;
use reactor_core::adapters::AcceptOutcome;
use reactor_core::adapters::AcceptPoll;
use reactor_core::adapters::IoOutcome;
use reactor_core::adapters::PollStatus;
use reactor_core::leak_storage::Key;
use reactor_core::reactor::Interest;
use reactor_core::reactor::PollOutcome;
use reactor_core::reactor::Reactor;
use reactor_core::reactor::Readiness;

fn readable() -> Readiness {
    Readiness { readable: true, writable: false }
}

struct Conn {
    resource: Key,
    task: Key,
    token: Option<Key>,
    waiting: bool,
    echoed: usize,
}

/// An echo service, simulated: a listener accepts N connections, each echoes
/// the M bytes it received. Every connection must see exactly its M bytes
/// back, whatever order events arrive in.
#[test]
fn echo_n_connections_m_bytes() {
    const N: usize = 5;
    const M: usize = 128;
    let mut r = Reactor::new_reactor(16);
    let listener = r.register();
    let ltask = r.do_spawn();
    let mut ltoken: Option<Key> = None;
    let mut conns: Vec<Conn> = Vec::new();
    let mut accepted: usize = 0;

    // each round plays one loop iteration: arrivals fire as events (the
    // scan phase), then every queued task is polled (the drain phase)
    for _round in 0..(4 * N + 4) {
        // one more connection attempt, and data for every armed connection
        if accepted < N {
            if let Some(t) = ltoken.take() {
                assert_eq!(r.deliver(t, readable()), Some(ltask));
            }
        }
        for c in conns.iter_mut() {
            if let Some(t) = c.token.take() {
                assert_eq!(r.deliver(t, readable()), Some(c.task));
            }
        }
        while let Some(task) = r.next_resumption() {
            if task == ltask {
                // the listener task: accept what arrived, then block again
                if accepted < N {
                    let p: AcceptPoll<i32> =
                        listener_poll_next(&mut r, listener, ltask, AcceptOutcome::Accepted);
                    let resource = match p {
                        AcceptPoll::Accepted(nr) => nr,
                        _ => panic!("expected an accepted connection"),
                    };
                    accepted += 1;
                    let task = r.do_spawn();
                    conns.push(Conn { resource, task, token: None, waiting: false, echoed: 0 });
                }
                let p: AcceptPoll<i32> =
                    listener_poll_next(&mut r, listener, ltask, AcceptOutcome::WouldBlock);
                ltoken = match p {
                    AcceptPoll::Pending(t) => Some(t),
                    _ => panic!("expected a pending accept"),
                };
                assert!(!r.report_poll(ltask, PollOutcome::Pending));
            } else {
                // an echo task: first poll finds no data and blocks; the
                // resumption after its data arrived echoes all M bytes
                let c = conns.iter_mut().find(|c| c.task == task).unwrap();
                if !c.waiting {
                    let pr: PollStatus<i32> =
                        stream_poll_read(&mut r, c.resource, task, IoOutcome::WouldBlock);
                    c.token = Some(match pr {
                        PollStatus::Pending(t) => t,
                        _ => panic!("expected a pending read"),
                    });
                    c.waiting = true;
                    assert!(!r.report_poll(task, PollOutcome::Pending));
                } else {
                    let pr: PollStatus<i32> =
                        stream_poll_read(&mut r, c.resource, task, IoOutcome::Done(M));
                    let n = match pr {
                        PollStatus::Ready(n) => n,
                        _ => panic!("expected a completed read"),
                    };
                    let pw: PollStatus<i32> =
                        stream_poll_write(&mut r, c.resource, task, IoOutcome::Done(n));
                    match pw {
                        PollStatus::Ready(written) => c.echoed += written,
                        _ => panic!("expected a completed write"),
                    }
                    assert!(r.report_poll(task, PollOutcome::Ready));
                }
            }
        }
    }

    // every connection was served and got exactly its M bytes back
    assert_eq!(conns.len(), N);
    for c in conns.iter() {
        assert_eq!(c.echoed, M);
    }
    // only the listener task is still live; retiring it quiesces the reactor
    assert_eq!(r.live_task_count(), 1);
    assert!(r.retire(ltask));
    assert_eq!(r.live_task_count(), 0);
}

fn next_rand(seed: &mut u64) -> usize {
    *seed = seed.wrapping_mul(6364136223846793005).wrapping_add(1442695040888963407);
    (*seed >> 33) as usize
}

/// Pseudo-random interleavings of spawns, would-blocks, events, wakes and
/// retirements: the live count always equals the number of live tasks and is
/// never decremented past zero.
#[test]
fn random_interleavings_never_underflow() {
    let mut seed: u64 = 0x00c0ffee;
    let mut r = Reactor::new_reactor(8);
    let mut live: Vec<Key> = Vec::new();
    let mut tokens: Vec<Key> = Vec::new();
    let mut expected_live: usize = 0;
    for _step in 0..5000 {
        match next_rand(&mut seed) % 6 {
            0 => {
                let t = r.do_spawn();
                live.push(t);
                expected_live += 1;
            }
            1 => {
                if let Some(t) = r.next_resumption() {
                    if next_rand(&mut seed) % 2 == 0 {
                        assert!(r.report_poll(t, PollOutcome::Ready));
                        expected_live -= 1;
                        live.retain(|k| *k != t);
                    } else {
                        assert!(!r.report_poll(t, PollOutcome::Pending));
                    }
                }
            }
            2 => {
                if !live.is_empty() {
                    let t = live[next_rand(&mut seed) % live.len()];
                    let resource = r.register();
                    let token = r.reregister(resource, t, Interest::Readable).unwrap();
                    tokens.push(token);
                }
            }
            3 => {
                if !tokens.is_empty() {
                    let token = tokens[next_rand(&mut seed) % tokens.len()];
                    let _ = r.deliver(token, Readiness { readable: true, writable: true });
                }
            }
            4 => {
                if !live.is_empty() {
                    let t = live[next_rand(&mut seed) % live.len()];
                    assert!(r.wake(t));
                } else {
                    let bogus = Key { index: next_rand(&mut seed) % 8, generation: 0 };
                    let _ = r.wake(bogus);
                }
            }
            5 => {
                if !live.is_empty() && next_rand(&mut seed) % 4 == 0 {
                    let t = live[next_rand(&mut seed) % live.len()];
                    assert!(r.retire(t));
                    expected_live -= 1;
                    live.retain(|k| *k != t);
                }
            }
            _ => unreachable!(),
        }
        assert_eq!(r.live_task_count(), expected_live);
    }
    // wind down: everything still queued or live is polled to completion
    while let Some(t) = r.next_resumption() {
        assert!(r.report_poll(t, PollOutcome::Ready));
        expected_live -= 1;
        live.retain(|k| *k != t);
    }
    for t in live {
        assert!(r.retire(t));
        expected_live -= 1;
    }
    assert_eq!(expected_live, 0);
    assert_eq!(r.live_task_count(), 0);
}
