//! Scenario tests driving the scheduler's bookkeeping the way a host does:
//! each context switch the scheduler asks for is a point where the host
//! would save and resume machine states, and the next call continues on
//! behalf of the actor then at the front of the ready queue.

use green_actors::ReceiveOutcome;
use green_actors::RetireNext;
use green_actors::Scheduler;
use green_actors::StackRegion;
use green_actors::SwitchDecision;

const TRAMPOLINE: u64 = 0x4000;

fn stack(base: u64) -> StackRegion {
    StackRegion::new(base, 8192)
}

#[test]
fn bootstrap_makes_one_ready_actor() {
    let mut s = Scheduler::new(TRAMPOLINE);
    assert!(!s.is_active());
    let a = s.spawn_from_main(1, stack(0x10000));
    assert!(s.is_active());
    assert_eq!(s.ready_len(), 1);
    assert_eq!(s.live_len(), 1);
    assert_eq!(s.waiting_len(), 0);
    assert_eq!(s.mailbox_len(), 0);
    assert_eq!(s.front_id(), Some(a));
    let c = s.front();
    assert_eq!(c.thread_id, a);
    assert_eq!(c.entry, 1);
    assert_eq!(c.get_regs().x30, TRAMPOLINE);
    assert_eq!(c.get_regs().sp, 0x10000 + 8192);
}

#[test]
fn schedule_alone_is_a_no_op() {
    let mut s = Scheduler::new(TRAMPOLINE);
    let a = s.spawn_from_main(1, stack(0x10000));
    assert_eq!(s.schedule(), SwitchDecision::Stay);
    assert_eq!(s.front_id(), Some(a));
    assert_eq!(s.ready_len(), 1);
}

#[test]
fn spawn_appends_and_yields() {
    let mut s = Scheduler::new(TRAMPOLINE);
    let a = s.spawn_from_main(1, stack(0x10000));
    let (b, d) = s.spawn(2, stack(0x20000));
    assert_ne!(a, b);
    // the spawner yields: save the spawner, resume the new front
    assert_eq!(d, SwitchDecision::Switch { save_id: a, resume_id: b });
    assert_eq!(s.ready_len(), 2);
    assert_eq!(s.live_len(), 2);
    assert_eq!(s.front_id(), Some(b));
}

#[test]
fn spawned_ids_are_distinct() {
    let mut s = Scheduler::new(TRAMPOLINE);
    let mut ids = vec![s.spawn_from_main(0, stack(0x10000))];
    for i in 0..8u64 {
        let (id, _) = s.spawn(i, stack(0x20000 + i * 0x10000));
        ids.push(id);
    }
    for i in 0..ids.len() {
        for j in 0..i {
            assert_ne!(ids[i], ids[j]);
        }
    }
    assert_eq!(s.live_len(), 9);
}

#[test]
fn round_robin_cycles_all_actors() {
    let mut s = Scheduler::new(TRAMPOLINE);
    let a = s.spawn_from_main(1, stack(0x10000));
    let (b, _) = s.spawn(2, stack(0x20000));
    let (c, _) = s.spawn(3, stack(0x30000));
    assert_eq!(s.ready_len(), 3);
    // record who runs over two full cycles of scheduling passes
    let mut fronts = Vec::new();
    for _ in 0..6 {
        fronts.push(s.front_id().unwrap());
        let d = s.schedule();
        assert!(matches!(d, SwitchDecision::Switch { .. }));
    }
    // each of the three actors runs exactly once per cycle ...
    for id in [a, b, c] {
        assert_eq!(fronts[0..3].iter().filter(|x| **x == id).count(), 1);
        assert_eq!(fronts[3..6].iter().filter(|x| **x == id).count(), 1);
    }
    // ... and the second cycle repeats the first cycle's order
    assert_eq!(fronts[0..3], fronts[3..6]);
}

#[test]
fn mailbox_is_fifo_per_actor() {
    let mut s = Scheduler::new(TRAMPOLINE);
    let a = s.spawn_from_main(1, stack(0x10000));
    s.send(a, 11);
    // scheduling rounds in between do not disturb the mailbox
    s.schedule();
    s.send(a, 22);
    s.schedule();
    s.send(a, 33);
    assert_eq!(s.mailbox_len(), 1);
    assert_eq!(s.receive(), ReceiveOutcome::Message(11));
    assert_eq!(s.receive(), ReceiveOutcome::Message(22));
    assert_eq!(s.receive(), ReceiveOutcome::Message(33));
    // the drained entry is pruned
    assert_eq!(s.mailbox_len(), 0);
    assert_eq!(s.receive(), ReceiveOutcome::Deadlock);
}

#[test]
fn send_wakes_a_waiting_actor_once() {
    let mut s = Scheduler::new(TRAMPOLINE);
    let a = s.spawn_from_main(1, stack(0x10000));
    let (b, _) = s.spawn(2, stack(0x20000));
    // b is at the front and blocks: no message, another actor is ready
    assert_eq!(s.receive(), ReceiveOutcome::Blocked { resume_id: a });
    assert_eq!(s.waiting_len(), 1);
    assert_eq!(s.ready_len(), 1);
    // first send wakes b
    s.send(b, 7);
    assert_eq!(s.waiting_len(), 0);
    assert_eq!(s.ready_len(), 2);
    // second send to the already-ready b only queues the message
    s.send(b, 8);
    assert_eq!(s.waiting_len(), 0);
    assert_eq!(s.ready_len(), 2);
    assert_eq!(s.live_len(), 2);
    // b re-checks its mailbox after being woken and finds the messages in order
    s.schedule();
    assert_eq!(s.front_id(), Some(b));
    assert_eq!(s.receive_woken(), Some(7));
    assert_eq!(s.receive(), ReceiveOutcome::Message(8));
}

#[test]
fn send_to_unknown_id_only_queues() {
    let mut s = Scheduler::new(TRAMPOLINE);
    s.spawn_from_main(1, stack(0x10000));
    let d = s.send(999, 5);
    assert_eq!(d, SwitchDecision::Stay);
    assert_eq!(s.ready_len(), 1);
    assert_eq!(s.waiting_len(), 0);
    assert_eq!(s.mailbox_len(), 1);
}

#[test]
fn lone_receive_with_empty_mailbox_is_deadlock() {
    let mut s = Scheduler::new(TRAMPOLINE);
    let a = s.spawn_from_main(1, stack(0x10000));
    // reported at once, nothing hangs, nothing changes
    assert_eq!(s.receive(), ReceiveOutcome::Deadlock);
    assert_eq!(s.ready_len(), 1);
    assert_eq!(s.front_id(), Some(a));
    assert_eq!(s.waiting_len(), 0);
}

#[test]
fn retirement_reclaims_id_and_defers_stack() {
    let mut s = Scheduler::new(TRAMPOLINE);
    let a = s.spawn_from_main(1, stack(0x10000));
    let b_stack = stack(0x20000);
    let (b, _) = s.spawn(2, b_stack);
    // b, at the front, terminates
    let (freed, next) = s.retire();
    assert_eq!(freed, None);
    assert_eq!(next, RetireNext::Actor(a));
    assert_eq!(s.live_len(), 1);
    assert_eq!(s.ready_len(), 1);
    assert_eq!(s.front_id(), Some(a));
    // by the next scheduling decision the stack is handed back for release
    assert!(s.has_deferred());
    assert_eq!(s.drain_deferred(), Some(b_stack));
    assert!(!s.has_deferred());
}

#[test]
fn retiring_the_last_actor_returns_to_main() {
    let mut s = Scheduler::new(TRAMPOLINE);
    let a_stack = stack(0x10000);
    s.spawn_from_main(1, a_stack);
    let (freed, next) = s.retire();
    assert_eq!(freed, None);
    assert_eq!(next, RetireNext::Main);
    assert_eq!(s.ready_len(), 0);
    assert_eq!(s.live_len(), 0);
    let released = s.teardown();
    assert_eq!(released, Some(a_stack));
    assert!(!s.is_active());
}

#[test]
fn two_actor_message_scenario() {
    // A spawns B; A sends 42 to B and exits; B receives 42 and exits;
    // control returns to main with all state cleared.
    let mut s = Scheduler::new(TRAMPOLINE);
    let a_stack = stack(0x10000);
    let b_stack = stack(0x20000);
    let a = s.spawn_from_main(1, a_stack);

    // A runs first and spawns B; the pass asks to save A and resume B.
    let (b, d) = s.spawn(2, b_stack);
    assert_eq!(d, SwitchDecision::Switch { save_id: a, resume_id: b });

    // B runs: nothing pending, A still ready, so B blocks.
    assert_eq!(s.receive(), ReceiveOutcome::Blocked { resume_id: a });

    // A runs: sends 42 to B, which wakes B; the voluntary pass yields to B.
    let d = s.send(b, 42);
    assert_eq!(d, SwitchDecision::Switch { save_id: a, resume_id: b });

    // B re-checks its mailbox after the wake-up and observes 42.
    assert_eq!(s.drain_deferred(), None);
    assert_eq!(s.receive_woken(), Some(42));

    // B's entry function returns: B retires, control goes to A.
    let (freed, next) = s.retire();
    assert_eq!(freed, None);
    assert_eq!(next, RetireNext::Actor(a));

    // A resumes after its send and drains B's stack for release.
    assert_eq!(s.drain_deferred(), Some(b_stack));

    // A's entry function returns: A retires, control goes back to main.
    let (freed, next) = s.retire();
    assert_eq!(freed, None);
    assert_eq!(next, RetireNext::Main);

    // main: teardown releases A's stack and clears the session.
    assert_eq!(s.teardown(), Some(a_stack));
    assert_eq!(s.ready_len(), 0);
    assert_eq!(s.live_len(), 0);
    assert_eq!(s.waiting_len(), 0);
    assert_eq!(s.mailbox_len(), 0);
    assert!(!s.is_active());
    assert!(!s.has_deferred());
}

#[test]
fn saved_states_land_in_the_right_context() {
    let mut s = Scheduler::new(TRAMPOLINE);
    let a = s.spawn_from_main(1, stack(0x10000));
    let (b, _) = s.spawn(2, stack(0x20000));

    // the host saves the rotated actor's state at the back of the ring
    let mut regs = green_actors::Registers::new(0);
    regs.sp = 0xABCD;
    s.save_back(regs);
    s.schedule(); // bring the saved actor (a) to the front again
    assert_eq!(s.front_id(), Some(a));
    assert_eq!(s.front().get_regs().sp, 0xABCD);

    // a blocked actor's state is saved into the waiting table
    s.schedule(); // b to the front
    assert_eq!(s.front_id(), Some(b));
    s.receive(); // b blocks
    let mut regs = green_actors::Registers::new(0);
    regs.sp = 0x1234;
    s.save_waiting(b, regs);
    s.send(b, 1); // wake b: its context moves back to the ready ring
    s.schedule();
    while s.front_id() != Some(b) {
        s.schedule();
    }
    assert_eq!(s.front().get_regs().sp, 0x1234);

    // the main context's state is saved at bootstrap time
    let mut regs = green_actors::Registers::new(0);
    regs.sp = 0x9999;
    s.save_main(regs);
    assert_eq!(s.main_regs().sp, 0x9999);
}
