//! The mathematical model of the scheduler.
//!
//! `SchedModel` is the abstract state every scheduler contract speaks of:
//! the ready queue as a sequence of contexts, the waiting table as a map,
//! the mailbox as per-id message sequences, the live-id set, the deferred
//! stack-release slot, and the saved main context. Each scheduling
//! operation's effect is a pure transition function on this model, and each
//! executable operation of [`crate::Scheduler`] promises that its new state
//! is exactly the corresponding transition of its old state.

use vstd::prelude::*;

use crate::context::Context;
use crate::context::fresh_context;
use crate::mailbox::mailbox_push;
use crate::mailbox::mailbox_tail;
use crate::registers::Registers;
use crate::registers::blank_regs;
use crate::stack::StackRegion;

verus! {

/// The switch a scheduling pass asks the host to perform: nothing (there is
/// no other ready actor), or save the state of the actor with id `save_id`
/// and resume the actor with id `resume_id`.
#[derive(Clone, Copy, PartialEq, Eq, Structural, Debug)]
pub enum SwitchDecision {
    Stay,
    Switch { save_id: u64, resume_id: u64 },
}

/// What a `receive` call found: a pending message, a deadlock (the caller
/// is the only ready actor and has no pending message), or that the caller
/// must block — move to the waiting table, save its state, and resume the
/// actor with id `resume_id`.
#[derive(Clone, Copy, PartialEq, Eq, Structural, Debug)]
pub enum ReceiveOutcome {
    Message(u64),
    Deadlock,
    Blocked { resume_id: u64 },
}

/// Where control goes when an actor terminates: the next ready actor, or
/// back to the main context once no actor is left.
#[derive(Clone, Copy, PartialEq, Eq, Structural, Debug)]
pub enum RetireNext {
    Actor(u64),
    Main,
}

/// The abstract state of one runtime session.
#[verifier::ext_equal]
pub ghost struct SchedModel {
    /// The round-robin ring; the front entry is the running actor.
    pub ready: Seq<Context>,
    /// Actors blocked in `receive`, keyed by their id.
    pub waiting: Map<u64, Context>,
    /// Pending messages per actor id, oldest first.
    pub mail: Map<u64, Seq<u64>>,
    /// Ids of all live actors: exactly those in the ready queue or waiting.
    pub live: Set<u64>,
    /// At most one stack region awaiting release, left by a terminated
    /// actor that could not free its own stack while still running on it.
    pub deferred: Option<StackRegion>,
    /// The host's original context, present for the whole session.
    pub main: Option<Registers>,
    /// Address of the entry trampoline every fresh context starts at.
    pub trampoline: u64,
}

/// Whether some context in `s` carries the id `k`.
pub open spec fn ready_has(s: Seq<Context>, k: u64) -> bool {
    exists|i: int| 0 <= i < s.len() && s[i].thread_id == k
}

/// No two contexts in `s` carry the same id.
pub open spec fn distinct_ids(s: Seq<Context>) -> bool {
    forall|i: int, j: int|
        0 <= i < j < s.len() ==> (#[trigger] s[i]).thread_id != (#[trigger] s[j]).thread_id
}

/// The scheduler's invariant.
///
/// - ready-queue ids are distinct, and no ready id is also waiting;
/// - the waiting table keys each blocked context by its own id;
/// - the live-id set holds exactly the ready and waiting ids, and is finite;
/// - an id with no pending message has no mailbox entry;
/// - a waiting actor has no pending message — a send would have woken it;
/// - every live context sits on a valid stack region whose guard page is
///   installed.
pub open spec fn wf(m: SchedModel) -> bool {
    &&& distinct_ids(m.ready)
    &&& forall|k: u64| #[trigger] m.waiting.contains_key(k) ==> m.waiting[k].thread_id == k
    &&& forall|i: int|
        0 <= i < m.ready.len() ==> !m.waiting.contains_key((#[trigger] m.ready[i]).thread_id)
    &&& forall|k: u64| #[trigger]
        m.live.contains(k) <==> ready_has(m.ready, k) || m.waiting.contains_key(k)
    &&& m.live.finite()
    &&& m.waiting.dom().finite()
    &&& forall|k: u64| #[trigger] m.mail.contains_key(k) ==> m.mail[k].len() > 0
    &&& forall|k: u64| #[trigger] m.waiting.contains_key(k) ==> !m.mail.contains_key(k)
    &&& forall|i: int|
        0 <= i < m.ready.len() ==> (#[trigger] m.ready[i]).stack.valid()
            && m.ready[i].stack.guarded
    &&& forall|k: u64| #[trigger]
        m.waiting.contains_key(k) ==> m.waiting[k].stack.valid() && m.waiting[k].stack.guarded
}

/// One round-robin rotation of a sequence: the front moves to the back.
/// A sequence of at most one element is left as it is.
pub open spec fn rotate_seq(s: Seq<Context>) -> Seq<Context> {
    if s.len() <= 1 {
        s
    } else {
        s.drop_first().push(s[0])
    }
}

/// A scheduling pass: rotate the ready ring; everything else is untouched.
pub open spec fn rotate_step(m: SchedModel) -> SchedModel {
    SchedModel { ready: rotate_seq(m.ready), ..m }
}

/// The switch a scheduling pass on state `m` asks for: nothing when at most
/// one actor is ready, otherwise save the front actor (now rotated to the
/// back) and resume the previously second actor.
pub open spec fn rotate_decision(m: SchedModel) -> SwitchDecision {
    if m.ready.len() <= 1 {
        SwitchDecision::Stay
    } else {
        SwitchDecision::Switch {
            save_id: m.ready[0].thread_id,
            resume_id: m.ready[1].thread_id,
        }
    }
}

/// Sending `msg` to `key`: the message joins `key`'s mailbox queue; if and
/// only if `key` is blocked in the waiting table, its context moves to the
/// back of the ready queue (the wake-up). A second send to an id that is
/// already ready only appends the message.
pub open spec fn send_step(m: SchedModel, key: u64, msg: u64) -> SchedModel {
    let mail = mailbox_push(m.mail, key, msg);
    if m.waiting.contains_key(key) {
        SchedModel {
            mail,
            ready: m.ready.push(m.waiting[key]),
            waiting: m.waiting.remove(key),
            ..m
        }
    } else {
        SchedModel { mail, ..m }
    }
}

/// What `receive` does to the state, for the actor at the front of the
/// ready queue: consume its oldest pending message if it has one; otherwise,
/// if it is the only ready actor, report deadlock and leave the state alone;
/// otherwise move it from the ready queue into the waiting table.
pub open spec fn receive_step(m: SchedModel) -> SchedModel {
    let key = m.ready[0].thread_id;
    if m.mail.contains_key(key) {
        SchedModel { mail: mailbox_tail(m.mail, key), ..m }
    } else if m.ready.len() == 1 {
        m
    } else {
        SchedModel {
            ready: m.ready.drop_first(),
            waiting: m.waiting.insert(key, m.ready[0]),
            ..m
        }
    }
}

/// What `receive` reports for state `m`.
pub open spec fn receive_outcome(m: SchedModel) -> ReceiveOutcome {
    let key = m.ready[0].thread_id;
    if m.mail.contains_key(key) {
        ReceiveOutcome::Message(m.mail[key][0])
    } else if m.ready.len() == 1 {
        ReceiveOutcome::Deadlock
    } else {
        ReceiveOutcome::Blocked { resume_id: m.ready[1].thread_id }
    }
}

/// Spawning a fresh actor with the unused id `id`: its context joins the
/// back of the ready queue and its id becomes live.
pub open spec fn spawn_step(m: SchedModel, id: u64, entry: u64, stack: StackRegion) -> SchedModel {
    SchedModel {
        ready: m.ready.push(fresh_context(entry, m.trampoline, stack, id)),
        live: m.live.insert(id),
        ..m
    }
}

/// Termination of the front actor: it leaves the ready queue, its id leaves
/// the live set, and its stack takes the deferred-release slot — it cannot
/// be freed synchronously, the terminating code still runs on it.
pub open spec fn retire_step(m: SchedModel) -> SchedModel {
    SchedModel {
        ready: m.ready.drop_first(),
        live: m.live.remove(m.ready[0].thread_id),
        deferred: Some(m.ready[0].stack),
        ..m
    }
}

/// Where control goes after the front actor of `m` terminates.
pub open spec fn retire_next(m: SchedModel) -> RetireNext {
    if m.ready.len() > 1 {
        RetireNext::Actor(m.ready[1].thread_id)
    } else {
        RetireNext::Main
    }
}

/// Bootstrap: a fresh session whose only actor is the first spawned one,
/// with the main context saved and every table empty.
pub open spec fn bootstrap_step(m: SchedModel, id: u64, entry: u64, stack: StackRegion) -> SchedModel {
    SchedModel {
        ready: seq![fresh_context(entry, m.trampoline, stack, id)],
        waiting: Map::empty(),
        mail: Map::empty(),
        live: Set::empty().insert(id),
        deferred: None,
        main: Some(blank_regs(0)),
        trampoline: m.trampoline,
    }
}

/// Teardown: every table cleared, the deferred slot drained, the main
/// context forgotten; the session is over.
pub open spec fn teardown_step(m: SchedModel) -> SchedModel {
    SchedModel {
        ready: Seq::empty(),
        waiting: Map::empty(),
        mail: Map::empty(),
        live: Set::empty(),
        deferred: None,
        main: None,
        trampoline: m.trampoline,
    }
}

/// Rotation is a permutation: the same ids are ready before and after.
pub proof fn lemma_rotate_has(s: Seq<Context>, k: u64)
    ensures
        ready_has(rotate_seq(s), k) <==> ready_has(s, k),
{
    if s.len() <= 1 {
    } else {
        let r = rotate_seq(s);
        if ready_has(s, k) {
            let i = choose|i: int| 0 <= i < s.len() && s[i].thread_id == k;
            if i == 0 {
                assert(r[s.len() - 1] == s[0]);
            } else {
                assert(r[i - 1] == s[i]);
            }
        }
        if ready_has(r, k) {
            let i = choose|i: int| 0 <= i < r.len() && r[i].thread_id == k;
            if i == r.len() - 1 {
                assert(r[i] == s[0]);
            } else {
                assert(r[i] == s[i + 1]);
            }
        }
    }
}

/// A scheduling pass preserves the invariant: rotation never adds, drops or
/// duplicates an actor.
pub proof fn lemma_wf_rotate(m: SchedModel)
    requires
        wf(m),
    ensures
        wf(rotate_step(m)),
{
    let s = m.ready;
    if s.len() <= 1 {
    } else {
        let r = rotate_seq(s);
        assert forall|i: int, j: int| 0 <= i < j < r.len() implies
            (#[trigger] r[i]).thread_id != (#[trigger] r[j]).thread_id by {
            if j == r.len() - 1 {
                assert(r[i] == s[i + 1] && r[j] == s[0]);
            } else {
                assert(r[i] == s[i + 1] && r[j] == s[j + 1]);
            }
        }
        assert forall|i: int| 0 <= i < r.len() implies
            !m.waiting.contains_key((#[trigger] r[i]).thread_id) && r[i].stack.valid()
                && r[i].stack.guarded by {
            if i == r.len() - 1 {
                assert(r[i] == s[0]);
            } else {
                assert(r[i] == s[i + 1]);
            }
        }
        assert forall|k: u64| #[trigger] m.live.contains(k)
            <==> ready_has(r, k) || m.waiting.contains_key(k) by {
            lemma_rotate_has(s, k);
        }
    }
}

/// Sending preserves the invariant. In particular a woken context moves —
/// it never ends up both ready and waiting — and an id that is not waiting
/// moves nothing.
pub proof fn lemma_wf_send(m: SchedModel, key: u64, msg: u64)
    requires
        wf(m),
    ensures
        wf(send_step(m, key, msg)),
{
    let m2 = send_step(m, key, msg);
    assert forall|k: u64| #[trigger] m2.mail.contains_key(k) implies m2.mail[k].len() > 0 by {
        if k != key {
            assert(m.mail.contains_key(k) && m2.mail[k] == m.mail[k]);
        }
    }
    assert forall|k: u64| #[trigger] m2.waiting.contains_key(k) implies !m2.mail.contains_key(k) by {
        assert(m.waiting.contains_key(k) && k != key);
        assert(m2.mail.contains_key(k) == m.mail.contains_key(k));
    }
    if m.waiting.contains_key(key) {
        let s = m.ready;
        let w = m.waiting[key];
        let r = m2.ready;
        assert(forall|i: int| 0 <= i < s.len() ==> (#[trigger] s[i]).thread_id != key);
        assert forall|k: u64| #[trigger] m2.live.contains(k)
            <==> ready_has(r, k) || m2.waiting.contains_key(k) by {
            if ready_has(r, k) {
                let i = choose|i: int| 0 <= i < r.len() && r[i].thread_id == k;
                if i < s.len() {
                    assert(s[i].thread_id == k);
                } else {
                    assert(r[i] == w);
                }
            }
            if ready_has(s, k) {
                let i = choose|i: int| 0 <= i < s.len() && s[i].thread_id == k;
                assert(r[i].thread_id == k);
            }
            if k == key {
                assert(r[s.len() as int] == w);
            }
        }
    }
}

/// A `receive` step preserves the invariant, whichever of the three paths
/// it takes: consuming a message, reporting deadlock, or blocking the
/// caller into the waiting table.
pub proof fn lemma_wf_receive(m: SchedModel)
    requires
        wf(m),
        m.ready.len() > 0,
    ensures
        wf(receive_step(m)),
{
    let key = m.ready[0].thread_id;
    let m2 = receive_step(m);
    if m.mail.contains_key(key) {
        assert forall|k: u64| #[trigger] m2.mail.contains_key(k) implies m2.mail[k].len() > 0 by {
            if k != key {
                assert(m.mail.contains_key(k) && m2.mail[k] == m.mail[k]);
            }
        }
    } else if m.ready.len() == 1 {
    } else {
        let s = m.ready;
        let r = m2.ready;
        assert(forall|i: int| 0 <= i < r.len() ==> r[i] == s[i + 1]);
        assert forall|k: u64| #[trigger] m2.live.contains(k)
            <==> ready_has(r, k) || m2.waiting.contains_key(k) by {
            if ready_has(r, k) {
                let i = choose|i: int| 0 <= i < r.len() && r[i].thread_id == k;
                assert(s[i + 1].thread_id == k);
            }
            if ready_has(s, k) {
                let i = choose|i: int| 0 <= i < s.len() && s[i].thread_id == k;
                if i > 0 {
                    assert(r[i - 1].thread_id == k);
                }
            }
        }
    }
}

/// Spawning with an unused id preserves the invariant.
pub proof fn lemma_wf_spawn(m: SchedModel, id: u64, entry: u64, stack: StackRegion)
    requires
        wf(m),
        !m.live.contains(id),
        stack.valid(),
        stack.guarded,
    ensures
        wf(spawn_step(m, id, entry, stack)),
{
    let m2 = spawn_step(m, id, entry, stack);
    let s = m.ready;
    let r = m2.ready;
    assert(!ready_has(s, id) && !m.waiting.contains_key(id));
    assert(forall|i: int| 0 <= i < s.len() ==> (#[trigger] s[i]).thread_id != id);
    assert(r[s.len() as int].thread_id == id);
    assert forall|k: u64| #[trigger] m2.live.contains(k)
        <==> ready_has(r, k) || m2.waiting.contains_key(k) by {
        if ready_has(r, k) && k != id {
            let i = choose|i: int| 0 <= i < r.len() && r[i].thread_id == k;
            assert(s[i].thread_id == k);
        }
        if ready_has(s, k) {
            let i = choose|i: int| 0 <= i < s.len() && s[i].thread_id == k;
            assert(r[i].thread_id == k);
        }
    }
}

/// Termination of the front actor preserves the invariant; afterwards its
/// id is nowhere: not live, not ready, not waiting.
pub proof fn lemma_wf_retire(m: SchedModel)
    requires
        wf(m),
        m.ready.len() > 0,
    ensures
        wf(retire_step(m)),
        !retire_step(m).live.contains(m.ready[0].thread_id),
        !ready_has(retire_step(m).ready, m.ready[0].thread_id),
        !retire_step(m).waiting.contains_key(m.ready[0].thread_id),
{
    let id = m.ready[0].thread_id;
    let m2 = retire_step(m);
    let s = m.ready;
    let r = m2.ready;
    assert(forall|i: int| 0 <= i < r.len() ==> r[i] == s[i + 1]);
    assert forall|k: u64| #[trigger] m2.live.contains(k)
        <==> ready_has(r, k) || m2.waiting.contains_key(k) by {
        if ready_has(r, k) {
            let i = choose|i: int| 0 <= i < r.len() && r[i].thread_id == k;
            assert(s[i + 1].thread_id == k);
        }
        if k != id && ready_has(s, k) {
            let i = choose|i: int| 0 <= i < s.len() && s[i].thread_id == k;
            assert(i != 0);
            assert(r[i - 1].thread_id == k);
        }
    }
    if ready_has(r, id) {
        let i = choose|i: int| 0 <= i < r.len() && r[i].thread_id == id;
        assert(s[i + 1].thread_id == id && s[0].thread_id == id);
        assert(false);
    }
}

/// Rewriting only the saved registers of a context — at any ready position,
/// or of a waiting context — preserves the invariant: ids and stacks are
/// untouched.
pub proof fn lemma_wf_update_regs(m: SchedModel, i: int, regs: Registers)
    requires
        wf(m),
        0 <= i < m.ready.len(),
    ensures
        wf(SchedModel { ready: m.ready.update(i, (Context { regs, ..m.ready[i] })), ..m }),
{
    let r = m.ready.update(i, (Context { regs, ..m.ready[i] }));
    assert(forall|j: int|
        0 <= j < r.len() ==> (#[trigger] r[j]).thread_id == m.ready[j].thread_id && r[j].stack
            == m.ready[j].stack);
    assert forall|k: u64| #[trigger] m.live.contains(k)
        <==> ready_has(r, k) || m.waiting.contains_key(k) by {
        if ready_has(r, k) {
            let j = choose|j: int| 0 <= j < r.len() && r[j].thread_id == k;
            assert(m.ready[j].thread_id == k);
        }
        if ready_has(m.ready, k) {
            let j = choose|j: int| 0 <= j < m.ready.len() && m.ready[j].thread_id == k;
            assert(r[j].thread_id == k);
        }
    }
}

} // verus!
