//! The runtime's laws, proved once and for all over the abstract model.
//!
//! Each law is stated over the transition functions of [`crate::model`],
//! which every executable scheduler operation is contractually pinned to,
//! so these proofs carry over to any run of the executable scheduler.

use vstd::prelude::*;

use crate::context::Context;
use crate::mailbox::mailbox_head;
use crate::mailbox::mailbox_push;
use crate::mailbox::mailbox_tail;
use crate::model::ReceiveOutcome;
use crate::model::SchedModel;
use crate::model::lemma_wf_retire;
use crate::model::ready_has;
use crate::model::receive_outcome;
use crate::model::receive_step;
use crate::model::retire_step;
use crate::model::rotate_seq;
use crate::model::rotate_step;
use crate::model::send_step;
use crate::model::wf;

verus! {

/// The ready ring after `n` scheduling passes.
pub open spec fn rotate_n(s: Seq<Context>, n: nat) -> Seq<Context>
    decreases n,
{
    if n == 0 {
        s
    } else {
        rotate_seq(rotate_n(s, (n - 1) as nat))
    }
}

/// After `k` passes the ring is split exactly at `k`: the actors from
/// position `k` on come first, the first `k` actors follow.
proof fn lemma_rotate_n_split(s: Seq<Context>, k: int)
    requires
        0 <= k <= s.len(),
    ensures
        rotate_n(s, k as nat) == s.subrange(k, s.len() as int) + s.subrange(0, k),
    decreases k,
{
    if k == 0 {
        assert(rotate_n(s, 0) =~= s.subrange(0, s.len() as int) + s.subrange(0, 0));
    } else {
        lemma_rotate_n_split(s, k - 1);
        let prev = s.subrange(k - 1, s.len() as int) + s.subrange(0, k - 1);
        if s.len() <= 1 {
            assert(prev =~= s);
            assert(rotate_seq(prev) =~= s.subrange(k, s.len() as int) + s.subrange(0, k));
        } else {
            assert(prev[0] == s[k - 1]);
            assert(rotate_seq(prev) =~= s.subrange(k, s.len() as int) + s.subrange(0, k));
        }
    }
}

/// Round-robin fairness. With every ready actor taking one scheduling pass
/// per loop iteration and no messaging, the front of the ring — the actor
/// that runs — after `k` passes is exactly the one that started at
/// position `k`, and one full cycle of passes returns the ring to its
/// starting order. So every actor runs its iteration of a cycle exactly
/// once before any actor starts the next cycle.
pub proof fn lemma_round_robin(s: Seq<Context>, k: int)
    requires
        0 <= k < s.len(),
    ensures
        rotate_n(s, k as nat)[0] == s[k],
        rotate_n(s, s.len()) == s,
{
    lemma_rotate_n_split(s, k);
    assert(rotate_n(s, k as nat)[0] == s.subrange(k, s.len() as int)[0]);
    lemma_rotate_n_split(s, s.len() as int);
    assert(rotate_n(s, s.len()) =~= s);
}

/// A scheduling pass touches only the order of the ready ring: mailbox,
/// waiting table, live-id set and deferred slot all stay as they are.
pub proof fn lemma_schedule_only_rotates(m: SchedModel)
    ensures
        rotate_step(m).mail == m.mail,
        rotate_step(m).waiting == m.waiting,
        rotate_step(m).live == m.live,
        rotate_step(m).deferred == m.deferred,
{
}

/// Mailbox FIFO order. Messages sent to one actor in the order `m1`, `m2`,
/// `m3` are received in exactly that order, and the drained mailbox entry
/// is pruned. Scheduling passes in between change nothing: see
/// [`lemma_schedule_only_rotates`].
pub proof fn lemma_mailbox_fifo(m: Map<u64, Seq<u64>>, key: u64, m1: u64, m2: u64, m3: u64)
    requires
        !m.contains_key(key),
    ensures
        ({
            let a = mailbox_push(mailbox_push(mailbox_push(m, key, m1), key, m2), key, m3);
            let b = mailbox_tail(a, key);
            let c = mailbox_tail(b, key);
            &&& mailbox_head(a, key) == Some(m1)
            &&& mailbox_head(b, key) == Some(m2)
            &&& mailbox_head(c, key) == Some(m3)
            &&& !mailbox_tail(c, key).contains_key(key)
        }),
{
    let a = mailbox_push(mailbox_push(mailbox_push(m, key, m1), key, m2), key, m3);
    assert(a[key] =~= seq![m1, m2, m3]);
    let b = mailbox_tail(a, key);
    assert(b[key] =~= seq![m2, m3]);
    let c = mailbox_tail(b, key);
    assert(c[key] =~= seq![m3]);
}

/// How often id `k` occurs in the ring.
pub open spec fn id_count(s: Seq<Context>, k: u64) -> nat
    decreases s.len(),
{
    if s.len() == 0 {
        0
    } else {
        id_count(s.drop_last(), k) + (if s.last().thread_id == k {
            1nat
        } else {
            0nat
        })
    }
}

/// A ring without id `k` counts `k` zero times.
proof fn lemma_id_count_zero(s: Seq<Context>, k: u64)
    requires
        forall|i: int| 0 <= i < s.len() ==> (#[trigger] s[i]).thread_id != k,
    ensures
        id_count(s, k) == 0,
    decreases s.len(),
{
    if s.len() > 0 {
        lemma_id_count_zero(s.drop_last(), k);
    }
}

/// No double wake. The first send to a waiting actor moves its context to
/// the back of the ready ring and out of the waiting table; a second send
/// to the same id while it is still ready only appends the message — it
/// moves no context, and the actor sits in the ring exactly once. Both
/// messages are queued in order.
pub proof fn lemma_no_double_wake(m: SchedModel, key: u64, msg1: u64, msg2: u64)
    requires
        wf(m),
        m.waiting.contains_key(key),
    ensures
        ({
            let m1 = send_step(m, key, msg1);
            let m2 = send_step(m1, key, msg2);
            &&& m1.ready == m.ready.push(m.waiting[key])
            &&& !m1.waiting.contains_key(key)
            &&& m2.ready == m1.ready
            &&& m2.waiting == m1.waiting
            &&& id_count(m2.ready, key) == 1
            &&& m2.mail[key] == seq![msg1, msg2]
        }),
{
    let m1 = send_step(m, key, msg1);
    let m2 = send_step(m1, key, msg2);
    let w = m.waiting[key];
    assert(forall|i: int| 0 <= i < m.ready.len() ==> (#[trigger] m.ready[i]).thread_id != key);
    lemma_id_count_zero(m.ready, key);
    assert(m1.ready.drop_last() =~= m.ready);
    assert(m1.ready.last() == w && w.thread_id == key);
    assert(!m.mail.contains_key(key));
    assert(m2.mail[key] =~= seq![msg1, msg2]);
}

/// Termination reclaims resources. When the running actor retires, its id
/// leaves the live set and appears in neither the ready ring nor the
/// waiting table, and its stack sits in the deferred-release slot — so the
/// next drain of the slot, taken at the start of the next scheduling
/// decision, hands exactly this stack back for release.
pub proof fn lemma_termination_reclaims(m: SchedModel)
    requires
        wf(m),
        m.ready.len() > 0,
    ensures
        ({
            let id = m.ready[0].thread_id;
            let m1 = retire_step(m);
            &&& !m1.live.contains(id)
            &&& !ready_has(m1.ready, id)
            &&& !m1.waiting.contains_key(id)
            &&& m1.deferred == Some(m.ready[0].stack)
        }),
{
    lemma_wf_retire(m);
}

/// Deadlock detection. A lone ready actor calling `receive` with nothing
/// pending is reported as a deadlock at once — the state does not change
/// and nothing hangs.
pub proof fn lemma_lone_receive_deadlocks(m: SchedModel)
    requires
        wf(m),
        m.ready.len() == 1,
        !m.mail.contains_key(m.ready[0].thread_id),
    ensures
        receive_outcome(m) == ReceiveOutcome::Deadlock,
        receive_step(m) == m,
{
}

} // verus!
