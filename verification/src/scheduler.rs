//! The cooperative round-robin scheduler.
//!
//! A `Scheduler` owns the whole bookkeeping state of one runtime session:
//! the ready queue, the waiting table, the mailbox, the live-id set, the
//! deferred stack-release slot, and the saved main context. Every operation
//! is a pure bookkeeping step whose effect is pinned to a transition
//! function on the abstract model [`SchedModel`]; the actual context switch
//! it asks for is returned as an explicit decision, which the host carries
//! out with its architecture-specific save/resume primitive.

use std::collections::HashMap;
use std::collections::HashSet;
use std::collections::VecDeque;

use vstd::prelude::*;
use vstd::pervasive::unreached;
use vstd::set_lib::lemma_len_subset;

use crate::context::Context;
use crate::mailbox::MappedList;
use crate::mailbox::mailbox_head;
use crate::mailbox::mailbox_tail;
use crate::model::ReceiveOutcome;
use crate::model::RetireNext;
use crate::model::SchedModel;
use crate::model::SwitchDecision;
use crate::model::bootstrap_step;
use crate::model::lemma_wf_receive;
use crate::model::lemma_wf_retire;
use crate::model::lemma_wf_rotate;
use crate::model::lemma_wf_send;
use crate::model::lemma_wf_spawn;
use crate::model::lemma_wf_update_regs;
use crate::model::ready_has;
use crate::model::receive_outcome;
use crate::model::receive_step;
use crate::model::retire_next;
use crate::model::retire_step;
use crate::model::rotate_decision;
use crate::model::rotate_seq;
use crate::model::rotate_step;
use crate::model::send_step;
use crate::model::spawn_step;
use crate::model::teardown_step;
use crate::model::wf;
use crate::registers::Registers;
use crate::stack::StackRegion;

verus! {

broadcast use vstd::std_specs::hash::group_hash_axioms, vstd::set::group_set_axioms;

/// The ids below `n`, as a set.
spec fn ids_below(n: u64) -> Set<u64> {
    Set::new(|x: u64| x < n)
}

/// The ids below `n` are finite and exactly `n` many.
proof fn lemma_ids_below_len(n: u64)
    ensures
        ids_below(n).finite(),
        ids_below(n).len() == n,
    decreases n,
{
    if n == 0 {
        assert(ids_below(0) =~= Set::<u64>::empty());
    } else {
        lemma_ids_below_len((n - 1) as u64);
        assert(ids_below(n) =~= ids_below((n - 1) as u64).insert((n - 1) as u64));
    }
}

/// The scheduler state of one runtime session.
pub struct Scheduler {
    ready: VecDeque<Context>,
    waiting: HashMap<u64, Context>,
    mailbox: MappedList<u64>,
    live: HashSet<u64>,
    deferred: Option<StackRegion>,
    main: Option<Registers>,
    trampoline: u64,
}

impl View for Scheduler {
    type V = SchedModel;

    closed spec fn view(&self) -> SchedModel {
        SchedModel {
            ready: self.ready@,
            waiting: self.waiting@,
            mail: self.mailbox@,
            live: self.live@,
            deferred: self.deferred,
            main: self.main,
            trampoline: self.trampoline,
        }
    }
}

/// The state a scheduler starts in: no session yet, every table empty.
pub open spec fn initial_model(trampoline: u64) -> SchedModel {
    SchedModel {
        ready: Seq::empty(),
        waiting: Map::empty(),
        mail: Map::empty(),
        live: Set::empty(),
        deferred: None,
        main: None,
        trampoline,
    }
}

impl Scheduler {
    /// A scheduler with no session: every table empty. `trampoline` is the
    /// address of the host's entry trampoline, the code every fresh actor
    /// context starts at.
    pub fn new(trampoline: u64) -> (s: Scheduler)
        ensures
            s@ == initial_model(trampoline),
            wf(s@),
    {
        let s = Scheduler {
            ready: VecDeque::new(),
            waiting: HashMap::new(),
            mailbox: MappedList::new(),
            live: HashSet::new(),
            deferred: None,
            main: None,
            trampoline,
        };
        proof {
            assert(s@ =~= initial_model(trampoline));
        }
        s
    }

    /// Claims an id no live actor holds: tries a random candidate first and
    /// falls back to scanning from zero, so the call always returns — the
    /// retry-until-unused policy with a terminating tail. The claimed id
    /// joins the live set at once.
    fn get_id(&mut self) -> (id: u64)
        requires
            old(self)@.live.finite(),
            old(self)@.live.len() < usize::MAX,
        ensures
            !old(self)@.live.contains(id),
            final(self)@ == (SchedModel { live: old(self)@.live.insert(id), ..old(self)@ }),
    {
        let mut tries: usize = 0;
        while tries < 64
            invariant
                self@ == old(self)@,
            decreases 64 - tries,
        {
            let candidate: u64 = rand::random::<u64>();
            if !self.live.contains(&candidate) {
                self.live.insert(candidate);
                proof {
                    assert(self@ =~= (SchedModel {
                        live: old(self)@.live.insert(candidate),
                        ..old(self)@
                    }));
                }
                return candidate;
            }
            tries = tries + 1;
        }
        // Colliding this often means the generator is degenerate; scanning
        // from zero still finds an unused id, because fewer ids are live
        // than there are ids.
        let ghost live = self@.live;
        let mut i: u64 = 0;
        while self.live.contains(&i)
            invariant
                self@ == old(self)@,
                self@.live == live,
                live.finite(),
                live.len() < usize::MAX,
                i <= live.len(),
                forall|j: u64| j < i ==> live.contains(j),
            decreases live.len() - i,
        {
            proof {
                lemma_ids_below_len((i + 1) as u64);
                assert(ids_below((i + 1) as u64).subset_of(live));
                lemma_len_subset(ids_below((i + 1) as u64), live);
            }
            i = i + 1;
        }
        self.live.insert(i);
        proof {
            assert(self@ =~= (SchedModel { live: old(self)@.live.insert(i), ..old(self)@ }));
        }
        i
    }

    /// One scheduling pass: rotate the ready ring — front to back — and ask
    /// the host to save the rotated actor and resume the new front. With at
    /// most one ready actor there is nothing to switch to and the state is
    /// untouched.
    pub fn schedule(&mut self) -> (d: SwitchDecision)
        requires
            wf(old(self)@),
        ensures
            wf(final(self)@),
            final(self)@ == rotate_step(old(self)@),
            d == rotate_decision(old(self)@),
    {
        if self.ready.len() <= 1 {
            proof {
                assert(self@ =~= rotate_step(old(self)@));
            }
            return SwitchDecision::Stay;
        }
        let front = match self.ready.pop_front() {
            Some(c) => c,
            None => unreached(),
        };
        let save_id = front.thread_id;
        self.ready.push_back(front);
        let resume_id = self.ready[0].thread_id;
        proof {
            assert(self@.ready =~= rotate_seq(old(self)@.ready));
            assert(self@ =~= rotate_step(old(self)@));
            lemma_wf_rotate(old(self)@);
        }
        SwitchDecision::Switch { save_id, resume_id }
    }

    /// Spawns a new actor on an already-guarded stack region: claims a
    /// fresh id, appends the new context to the back of the ready queue,
    /// and takes a voluntary scheduling pass — a new actor never preempts
    /// its spawner, it simply joins the ring. Returns the new id and the
    /// switch the pass asks for.
    pub fn spawn(&mut self, entry: u64, stack: StackRegion) -> (r: (u64, SwitchDecision))
        requires
            wf(old(self)@),
            stack.valid(),
            stack.guarded,
            old(self)@.live.len() < usize::MAX,
        ensures
            wf(final(self)@),
            !old(self)@.live.contains(r.0),
            final(self)@ == rotate_step(spawn_step(old(self)@, r.0, entry, stack)),
            r.1 == rotate_decision(spawn_step(old(self)@, r.0, entry, stack)),
    {
        let id = self.get_id();
        let tramp = self.trampoline;
        let ctx = Context::new(entry, tramp, stack, id);
        self.ready.push_back(ctx);
        proof {
            assert(self@ =~= spawn_step(old(self)@, id, entry, stack));
            lemma_wf_spawn(old(self)@, id, entry, stack);
        }
        let d = self.schedule();
        (id, d)
    }

    /// Bootstraps the session: must be called with no session active.
    /// Resets every table, saves a blank main context for the host to fill,
    /// and spawns the first actor as the only ready context. The host then
    /// saves its own state into the main context and resumes the new actor.
    pub fn spawn_from_main(&mut self, entry: u64, stack: StackRegion) -> (id: u64)
        requires
            old(self)@.main.is_none(),
            stack.valid(),
            stack.guarded,
        ensures
            wf(final(self)@),
            final(self)@ == bootstrap_step(old(self)@, id, entry, stack),
    {
        self.ready.clear();
        self.waiting.clear();
        self.mailbox.clear();
        self.live = HashSet::new();
        self.deferred = None;
        self.main = Some(Registers::new(0));
        let id = self.get_id();
        let tramp = self.trampoline;
        let ctx = Context::new(entry, tramp, stack, id);
        self.ready.push_back(ctx);
        proof {
            let m2 = self@;
            assert(m2.ready =~= seq![ctx]);
            assert(m2.live =~= Set::empty().insert(id));
            assert(self@ =~= bootstrap_step(old(self)@, id, entry, stack));
            assert forall|k: u64| #[trigger] m2.live.contains(k)
                <==> ready_has(m2.ready, k) || m2.waiting.contains_key(k) by {
                if ready_has(m2.ready, k) {
                    let i = choose|i: int| 0 <= i < m2.ready.len() && m2.ready[i].thread_id == k;
                    assert(m2.ready[i] == ctx);
                }
                if k == id {
                    assert(m2.ready[0].thread_id == k);
                }
            }
        }
        id
    }

    /// Delivers `msg` to actor `key`: the message joins `key`'s mailbox
    /// queue, and exactly when `key` is blocked in the waiting table its
    /// context is moved to the back of the ready queue. The sender then
    /// yields with a voluntary scheduling pass, whose switch is returned.
    pub fn send(&mut self, key: u64, msg: u64) -> (d: SwitchDecision)
        requires
            wf(old(self)@),
        ensures
            wf(final(self)@),
            final(self)@ == rotate_step(send_step(old(self)@, key, msg)),
            d == rotate_decision(send_step(old(self)@, key, msg)),
    {
        self.mailbox.push_back(key, msg);
        match self.waiting.remove(&key) {
            Some(ctx) => {
                self.ready.push_back(ctx);
            },
            None => {},
        }
        proof {
            assert(self@ =~= send_step(old(self)@, key, msg));
            lemma_wf_send(old(self)@, key, msg);
        }
        self.schedule()
    }

    /// A `receive` by the running actor (the front of the ready queue):
    /// returns its oldest pending message if one is already there; reports
    /// deadlock — without hanging or changing anything — when it is the
    /// only ready actor and has nothing pending; otherwise moves it into
    /// the waiting table, to be woken by a later send, and asks the host to
    /// resume the next ready actor.
    pub fn receive(&mut self) -> (r: ReceiveOutcome)
        requires
            wf(old(self)@),
            old(self)@.ready.len() > 0,
        ensures
            wf(final(self)@),
            final(self)@ == receive_step(old(self)@),
            r == receive_outcome(old(self)@),
    {
        let key = self.ready[0].thread_id;
        let got = self.mailbox.pop_front(key);
        match got {
            Some(msg) => {
                proof {
                    assert(self@ =~= receive_step(old(self)@));
                }
                ReceiveOutcome::Message(msg)
            },
            None => {
                if self.ready.len() == 1 {
                    proof {
                        assert(self@ =~= receive_step(old(self)@));
                    }
                    ReceiveOutcome::Deadlock
                } else {
                    let ctx = match self.ready.pop_front() {
                        Some(c) => c,
                        None => unreached(),
                    };
                    self.waiting.insert(key, ctx);
                    let resume_id = self.ready[0].thread_id;
                    proof {
                        assert(self@ =~= receive_step(old(self)@));
                        lemma_wf_receive(old(self)@);
                    }
                    ReceiveOutcome::Blocked { resume_id }
                }
            },
        }
    }

    /// The single mailbox re-check after a blocked `receive` is woken: pops
    /// the running actor's oldest pending message, if the wake-up was not
    /// spurious. The host drains the deferred slot first.
    pub fn receive_woken(&mut self) -> (r: Option<u64>)
        requires
            wf(old(self)@),
            old(self)@.ready.len() > 0,
        ensures
            wf(final(self)@),
            r == mailbox_head(old(self)@.mail, old(self)@.ready[0].thread_id),
            final(self)@ == (SchedModel {
                mail: mailbox_tail(old(self)@.mail, old(self)@.ready[0].thread_id),
                ..old(self)@
            }),
    {
        let key = self.ready[0].thread_id;
        let r = self.mailbox.pop_front(key);
        proof {
            assert(self@ =~= (SchedModel {
                mail: mailbox_tail(old(self)@.mail, old(self)@.ready[0].thread_id),
                ..old(self)@
            }));
        }
        r
    }

    /// Termination of the running actor, after its entry function returned:
    /// it leaves the ready queue, its id leaves the live set, and its stack
    /// takes the deferred-release slot — the terminating code still runs on
    /// that stack, so it cannot be freed yet. Returns the slot's previous
    /// occupant, now safe for the host to release, and where control goes:
    /// the next ready actor, or the main context once no actor is left.
    pub fn retire(&mut self) -> (r: (Option<StackRegion>, RetireNext))
        requires
            wf(old(self)@),
            old(self)@.ready.len() > 0,
            old(self)@.main.is_some(),
        ensures
            wf(final(self)@),
            final(self)@ == retire_step(old(self)@),
            r.0 == old(self)@.deferred,
            r.1 == retire_next(old(self)@),
    {
        let ctx = match self.ready.pop_front() {
            Some(c) => c,
            None => unreached(),
        };
        self.live.remove(&ctx.thread_id);
        let freed = self.deferred;
        self.deferred = Some(ctx.stack);
        let next = if self.ready.len() > 0 {
            RetireNext::Actor(self.ready[0].thread_id)
        } else {
            RetireNext::Main
        };
        proof {
            assert(self@ =~= retire_step(old(self)@));
            lemma_wf_retire(old(self)@);
        }
        (freed, next)
    }

    /// Empties the deferred-release slot, returning the stack region the
    /// host must now release — control has moved off it. Taken at every
    /// return from a switch, before the resumed actor goes on.
    pub fn drain_deferred(&mut self) -> (r: Option<StackRegion>)
        requires
            wf(old(self)@),
        ensures
            wf(final(self)@),
            r == old(self)@.deferred,
            final(self)@ == (SchedModel { deferred: None, ..old(self)@ }),
    {
        let r = self.deferred;
        self.deferred = None;
        proof {
            assert(self@ =~= (SchedModel { deferred: None, ..old(self)@ }));
        }
        r
    }

    /// Stores the host-saved machine state into the context at the back of
    /// the ready queue — the actor a scheduling pass just rotated there and
    /// asked the host to save.
    pub fn save_back(&mut self, regs: Registers)
        requires
            wf(old(self)@),
            old(self)@.ready.len() > 0,
        ensures
            wf(final(self)@),
            final(self)@ == (SchedModel {
                ready: old(self)@.ready.update(
                    old(self)@.ready.len() - 1,
                    (Context { regs, ..old(self)@.ready.last() }),
                ),
                ..old(self)@
            }),
    {
        let mut ctx = match self.ready.pop_back() {
            Some(c) => c,
            None => unreached(),
        };
        ctx.regs = regs;
        self.ready.push_back(ctx);
        proof {
            let target = SchedModel {
                ready: old(self)@.ready.update(
                    old(self)@.ready.len() - 1,
                    (Context { regs, ..old(self)@.ready.last() }),
                ),
                ..old(self)@
            };
            assert(self@.ready =~= target.ready);
            assert(self@ =~= target);
            lemma_wf_update_regs(old(self)@, old(self)@.ready.len() - 1, regs);
        }
    }

    /// Stores the host-saved machine state into the waiting context with
    /// id `id` — the actor a blocking `receive` just parked there and asked
    /// the host to save.
    pub fn save_waiting(&mut self, id: u64, regs: Registers)
        requires
            wf(old(self)@),
            old(self)@.waiting.contains_key(id),
        ensures
            wf(final(self)@),
            final(self)@ == (SchedModel {
                waiting: old(self)@.waiting.insert(
                    id,
                    (Context { regs, ..old(self)@.waiting[id] }),
                ),
                ..old(self)@
            }),
    {
        match self.waiting.remove(&id) {
            Some(ctx) => {
                let mut ctx = ctx;
                ctx.regs = regs;
                self.waiting.insert(id, ctx);
            },
            None => unreached(),
        }
        proof {
            let target = SchedModel {
                waiting: old(self)@.waiting.insert(
                    id,
                    (Context { regs, ..old(self)@.waiting[id] }),
                ),
                ..old(self)@
            };
            assert(self@.waiting =~= target.waiting);
            assert(self@ =~= target);
            let m2 = self@;
            assert forall|k: u64| #[trigger] m2.live.contains(k)
                <==> ready_has(m2.ready, k) || m2.waiting.contains_key(k) by {
                assert(m2.waiting.contains_key(k) <==> old(self)@.waiting.contains_key(k));
            }
        }
    }

    /// Stores the host-saved machine state of the main context, right after
    /// the bootstrap saved a blank one.
    pub fn save_main(&mut self, regs: Registers)
        requires
            wf(old(self)@),
            old(self)@.main.is_some(),
        ensures
            wf(final(self)@),
            final(self)@ == (SchedModel { main: Some(regs), ..old(self)@ }),
    {
        self.main = Some(regs);
        proof {
            assert(self@ =~= (SchedModel { main: Some(regs), ..old(self)@ }));
        }
    }

    /// The running actor's context: the front of the ready queue, for the
    /// host to resume from.
    pub fn front(&self) -> (c: &Context)
        requires
            self@.ready.len() > 0,
        ensures
            *c == self@.ready[0],
    {
        &self.ready[0]
    }

    /// The saved main context, for the host to resume once every actor has
    /// terminated.
    pub fn main_regs(&self) -> (r: Registers)
        requires
            self@.main.is_some(),
        ensures
            self@.main == Some(r),
    {
        match &self.main {
            Some(r) => *r,
            None => unreached(),
        }
    }

    /// How many actors are ready, the running one included.
    pub fn ready_len(&self) -> (n: usize)
        ensures
            n == self@.ready.len(),
    {
        self.ready.len()
    }

    /// The running actor's id, if any actor is ready.
    pub fn front_id(&self) -> (r: Option<u64>)
        ensures
            match r {
                Some(id) => self@.ready.len() > 0 && id == self@.ready[0].thread_id,
                None => self@.ready.len() == 0,
            },
    {
        if self.ready.len() > 0 {
            Some(self.ready[0].thread_id)
        } else {
            None
        }
    }

    /// How many actors are blocked in `receive`.
    pub fn waiting_len(&self) -> (n: usize)
        ensures
            n == self@.waiting.dom().len(),
    {
        self.waiting.len()
    }

    /// How many ids are live.
    pub fn live_len(&self) -> (n: usize)
        ensures
            n == self@.live.len(),
    {
        self.live.len()
    }

    /// How many actor ids have a pending message.
    pub fn mailbox_len(&self) -> (n: usize)
        ensures
            n == self@.mail.dom().len(),
    {
        self.mailbox.len()
    }

    /// Whether a stack region is waiting in the deferred-release slot.
    pub fn has_deferred(&self) -> (r: bool)
        ensures
            r == self@.deferred.is_some(),
    {
        self.deferred.is_some()
    }

    /// Whether a session is active: the main context is saved.
    pub fn is_active(&self) -> (r: bool)
        ensures
            r == self@.main.is_some(),
    {
        self.main.is_some()
    }

    /// Ends the session once control is back in the main context: clears
    /// every table, forgets the main context, and returns the deferred
    /// slot's occupant for the host to release.
    pub fn teardown(&mut self) -> (r: Option<StackRegion>)
        ensures
            wf(final(self)@),
            r == old(self)@.deferred,
            final(self)@ == teardown_step(old(self)@),
    {
        let r = self.deferred;
        self.deferred = None;
        self.ready.clear();
        self.waiting.clear();
        self.mailbox.clear();
        self.live = HashSet::new();
        self.main = None;
        proof {
            assert(self@ =~= teardown_step(old(self)@));
        }
        r
    }
}

} // verus!
