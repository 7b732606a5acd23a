//! A cooperative green-thread runtime with actor-style message passing.
//!
//! Actors are lightweight logical threads, each with its own stack region and
//! saved machine state, multiplexed onto one physical execution context. They
//! communicate by sending 64-bit integer messages to an actor id; receiving
//! blocks the caller until a message arrives. The scheduler is strict round
//! robin, driven entirely by voluntary switch points.
//!
//! This crate holds the verified core: the machine-state record, the stack
//! region model, the actor context, the per-actor FIFO mailbox, and the
//! scheduler bookkeeping (ready queue, waiting table, live-id set, deferred
//! stack release). The architecture-specific save/resume primitive and the
//! memory-protection syscalls sit outside the verified boundary; the scheduler
//! hands its host explicit switch decisions instead of jumping itself.

mod context;
mod laws;
mod mailbox;
mod model;
mod registers;
mod rng;
mod scheduler;
mod stack;

pub use context::Context;
pub use context::fresh_context;
pub use context::fresh_regs;
pub use laws::id_count;
pub use laws::lemma_lone_receive_deadlocks;
pub use laws::lemma_mailbox_fifo;
pub use laws::lemma_no_double_wake;
pub use laws::lemma_round_robin;
pub use laws::lemma_schedule_only_rotates;
pub use laws::lemma_termination_reclaims;
pub use laws::rotate_n;
pub use mailbox::MappedList;
pub use mailbox::mailbox_head;
pub use mailbox::mailbox_push;
pub use mailbox::mailbox_tail;
pub use model::ReceiveOutcome;
pub use model::RetireNext;
pub use model::SchedModel;
pub use model::SwitchDecision;
pub use model::bootstrap_step;
pub use model::distinct_ids;
pub use model::ready_has;
pub use model::receive_outcome;
pub use model::receive_step;
pub use model::retire_next;
pub use model::retire_step;
pub use model::rotate_decision;
pub use model::rotate_seq;
pub use model::rotate_step;
pub use model::send_step;
pub use model::spawn_step;
pub use model::teardown_step;
pub use model::lemma_rotate_has;
pub use model::lemma_wf_receive;
pub use model::lemma_wf_retire;
pub use model::lemma_wf_rotate;
pub use model::lemma_wf_send;
pub use model::lemma_wf_spawn;
pub use model::lemma_wf_update_regs;
pub use model::wf;
pub use registers::Registers;
pub use registers::blank_regs;
pub use scheduler::Scheduler;
pub use scheduler::initial_model;
pub use stack::PAGE_SIZE;
pub use stack::StackRegion;
