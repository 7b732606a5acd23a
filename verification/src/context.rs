//! The control block of one actor.
//!
//! A `Context` bundles everything the scheduler owns on behalf of one actor:
//! its saved machine state, its stack region, the handle of its entry
//! function, and its id. Exactly one queue owns a context at any time — the
//! ready queue or the waiting table — and ownership moves, it is never
//! duplicated.
//!
//! The entry function itself runs outside the verified boundary (the host's
//! trampoline calls it), so a context records it as an opaque handle the
//! host maps back to the real function.

use vstd::prelude::*;

use crate::registers::Registers;
use crate::registers::blank_regs;
use crate::stack::StackRegion;

verus! {

/// One actor's control block.
#[derive(Clone, Copy, PartialEq, Eq, Structural, Debug)]
pub struct Context {
    /// Saved machine state; read and written only by the host's switch
    /// primitive during an actual switch.
    pub regs: Registers,
    /// The actor's stack region.
    pub stack: StackRegion,
    /// Opaque handle of the actor's entry function.
    pub entry: u64,
    /// The actor's id, unique among live actors.
    pub thread_id: u64,
}

/// The machine state a freshly spawned context starts from: all data
/// registers clear, the stack pointer at the top of `stack`, and the resume
/// address at the entry trampoline.
pub open spec fn fresh_regs(stack: StackRegion, trampoline: u64) -> Registers {
    Registers { x30: trampoline, sp: stack.top_spec() as u64, ..blank_regs(0) }
}

/// The control block `Context::new` builds.
pub open spec fn fresh_context(
    entry: u64,
    trampoline: u64,
    stack: StackRegion,
    thread_id: u64,
) -> Context {
    Context { regs: fresh_regs(stack, trampoline), stack, entry, thread_id }
}

impl Context {
    /// Builds the control block of a new actor on an already-guarded stack
    /// region: stack pointer at the top of the region, resume address preset
    /// to the entry trampoline, so that the first resume of this context
    /// starts the actor.
    pub fn new(entry: u64, trampoline: u64, stack: StackRegion, thread_id: u64) -> (c: Context)
        requires
            stack.valid(),
            stack.guarded,
        ensures
            c == fresh_context(entry, trampoline, stack, thread_id),
    {
        let top = stack.top();
        let mut regs = Registers::new(top);
        regs.x30 = trampoline;
        Context { regs, stack, entry, thread_id }
    }

    /// The saved machine state, for the host to resume from.
    pub fn get_regs(&self) -> (r: &Registers)
        ensures
            *r == self.regs,
    {
        &self.regs
    }

    /// The saved machine state, for the host's switch primitive to save into.
    pub fn get_regs_mut(&mut self) -> (r: &mut Registers)
        ensures
            *r == old(self).regs,
            *final(self) == (Context { regs: *final(r), ..*old(self) }),
    {
        &mut self.regs
    }
}

} // verus!
