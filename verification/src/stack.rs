//! The stack region of one actor.
//!
//! Each actor owns a page-aligned memory region. Its first page is reserved
//! as a guard page and made inaccessible, so that a stack overflow faults
//! immediately instead of corrupting the neighbouring region; the remaining
//! pages are the usable stack, growing downward from the top of the region.
//!
//! The scheduler never touches the bytes of the region; the host allocates
//! it, installs the guard page, and frees it again. `StackRegion` records
//! what the scheduler's bookkeeping needs: where the region lies, how large
//! it is, and whether its guard page is currently installed. The guard page
//! must be made accessible again before the region is returned to the
//! allocator, which is why `release_prepared` only clears the flag.

use vstd::prelude::*;

verus! {

/// Size in bytes of one virtual-memory page.
pub const PAGE_SIZE: usize = 4096;

/// A page-aligned stack region: `size` bytes starting at address `base`,
/// whose first page is the guard page. The initial stack pointer of a
/// context running on this region is `base + size`, the top of the region.
#[derive(Clone, Copy, PartialEq, Eq, Structural, Debug)]
pub struct StackRegion {
    /// Start address of the region (also the address of the guard page).
    pub base: u64,
    /// Total length of the region in bytes, guard page included.
    pub size: usize,
    /// Whether the guard page is currently installed (inaccessible).
    pub guarded: bool,
}

impl StackRegion {
    /// A region the runtime can schedule on: page-aligned, holding the guard
    /// page plus at least one usable page, and lying within the address space.
    pub open spec fn valid(self) -> bool {
        &&& self.base as int % (PAGE_SIZE as int) == 0
        &&& self.size >= 2 * PAGE_SIZE
        &&& self.size as int % (PAGE_SIZE as int) == 0
        &&& self.base + self.size <= u64::MAX
    }

    /// The top of the region: the initial stack pointer of its owner.
    pub open spec fn top_spec(self) -> int {
        self.base + self.size
    }

    /// Records a freshly allocated region whose guard page has just been
    /// installed by the host.
    pub fn new(base: u64, size: usize) -> (r: StackRegion)
        requires
            base as int % (PAGE_SIZE as int) == 0,
            size >= 2 * PAGE_SIZE,
            size as int % (PAGE_SIZE as int) == 0,
            base + size <= u64::MAX,
        ensures
            r == (StackRegion { base, size, guarded: true }),
            r.valid(),
    {
        StackRegion { base, size, guarded: true }
    }

    /// The top of the region, where a fresh context's stack pointer starts.
    pub fn top(&self) -> (t: u64)
        requires
            self.base + self.size <= u64::MAX,
        ensures
            t == self.top_spec(),
    {
        self.base + self.size as u64
    }

    /// Marks the guard page as restored to normal access. The host must make
    /// the guard page accessible again before freeing the region, and only a
    /// region returned by this function may be handed back to the allocator.
    pub fn release_prepared(self) -> (r: StackRegion)
        ensures
            r == (StackRegion { guarded: false, ..self }),
    {
        StackRegion { base: self.base, size: self.size, guarded: false }
    }
}

} // verus!
