//! Unit tests of the runtime's building blocks: the register record, the
//! stack-region model, the actor control block, and the keyed FIFO map.

use green_actors::Context;
use green_actors::MappedList;
use green_actors::PAGE_SIZE;
use green_actors::Registers;
use green_actors::StackRegion;

#[test]
fn registers_start_blank() {
    let r = Registers::new(0xF000);
    assert_eq!(r.sp, 0xF000);
    assert_eq!(r.x30, 0);
    assert_eq!(r.x19, 0);
    assert_eq!(r.x28, 0);
    assert_eq!(r.d8, 0);
    assert_eq!(r.d15, 0);
}

#[test]
fn stack_region_layout() {
    assert_eq!(PAGE_SIZE, 4096);
    let s = StackRegion::new(0x40000, 4 * PAGE_SIZE);
    assert_eq!(s.base, 0x40000);
    assert_eq!(s.size, 4 * PAGE_SIZE);
    assert!(s.guarded);
    assert_eq!(s.top(), 0x40000 + 4 * 4096);
    // the guard page must be restored before the region can be freed
    let released = s.release_prepared();
    assert!(!released.guarded);
    assert_eq!(released.base, s.base);
    assert_eq!(released.size, s.size);
}

#[test]
fn context_presets_trampoline_and_stack_top() {
    let stack = StackRegion::new(0x80000, 2 * PAGE_SIZE);
    let c = Context::new(7, 0xC0DE, stack, 99);
    assert_eq!(c.thread_id, 99);
    assert_eq!(c.entry, 7);
    assert_eq!(c.stack, stack);
    assert_eq!(c.get_regs().x30, 0xC0DE);
    assert_eq!(c.get_regs().sp, 0x80000 + 2 * 4096);
    assert_eq!(c.get_regs().x19, 0);
}

#[test]
fn context_regs_can_be_saved_into() {
    let stack = StackRegion::new(0x80000, 2 * PAGE_SIZE);
    let mut c = Context::new(7, 0xC0DE, stack, 99);
    let r = c.get_regs_mut();
    r.sp = 0x5555;
    r.x19 = 17;
    assert_eq!(c.get_regs().sp, 0x5555);
    assert_eq!(c.get_regs().x19, 17);
    assert_eq!(c.get_regs().x30, 0xC0DE);
}

#[test]
fn mapped_list_is_fifo_per_key() {
    let mut m: MappedList<u64> = MappedList::new();
    m.push_back(1, 10);
    m.push_back(2, 20);
    m.push_back(1, 11);
    m.push_back(1, 12);
    assert_eq!(m.len(), 2);
    assert_eq!(m.pop_front(1), Some(10));
    assert_eq!(m.pop_front(1), Some(11));
    assert_eq!(m.pop_front(2), Some(20));
    assert_eq!(m.pop_front(1), Some(12));
    assert_eq!(m.pop_front(1), None);
}

#[test]
fn mapped_list_prunes_empty_queues() {
    let mut m: MappedList<u64> = MappedList::new();
    m.push_back(5, 1);
    assert_eq!(m.len(), 1);
    assert_eq!(m.pop_front(5), Some(1));
    // the drained queue is gone, not left behind empty
    assert_eq!(m.len(), 0);
    assert_eq!(m.pop_front(5), None);
}

#[test]
fn mapped_list_pop_from_missing_key() {
    let mut m: MappedList<u64> = MappedList::new();
    assert_eq!(m.pop_front(42), None);
    assert_eq!(m.len(), 0);
}

#[test]
fn mapped_list_clear_drops_everything() {
    let mut m: MappedList<u64> = MappedList::new();
    m.push_back(1, 10);
    m.push_back(2, 20);
    m.clear();
    assert_eq!(m.len(), 0);
    assert_eq!(m.pop_front(1), None);
    assert_eq!(m.pop_front(2), None);
}
