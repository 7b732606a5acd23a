//! Per-actor FIFO message queues.
//!
//! A `MappedList` keys a FIFO queue by actor id. Messages for one id come
//! back out in exactly the order they went in, and an id whose queue has
//! drained is pruned from the map rather than left behind as an empty entry,
//! so the map only ever holds ids with at least one pending message.

use std::collections::HashMap;
use std::collections::VecDeque;

use vstd::prelude::*;

verus! {

broadcast use vstd::std_specs::hash::group_hash_axioms;

/// What pushing `val` for `key` does to a mailbox: appends to the key's
/// queue, starting a fresh queue if the key had none.
pub open spec fn mailbox_push<T>(m: Map<u64, Seq<T>>, key: u64, val: T) -> Map<u64, Seq<T>> {
    let q = if m.contains_key(key) {
        m[key]
    } else {
        Seq::empty()
    };
    m.insert(key, q.push(val))
}

/// The message popping for `key` returns: the head of the key's queue, if any.
pub open spec fn mailbox_head<T>(m: Map<u64, Seq<T>>, key: u64) -> Option<T> {
    if m.contains_key(key) && m[key].len() > 0 {
        Some(m[key][0])
    } else {
        None
    }
}

/// The mailbox left after popping for `key`: the head removed, and the
/// entry pruned when that empties the key's queue.
pub open spec fn mailbox_tail<T>(m: Map<u64, Seq<T>>, key: u64) -> Map<u64, Seq<T>> {
    if m.contains_key(key) && m[key].len() > 0 {
        if m[key].len() == 1 {
            m.remove(key)
        } else {
            m.insert(key, m[key].drop_first())
        }
    } else {
        m
    }
}

/// A map of per-key FIFO queues; the mailbox is one with `u64` messages.
pub struct MappedList<T> {
    map: HashMap<u64, VecDeque<T>>,
}

impl<T> View for MappedList<T> {
    type V = Map<u64, Seq<T>>;

    closed spec fn view(&self) -> Map<u64, Seq<T>> {
        self.map@.map_values(|q: VecDeque<T>| q@)
    }
}

impl<T> MappedList<T> {
    /// Every key present holds at least one pending value: an emptied queue
    /// is pruned, never kept as an empty entry.
    pub open spec fn wf(&self) -> bool {
        forall|key: u64| #[trigger] self@.contains_key(key) ==> self@[key].len() > 0
    }

    /// An empty map: no key has a pending value.
    pub fn new() -> (r: MappedList<T>)
        ensures
            r@ == Map::<u64, Seq<T>>::empty(),
            r.wf(),
    {
        let r = MappedList { map: HashMap::new() };
        proof {
            assert(r@ =~= Map::<u64, Seq<T>>::empty());
        }
        r
    }

    /// Appends `val` to the queue for `key`, creating the queue if `key`
    /// had no pending values.
    pub fn push_back(&mut self, key: u64, val: T)
        requires
            old(self).wf(),
        ensures
            final(self).wf(),
            final(self)@ == mailbox_push(old(self)@, key, val),
    {
        let ghost old_view = self@;
        let mut queue = match self.map.remove(&key) {
            Some(q) => q,
            None => VecDeque::new(),
        };
        queue.push_back(val);
        self.map.insert(key, queue);
        proof {
            assert(self@ =~= mailbox_push(old_view, key, val));
        }
    }

    /// Removes and returns the oldest pending value for `key`, pruning the
    /// key once its queue drains; `None` when `key` has nothing pending.
    pub fn pop_front(&mut self, key: u64) -> (r: Option<T>)
        requires
            old(self).wf(),
        ensures
            final(self).wf(),
            r == mailbox_head(old(self)@, key),
            final(self)@ == mailbox_tail(old(self)@, key),
    {
        let ghost old_view = self@;
        match self.map.remove(&key) {
            Some(mut queue) => {
                let val = queue.pop_front();
                if queue.len() > 0 {
                    self.map.insert(key, queue);
                }
                proof {
                    assert(old_view.contains_key(key) && old_view[key].len() > 0);
                    assert(self@ =~= mailbox_tail(old_view, key));
                }
                val
            },
            None => {
                proof {
                    assert(self@ =~= mailbox_tail(old_view, key));
                }
                None
            },
        }
    }

    /// Drops every pending value for every key.
    pub fn clear(&mut self)
        ensures
            final(self).wf(),
            final(self)@ == Map::<u64, Seq<T>>::empty(),
    {
        self.map.clear();
        proof {
            assert(self@ =~= Map::<u64, Seq<T>>::empty());
        }
    }

    /// How many keys currently have a pending value.
    pub fn len(&self) -> (n: usize)
        ensures
            n == self@.dom().len(),
    {
        proof {
            assert(self@.dom() =~= self.map@.dom());
        }
        self.map.len()
    }
}

} // verus!
