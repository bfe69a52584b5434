//! A bounded first-in-first-out history: once full, each new entry pushes
//! out the oldest one. The Home page keeps its traffic samples and the
//! Logs page its log lines in one.

use vstd::prelude::*;
use std::collections::VecDeque;

verus! {

/// At most `cap` most recent entries, oldest first.
pub struct BoundedLog<T> {
    items: VecDeque<T>,
    cap: usize,
}

impl<T> BoundedLog<T> {
    /// The entries, oldest first.
    pub closed spec fn view_items(&self) -> Seq<T> {
        self.items@
    }

    /// The capacity.
    pub closed spec fn capacity(&self) -> nat {
        self.cap as nat
    }

    /// Never more entries than the capacity.
    pub open spec fn wf(&self) -> bool {
        self.view_items().len() <= self.capacity()
    }

    /// An empty history holding at most `cap` entries.
    pub fn new(cap: usize) -> (r: Self)
        requires
            cap > 0,
        ensures
            r.wf(),
            r.view_items().len() == 0,
            r.capacity() == cap,
    {
        BoundedLog { items: VecDeque::new(), cap }
    }

    /// Appends `item`, first dropping the oldest entry when full.
    pub fn push(&mut self, item: T)
        requires
            old(self).wf(),
            old(self).capacity() > 0,
        ensures
            final(self).wf(),
            final(self).capacity() == old(self).capacity(),
            old(self).view_items().len() < old(self).capacity() ==> final(self).view_items()
                == old(self).view_items().push(item),
            old(self).view_items().len() == old(self).capacity() ==> final(self).view_items()
                == old(self).view_items().drop_first().push(item),
    {
        if self.items.len() >= self.cap {
            let _ = self.items.pop_front();
        }
        self.items.push_back(item);
    }

    /// Removes every entry.
    pub fn clear(&mut self)
        requires
            old(self).wf(),
        ensures
            final(self).wf(),
            final(self).capacity() == old(self).capacity(),
            final(self).view_items().len() == 0,
    {
        self.items.clear();
    }

    /// Number of entries.
    pub fn len(&self) -> (n: usize)
        ensures
            n == self.view_items().len(),
    {
        self.items.len()
    }

    /// The entry at `i` (0 is the oldest).
    pub fn get(&self, i: usize) -> (r: &T)
        requires
            i < self.view_items().len(),
        ensures
            *r == self.view_items()[i as int],
    {
        &self.items[i]
    }
}

/// A full history stays full: one push adds one entry and drops one.
pub proof fn lemma_push_keeps_bound<T>(before: Seq<T>, after: Seq<T>, item: T, cap: nat)
    requires
        before.len() <= cap,
        cap > 0,
        before.len() < cap ==> after == before.push(item),
        before.len() == cap ==> after == before.drop_first().push(item),
    ensures
        after.len() <= cap,
        after.len() == if before.len() < cap {
            before.len() + 1
        } else {
            cap
        },
        after.last() == item,
{
}

} // verus!
