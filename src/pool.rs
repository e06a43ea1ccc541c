//! A fixed pool of mailbox handles, for targets that create every mailbox up front.
use vstd::prelude::*;

verus! {

/// Slots holding handles; a slot is empty while its handle is out.
pub struct ChannelPool<H> {
    pub pool: Vec<Option<H>>,
}

/// The index of the first slot satisfying `full` (holding a handle when `full`, empty
/// otherwise), or the length when there is none.
pub open spec fn first_slot<H>(slots: Seq<Option<H>>, full: bool) -> int
    decreases slots.len(),
{
    if slots.len() == 0 {
        0
    } else if (slots[0] is Some) == full {
        0
    } else {
        1 + first_slot(slots.drop_first(), full)
    }
}

proof fn lemma_first_slot<H>(slots: Seq<Option<H>>, full: bool)
    ensures
        0 <= first_slot(slots, full) <= slots.len(),
        forall|j: int| 0 <= j < first_slot(slots, full) ==> (slots[j] is Some) != full,
        first_slot(slots, full) < slots.len() ==> (slots[first_slot(slots, full)] is Some) == full,
    decreases slots.len(),
{
    if slots.len() > 0 && (slots[0] is Some) != full {
        lemma_first_slot(slots.drop_first(), full);
        assert forall|j: int| 0 <= j < first_slot(slots, full) implies (slots[j] is Some) != full by {
            if j > 0 {
                assert(slots[j] == slots.drop_first()[j - 1]);
            }
        }
    }
}

impl<H> ChannelPool<H> {
    /// A pool holding `handles`, one per slot.
    pub fn new(handles: Vec<H>) -> (r: Self)
        ensures
            r.pool@ == handles@.map_values(|h: H| Some(h)),
    {
        let mut pool: Vec<Option<H>> = Vec::new();
        let mut handles = handles;
        let ghost all = handles@;
        let mut rest: Vec<H> = Vec::new();
        // Take the handles out back to front, then put them in order.
        while handles.len() > 0
            invariant
                handles@ + rest@.reverse() == all,
            decreases handles.len(),
        {
            let h = handles.pop().unwrap();
            proof {
                assert(handles@.push(h) + rest@.reverse() == all);
                assert(rest@.push(h).reverse() =~= seq![h] + rest@.reverse());
                assert(handles@ + rest@.push(h).reverse() =~= all);
            }
            rest.push(h);
        }
        assert(rest@.reverse() =~= all);
        while rest.len() > 0
            invariant
                pool@ + rest@.reverse().map_values(|h: H| Some(h)) == all.map_values(|h: H| Some(h)),
            decreases rest.len(),
        {
            let h = rest.pop().unwrap();
            proof {
                assert(rest@.push(h).reverse() =~= seq![h] + rest@.reverse());
                assert((seq![h] + rest@.reverse()).map_values(|h: H| Some(h)) =~= seq![Some(h)] + rest@.reverse().map_values(|h: H| Some(h)));
                assert(pool@.push(Some(h)) + rest@.reverse().map_values(|h: H| Some(h)) =~= pool@ + (seq![Some(h)] + rest@.reverse().map_values(|h: H| Some(h))));
            }
            pool.push(Some(h));
        }
        assert(pool@ =~= pool@ + rest@.reverse().map_values(|h: H| Some(h)));
        ChannelPool { pool }
    }

    /// Takes the handle out of the first slot that holds one; `None` when every slot is empty.
    pub fn acquire(&mut self) -> (r: Option<H>)
        ensures
            ({
                let i = first_slot(old(self).pool@, true);
                if i < old(self).pool@.len() {
                    &&& r == old(self).pool@[i]
                    &&& final(self).pool@ == old(self).pool@.update(i, None)
                } else {
                    &&& r is None
                    &&& final(self).pool@ == old(self).pool@
                }
            }),
    {
        proof {
            lemma_first_slot(self.pool@, true);
        }
        let mut i: usize = 0;
        while i < self.pool.len() && self.pool[i].is_none()
            invariant
                i <= self.pool.len(),
                self.pool@ == old(self).pool@,
                i <= first_slot(self.pool@, true),
                0 <= first_slot(self.pool@, true) <= self.pool@.len(),
                forall|j: int| 0 <= j < first_slot(self.pool@, true) ==> self.pool@[j] is None,
                first_slot(self.pool@, true) < self.pool@.len() ==> self.pool@[first_slot(self.pool@, true)] is Some,
            decreases self.pool.len() - i,
        {
            i = i + 1;
        }
        if i < self.pool.len() {
            let r = self.pool[i].take();
            r
        } else {
            None
        }
    }

    /// Puts `handle` into the first empty slot; when no slot is empty it is dropped.
    pub fn release(&mut self, handle: H)
        ensures
            ({
                let i = first_slot(old(self).pool@, false);
                if i < old(self).pool@.len() {
                    final(self).pool@ == old(self).pool@.update(i, Some(handle))
                } else {
                    final(self).pool@ == old(self).pool@
                }
            }),
    {
        proof {
            lemma_first_slot(self.pool@, false);
        }
        let mut i: usize = 0;
        while i < self.pool.len() && self.pool[i].is_some()
            invariant
                i <= self.pool.len(),
                self.pool@ == old(self).pool@,
                i <= first_slot(self.pool@, false),
                0 <= first_slot(self.pool@, false) <= self.pool@.len(),
                forall|j: int| 0 <= j < first_slot(self.pool@, false) ==> self.pool@[j] is Some,
                first_slot(self.pool@, false) < self.pool@.len() ==> self.pool@[first_slot(self.pool@, false)] is None,
            decreases self.pool.len() - i,
        {
            i = i + 1;
        }
        if i < self.pool.len() {
            self.pool.set(i, Some(handle));
        }
    }
}

} // verus!
