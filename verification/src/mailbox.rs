use vstd::prelude::*;

verus! {

/// A bounded in-order queue: the library's model of one channel of the
/// internal message bus.  At most `capacity` items wait at once; a producer
/// that finds the box full gets its item handed back and must hold it until
/// the consumer drains — backpressure, never a silent drop.
pub struct Mailbox<T> {
    capacity: usize,
    items: Vec<T>,
}

impl<T> Mailbox<T> {
    /// The waiting items, oldest first.
    pub closed spec fn contents(self) -> Seq<T> {
        self.items@
    }

    /// How many items may wait at once.
    pub closed spec fn cap(self) -> int {
        self.capacity as int
    }

    /// The queue never outgrows the capacity it was made with.
    pub open spec fn well_formed(self) -> bool {
        self.contents().len() <= self.cap() && self.cap() >= 1
    }

    /// A producer finding the box in this state must suspend.
    pub open spec fn is_full(self) -> bool {
        self.contents().len() == self.cap()
    }

    pub fn new(capacity: usize) -> (m: Mailbox<T>)
        requires
            capacity >= 1,
        ensures
            m.well_formed(),
            m.contents() == Seq::<T>::empty(),
            m.cap() == capacity,
    {
        Mailbox { capacity, items: Vec::new() }
    }

    pub fn len(&self) -> (n: usize)
        ensures
            n == self.contents().len(),
    {
        self.items.len()
    }

    /// Appends an item, unless the box is full: then nothing changes and the
    /// item comes back, for the producer to retry once the box has drained.
    pub fn try_send(&mut self, item: T) -> (r: Result<(), T>)
        requires
            old(self).well_formed(),
        ensures
            final(self).well_formed(),
            final(self).cap() == old(self).cap(),
            old(self).is_full() ==> (r matches Err(t) && t == item && final(self).contents()
                == old(self).contents()),
            !old(self).is_full() ==> r is Ok && final(self).contents() == old(
                self,
            ).contents().push(item),
    {
        if self.items.len() == self.capacity {
            Err(item)
        } else {
            self.items.push(item);
            Ok(())
        }
    }

    /// Takes the oldest waiting item, if one waits.
    pub fn recv(&mut self) -> (r: Option<T>)
        requires
            old(self).well_formed(),
        ensures
            final(self).well_formed(),
            final(self).cap() == old(self).cap(),
            old(self).contents().len() == 0 ==> r is None && final(self).contents() == old(
                self,
            ).contents(),
            old(self).contents().len() > 0 ==> (r matches Some(t) && t == old(self).contents()[0]
                && final(self).contents() == old(self).contents().drop_first()),
    {
        if self.items.len() == 0 {
            None
        } else {
            let item = self.items.remove(0);
            assert(self.items@ =~= old(self).contents().drop_first());
            Some(item)
        }
    }

    /// Empties the box, handing every waiting item out in arrival order.
    pub fn drain(&mut self) -> (out: Vec<T>)
        requires
            old(self).well_formed(),
        ensures
            final(self).well_formed(),
            final(self).cap() == old(self).cap(),
            final(self).contents() == Seq::<T>::empty(),
            out@ == old(self).contents(),
    {
        let mut out: Vec<T> = Vec::new();
        while self.items.len() > 0
            invariant
                self.capacity == old(self).capacity,
                self.items@.len() <= self.capacity,
                self.capacity >= 1,
                out@ + self.items@ == old(self).contents(),
            decreases self.items@.len(),
        {
            let t = self.items.remove(0);
            out.push(t);
            assert(out@ + self.items@ =~= old(self).contents());
        }
        assert(out@ =~= old(self).contents());
        out
    }
}

/// Backpressure resumes: a box that has just been drained is not full, so
/// the producer that was suspended on it can now place its item.
pub proof fn lemma_drained_box_has_room<T>(m: Mailbox<T>)
    requires
        m.well_formed(),
        m.contents().len() == 0,
    ensures
        !m.is_full(),
{
}

} // verus!
