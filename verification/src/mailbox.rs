//! A bounded, ordered mailbox.
//!
//! Both the write queue (caller to I/O loop) and the event channel (I/O
//! loop to event bridge) are instances of this type.  Sending is
//! best-effort: a full mailbox rejects the value and reports back-pressure
//! instead of blocking.
use vstd::prelude::*;

verus! {

/// A first-in-first-out mailbox holding at most `bound` values.
pub struct Mailbox<T> {
    items: Vec<T>,
    bound: usize,
}

impl<T> Mailbox<T> {
    /// The values currently held, oldest first.
    pub closed spec fn view(&self) -> Seq<T> {
        self.items@
    }

    /// The most the mailbox ever holds.
    pub closed spec fn spec_bound(&self) -> nat {
        self.bound as nat
    }

    /// A mailbox never holds more than its bound, and the bound is positive.
    pub open spec fn wf(&self) -> bool {
        self@.len() <= self.spec_bound() && self.spec_bound() >= 1
    }

    /// An empty mailbox that will hold at most `bound` values.
    pub fn new(bound: usize) -> (m: Mailbox<T>)
        requires
            bound >= 1,
        ensures
            m.wf(),
            m@ == Seq::<T>::empty(),
            m.spec_bound() == bound,
    {
        Mailbox { items: Vec::new(), bound }
    }

    /// How many values are waiting.
    pub fn len(&self) -> (n: usize)
        ensures
            n == self@.len(),
    {
        self.items.len()
    }

    /// True when nothing is waiting.
    pub fn is_empty(&self) -> (r: bool)
        ensures
            r == (self@.len() == 0),
    {
        self.items.len() == 0
    }

    /// Appends the value when there is room; rejects it, unchanged, when
    /// the mailbox is full.  The result says whether the value was taken.
    pub fn try_send(&mut self, value: T) -> (accepted: bool)
        requires
            old(self).wf(),
        ensures
            final(self).wf(),
            final(self).spec_bound() == old(self).spec_bound(),
            accepted == (old(self)@.len() < old(self).spec_bound()),
            accepted ==> final(self)@ == old(self)@.push(value),
            !accepted ==> final(self)@ == old(self)@,
    {
        if self.items.len() < self.bound {
            self.items.push(value);
            true
        } else {
            false
        }
    }

    /// Best-effort delivery of a batch, in order: values are appended
    /// until the mailbox is full, and the rest are dropped rather than
    /// blocking the sender.  Returns how many were delivered — the
    /// back-pressure signal.
    pub fn send_all(&mut self, items: Vec<T>) -> (delivered: usize)
        requires
            old(self).wf(),
        ensures
            final(self).wf(),
            final(self).spec_bound() == old(self).spec_bound(),
            delivered <= items@.len(),
            final(self)@ == old(self)@ + items@.take(delivered as int),
            old(self)@.len() + items@.len() <= old(self).spec_bound() ==> delivered == items@.len(),
            old(self)@.len() + items@.len() > old(self).spec_bound() ==> delivered == old(
                self,
            ).spec_bound() - old(self)@.len(),
    {
        let ghost items0 = items@;
        let mut items = items;
        let n0: usize = items.len();
        assert(items0.len() == n0);
        let mut delivered: usize = 0;
        let mut j: usize = 0;
        let ghost room = old(self).spec_bound() - old(self)@.len();
        while items.len() > 0
            invariant
                self.wf(),
                self.spec_bound() == old(self).spec_bound(),
                room == old(self).spec_bound() - old(self)@.len(),
                items0.len() <= usize::MAX,
                j <= items0.len(),
                items@ == items0.skip(j as int),
                delivered <= j,
                delivered as int == if j <= room {
                    j as int
                } else {
                    room
                },
                self@ == old(self)@ + items0.take(delivered as int),
            decreases items@.len(),
        {
            assert(j < items0.len());
            let it = items.remove(0);
            assert(items@ =~= items0.skip(j + 1));
            assert(items0.skip(j as int)[0] == items0[j as int]);
            let ghost selfpre = self@;
            let ghost dpre = delivered as int;
            if self.try_send(it) {
                proof {
                    assert(items0.take(dpre).len() == dpre);
                    assert(selfpre.len() == old(self)@.len() + dpre);
                    assert(dpre < room);
                    assert(dpre == j as int);
                    assert(items0.take(dpre + 1) =~= items0.take(dpre).push(items0[j as int]));
                }
                delivered = delivered + 1;
                assert(self@ =~= old(self)@ + items0.take(delivered as int));
            }
            j = j + 1;
        }
        assert(items0.skip(items0.len() as int).len() == 0);
        delivered
    }

    /// Removes and returns the oldest value, or `None` when the mailbox is
    /// empty.
    pub fn recv(&mut self) -> (r: Option<T>)
        requires
            old(self).wf(),
        ensures
            final(self).wf(),
            final(self).spec_bound() == old(self).spec_bound(),
            old(self)@.len() == 0 ==> r is None && final(self)@ == old(self)@,
            old(self)@.len() > 0 ==> r == Some(old(self)@.first()) && final(self)@ == old(
                self,
            )@.drop_first(),
    {
        if self.items.len() == 0 {
            None
        } else {
            let v = self.items.remove(0);
            assert(self.items@ =~= old(self)@.drop_first());
            Some(v)
        }
    }
}

} // verus!
