//! The transmissions that are built and wait for the scan to reach their
//! frequency.

use crate::transmission::Transmission;
use vstd::prelude::*;

verus! {

/// The waiting transmissions, oldest first.
#[derive(Clone, Debug)]
pub struct TransmissionQueue {
    pub transmissions: Vec<Transmission>,
}

/// Whether position `i` holds the first transmission of `queue` on
/// `frequency`.
pub open spec fn is_first_match(queue: Seq<Transmission>, frequency: u32, i: int) -> bool {
    &&& 0 <= i < queue.len()
    &&& queue[i].frequency == frequency
    &&& forall|j: int| 0 <= j < i ==> (#[trigger] queue[j]).frequency != frequency
}

impl TransmissionQueue {
    /// A queue with nothing in it.
    pub fn new() -> (queue: Self)
        ensures
            queue.transmissions@.len() == 0,
    {
        Self { transmissions: Vec::new() }
    }

    /// A queue with nothing in it.
    pub fn empty() -> (queue: Self)
        ensures
            queue.transmissions@.len() == 0,
    {
        Self { transmissions: Vec::new() }
    }

    /// Whether nothing waits.
    pub fn is_empty(&self) -> (none: bool)
        ensures
            none == (self.transmissions@.len() == 0),
    {
        self.transmissions.len() == 0
    }

    /// Puts a transmission at the end of the queue.
    pub fn add(&mut self, transmission: Transmission)
        ensures
            final(self).transmissions@ == old(self).transmissions@.push(transmission),
    {
        self.transmissions.push(transmission);
    }

    /// Puts transmissions at the end of the queue, in their order.
    pub fn extend(&mut self, transmissions: Vec<Transmission>)
        ensures
            final(self).transmissions@ == old(self).transmissions@ + transmissions@,
    {
        let mut incoming = transmissions;
        self.transmissions.append(&mut incoming);
    }

    /// Hands out all that waits, oldest first, and leaves the queue empty.
    pub fn get_queued_transmissions(&mut self) -> (taken: Vec<Transmission>)
        ensures
            taken@ == old(self).transmissions@,
            final(self).transmissions@.len() == 0,
    {
        let mut taken: Vec<Transmission> = Vec::new();
        std::mem::swap(&mut taken, &mut self.transmissions);
        taken
    }

    /// Takes the first waiting transmission on `frequency` out of the queue,
    /// if there is one; the others keep their order. At most one is taken,
    /// however many wait on that frequency.
    pub fn take_match(&mut self, frequency: u32) -> (taken: Option<Transmission>)
        ensures
            match taken {
                Some(transmission) => exists|i: int|
                    #[trigger] is_first_match(old(self).transmissions@, frequency, i)
                        && transmission == old(self).transmissions@[i]
                        && final(self).transmissions@ == old(self).transmissions@.remove(i),
                None => final(self).transmissions@ == old(self).transmissions@ && forall|i: int|
                    0 <= i < old(self).transmissions@.len() ==> (
                    #[trigger] old(self).transmissions@[i]).frequency != frequency,
            },
    {
        let mut i: usize = 0;
        while i < self.transmissions.len()
            invariant
                i <= self.transmissions.len(),
                self.transmissions@ == old(self).transmissions@,
                forall|j: int| 0 <= j < i ==> (#[trigger] self.transmissions@[j]).frequency
                    != frequency,
            decreases self.transmissions.len() - i,
        {
            if self.transmissions[i].frequency == frequency {
                proof {
                    assert(is_first_match(old(self).transmissions@, frequency, i as int));
                }
                let transmission = self.transmissions.remove(i);
                return Some(transmission);
            }
            i = i + 1;
        }
        None
    }
}

} // verus!
