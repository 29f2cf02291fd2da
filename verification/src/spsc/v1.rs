use vstd::prelude::*;

verus! {

// The single-producer/single-consumer exchange cell: one shared slot that
// the producer fills by a plain atomic swap of an owned box and the consumer
// empties by swapping null in. No reader-count protocol and two fixed roles;
// the roles are split off the cell once and each method names the role that
// performs it.

/// The shared slot: holds the owned value the producer last left, or nothing
/// once the consumer has taken it.
pub struct Cell<T> {
    slot: Option<T>,
}

/// The consuming role: takes the shared value out and keeps the last one it
/// saw.
pub struct Consumer<T> {
    last_value: Option<T>,
}

/// The producing role: leaves a new shared value, dropping an untaken one.
pub struct Producer {
}

impl<T> Cell<T> {
    /// What the shared slot holds.
    pub closed spec fn contents(self) -> Option<T> {
        self.slot
    }

    /// A cell whose slot starts out holding `value`.
    pub fn new(value: T) -> (cell: Cell<T>)
        ensures
            cell.contents() == Some(value),
    {
        Cell { slot: Some(value) }
    }

    /// Splits the two fixed roles off the cell: a consumer that has seen
    /// nothing yet, and the producer. The slot itself is untouched.
    pub fn split(&mut self) -> (roles: (Consumer<T>, Producer))
        ensures
            *final(self) == *old(self),
            roles.0.last() is None,
    {
        (Consumer { last_value: None }, Producer {})
    }
}

impl<T> Consumer<T> {
    /// The last value this consumer took out of the slot.
    pub closed spec fn last(self) -> Option<T> {
        self.last_value
    }

    /// Takes the shared value out of the slot, if one is there, and returns
    /// whether the slot held a fresh value together with the latest value
    /// seen. The slot is empty afterwards. Before the first fresh value is
    /// taken there is nothing to return, so the slot must hold one then.
    pub fn get(&mut self, cell: &mut Cell<T>) -> (r: (bool, &T))
        requires
            old(self).last() is Some || old(cell).contents() is Some,
        ensures
            r.0 == (old(cell).contents() is Some),
            final(cell).contents() is None,
            final(self).last() == (if old(cell).contents() is Some {
                old(cell).contents()
            } else {
                old(self).last()
            }),
            final(self).last() == Some(*r.1),
    {
        let taken = cell.slot.take();
        let updated = taken.is_some();
        match taken {
            Some(value) => {
                self.last_value = Some(value);
            },
            None => {
            },
        }
        match &self.last_value {
            Some(value) => (updated, value),
            None => {
                proof {
                    assert(false);
                }
                vstd::pervasive::unreached()
            },
        }
    }
}

impl Producer {
    /// Leaves `value` in the slot, dropping whatever untaken value was
    /// there.
    pub fn set<T>(&mut self, cell: &mut Cell<T>, value: T)
        ensures
            final(cell).contents() == Some(value),
            *final(self) == *old(self),
    {
        cell.slot = Some(value);
    }
}

} // verus!
