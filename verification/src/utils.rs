//! The identifier generator: one counter shared by groups, expenses and
//! payments.

use vstd::prelude::*;

verus! {

/// Hands out the identifiers of new entities.
///
/// The counter starts at zero, so the first identifier is 1. After
/// `u32::MAX` the counter wraps to zero, and identifiers repeat from then on.
#[derive(Clone, Copy, Debug)]
pub struct Utils {
    pub counter: u32,
}

/// The identifier that follows `counter`.
pub open spec fn next_id(counter: u32) -> u32 {
    if counter == u32::MAX {
        0u32
    } else {
        (counter + 1) as u32
    }
}

impl Utils {
    /// A generator that has handed out nothing yet.
    pub fn new() -> (r: Self)
        ensures
            r.counter == 0,
    {
        Utils { counter: 0 }
    }

    /// Advances the counter by one, wrapping at `u32::MAX`, and returns its
    /// new value.
    pub fn generate_group_id(&mut self) -> (id: u32)
        ensures
            id == next_id(old(self).counter),
            final(self).counter == id,
    {
        self.counter = self.counter.wrapping_add(1);
        self.counter
    }
}

impl Default for Utils {
    fn default() -> (r: Self)
        ensures
            r.counter == 0,
    {
        Utils::new()
    }
}

} // verus!
