use vstd::prelude::*;

verus! {

/// A monotonic counter minting identifiers.
///
/// `next` hands out the current value and advances the counter by one, so a
/// minted identifier is never handed out again and later identifiers are
/// strictly larger.  The counter is never reset.
pub struct IdCounter {
    pub value: usize,
}

impl IdCounter {
    /// The value the next call of `next` will return.
    pub open spec fn current(self) -> usize {
        self.value
    }

    pub fn new() -> (r: IdCounter)
        ensures
            r.current() == 0,
    {
        IdCounter { value: 0 }
    }

    /// Mint an identifier: return the current value and advance by one.
    pub fn next(&mut self) -> (r: usize)
        requires
            old(self).current() < usize::MAX,
        ensures
            r == old(self).current(),
            final(self).current() == old(self).current() + 1,
    {
        let id = self.value;
        self.value = self.value + 1;
        id
    }

    /// The value the next minted identifier will have, without minting it.
    pub fn peek(&self) -> (r: usize)
        ensures
            r == self.current(),
    {
        self.value
    }
}

} // verus!
