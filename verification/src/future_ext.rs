use vstd::prelude::*;

verus! {

/// A one-way completion flag: once set it stays set.  Callers can pair it
/// with a future that resolves when the flag is up; the polling side
/// lives with the I/O code outside the crate.
#[derive(Clone, Copy, Debug)]
pub struct FlagFuture {
    pub flag: bool,
}

impl FlagFuture {
    /// Raises the flag.
    pub fn set(&mut self)
        ensures
            final(self).flag,
    {
        self.flag = true;
    }

    /// Whether the flag is up.
    pub fn is_set(&self) -> (r: bool)
        ensures
            r == self.flag,
    {
        self.flag
    }
}

impl Default for FlagFuture {
    /// A lowered flag.
    fn default() -> (r: Self)
        ensures
            !r.flag,
    {
        FlagFuture { flag: false }
    }
}

} // verus!
