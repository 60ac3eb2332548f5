use vstd::prelude::*;

verus! {

/// A value carried across threads as one piece.
#[derive(Debug)]
pub struct Sendable<T>(pub T);

impl<T> core::ops::Deref for Sendable<T> {
    type Target = T;

    fn deref(&self) -> (r: &T)
        ensures
            r == &self.0,
    {
        &self.0
    }
}

} // verus!
