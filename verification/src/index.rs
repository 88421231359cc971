//! Positions in the conceptual behavior stack.

use vstd::prelude::*;

verus! {

/// A numeric index which represents the position of a behavior in the stack.
///
/// The initial behavior always has the index `0`, and the current behavior
/// always has the highest index, equal to the length of the [`Memory`] stack.
///
/// [`Memory`]: crate::Memory
#[derive(Clone, Copy, Debug, Hash, PartialEq, Eq, Structural)]
pub struct BehaviorIndex(pub usize);

impl BehaviorIndex {
    /// Returns the index of the initial behavior. This is always `0`.
    pub fn initial() -> (r: Self)
        ensures
            r == BehaviorIndex(0usize),
    {
        BehaviorIndex(0)
    }

    /// Returns the index of the behavior before this one, if it exists.
    ///
    /// The initial index has no previous index.
    pub fn previous(self) -> (r: Option<Self>)
        ensures
            self.0 == 0 ==> r is None,
            self.0 > 0 ==> r == Some(BehaviorIndex((self.0 - 1) as usize)),
    {
        if self.0 == 0 {
            return None;
        }
        Some(BehaviorIndex(self.0 - 1))
    }

    /// Returns the index of the behavior after this one, saturating at the
    /// largest representable index.
    pub fn next(self) -> (r: Self)
        ensures
            self.0 < usize::MAX ==> r == BehaviorIndex((self.0 + 1) as usize),
            self.0 == usize::MAX ==> r == self,
    {
        if self.0 < usize::MAX {
            BehaviorIndex(self.0 + 1)
        } else {
            self
        }
    }
}

} // verus!
