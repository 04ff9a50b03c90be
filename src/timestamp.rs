//! Coarse wall-clock time in whole seconds.
use vstd::prelude::*;

verus! {

/// Seconds since the Unix epoch.
#[derive(Clone, Copy, Debug, PartialEq, Eq, Structural, PartialOrd, Ord, Hash)]
pub struct Timestamp(pub u32);

impl Timestamp {
    pub fn from(seconds: u32) -> (r: Timestamp)
        ensures
            r.0 == seconds,
    {
        Timestamp(seconds)
    }

    /// `self - rhs`, or the epoch where `rhs` is later than `self`.
    pub fn bottoming_sub(self, rhs: Timestamp) -> (r: Timestamp)
        ensures
            r.0 == if self.0 >= rhs.0 {
                self.0 - rhs.0
            } else {
                0
            },
    {
        if self.0 >= rhs.0 {
            Timestamp(self.0 - rhs.0)
        } else {
            Timestamp(0)
        }
    }

    pub fn as_u32(self) -> (r: u32)
        ensures
            r == self.0,
    {
        self.0
    }
}

} // verus!
