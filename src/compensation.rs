//! Royalty compensation kinds, encoded as integers.

use vstd::prelude::*;

verus! {

/// How a royalty is paid.
#[derive(Clone, Copy, Debug, PartialEq, Eq, Structural)]
pub enum Compensation {
    Fixed,
    Percentage,
    Subscription,
}

impl Compensation {
    /// 1 is a percentage, 2 a subscription, and every other value a fixed
    /// royalty.
    pub fn from_u64(value: u64) -> (r: Option<Self>)
        ensures
            r == Some(
                if value == 1 {
                    Compensation::Percentage
                } else if value == 2 {
                    Compensation::Subscription
                } else {
                    Compensation::Fixed
                },
            ),
    {
        match value {
            1 => Some(Compensation::Percentage),
            2 => Some(Compensation::Subscription),
            _ => Some(Compensation::Fixed),
        }
    }
}

} // verus!
