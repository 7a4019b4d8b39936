use vstd::prelude::*;

verus! {

/// Why a level could not be turned into a game.
#[derive(Copy, Clone, Debug, PartialEq, Eq, Structural)]
pub enum MyError {
    /// The level text holds none of the direction markers `r`, `l`, `u`, `d`.
    NoDirection,
}

impl MyError {
    /// A human-readable description of the error.
    pub fn description(&self) -> (r: &'static str)
        ensures
            *self == MyError::NoDirection ==> r@ == "no direction found in level file"@,
    {
        match self {
            MyError::NoDirection => "no direction found in level file",
        }
    }
}

} // verus!
