use vstd::prelude::*;

verus! {

/// The side of a European option: the right to buy or the right to sell.
#[derive(Clone, Copy, Debug, PartialEq, Eq, Structural)]
pub enum OptionDir {
    CALL,
    PUT,
}

impl OptionDir {
    /// Routes an operation to the formula variant that belongs to this
    /// direction: `call` for a call, `put` for a put.
    pub fn select<T>(self, call: T, put: T) -> (r: T)
        ensures
            r == (if self is CALL {
                call
            } else {
                put
            }),
    {
        match self {
            OptionDir::CALL => call,
            OptionDir::PUT => put,
        }
    }
}

} // verus!
