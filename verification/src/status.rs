//! Outcome of an operation, and its native result code.

use vstd::prelude::*;

verus! {

/// What an operation reports to its immediate caller.
#[derive(Clone, Copy, Debug, PartialEq, Eq, Structural)]
pub enum Status {
    /// The operation succeeded.
    Success,
    /// The requested interface is not offered by the object.
    NoSuchInterface,
    /// The request itself was malformed.
    InvalidArgument,
}

impl Status {
    /// The signed 32-bit result code that stands for this status.
    pub open spec fn spec_hresult(self) -> i32 {
        match self {
            Status::Success => 0i32,
            Status::NoSuchInterface => -2147467262i32,
            Status::InvalidArgument => -2147024809i32,
        }
    }

    #[verifier::when_used_as_spec(spec_hresult)]
    pub fn hresult(self) -> (code: i32)
        ensures
            code == self.spec_hresult(),
    {
        match self {
            Status::Success => 0i32,
            Status::NoSuchInterface => -2147467262i32,
            Status::InvalidArgument => -2147024809i32,
        }
    }

    /// A status is a failure exactly when its result code is negative.
    pub fn failed(self) -> (f: bool)
        ensures
            f == (self.spec_hresult() < 0),
            f == (self != Status::Success),
    {
        self.hresult() < 0
    }
}

} // verus!
