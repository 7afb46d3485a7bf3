use vstd::prelude::*;

verus! {

/// The invocation did what was asked.
pub const OK: i32 = 0;

/// At least one diagnostic check failed.
pub const FAILURE: i32 = 1;

/// The command line was malformed.
pub const USAGE: i32 = 2;

} // verus!
