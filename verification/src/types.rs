use vstd::prelude::*;

verus! {

/// The integer type used for currencies.
pub type Currency = i64;

} // verus!
