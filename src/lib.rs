use vstd::prelude::*;

pub mod context;
pub mod token;

verus! {

} // verus!
