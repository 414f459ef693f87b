use vstd::prelude::*;

pub mod greet;
pub mod text;

verus! {

} // verus!
