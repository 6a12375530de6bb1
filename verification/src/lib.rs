use vstd::prelude::*;

pub mod text;
pub mod collector;
pub mod fs;
pub mod error;
pub mod output;
pub mod manifest;

verus! {

} // verus!
