use vstd::prelude::*;

pub mod models;
pub mod json;
pub mod api;

verus! {

} // verus!
