use vstd::prelude::*;

pub mod text;
pub mod music;
pub mod data;
pub mod ui;

verus! {

} // verus!
