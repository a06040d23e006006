use vstd::prelude::*;

pub mod transpose;
pub mod parser;
pub mod chord_data;
pub mod chord_db;

verus! {

} // verus!
