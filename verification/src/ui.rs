use vstd::prelude::*;

pub mod chord_diagrams;
pub mod controls;
pub mod preferences;
pub mod search_results;
pub mod sidebar;
pub mod tab_view;
pub mod window;

verus! {

} // verus!
