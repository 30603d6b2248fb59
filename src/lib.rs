use vstd::prelude::*;

pub mod selection;
pub mod text;
pub mod terminal_state;
pub mod session;

verus! {

} // verus!
