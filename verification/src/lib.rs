use vstd::prelude::*;

pub mod decoder;
pub mod input;
pub mod player;
pub mod renderer;
pub mod source;
pub mod terminal;
pub mod text;

verus! {

} // verus!
