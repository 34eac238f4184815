use vstd::prelude::*;

pub mod color;
pub mod texture;
pub mod cache;
pub mod mesh;
pub mod painter;
pub mod frame;

verus! {

} // verus!
