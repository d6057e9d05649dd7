use vstd::prelude::*;

pub mod geometry;
pub mod mesh;
pub mod bounding;
pub mod source;

verus! {

} // verus!
