use vstd::prelude::*;

pub mod digest;
pub mod error;
pub mod evidence;
pub mod flags;
pub mod json;
pub mod laws;
pub mod models;
pub mod orchestrator;
pub mod s3;
pub mod season;
pub mod segments;
pub mod text;
pub mod timestamp;
pub mod variant_map;

verus! {

} // verus!
