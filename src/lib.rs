use vstd::prelude::*;

pub mod model;
pub mod operations;
pub mod paths;
pub mod service;
pub mod text;
pub mod types;

verus! {

} // verus!
