use vstd::prelude::*;

pub mod text;
pub mod paths;
pub mod models;
pub mod flashing;
pub mod hardware;
pub mod wizard;
pub mod install_flow;
pub mod browser;

verus! {

} // verus!
