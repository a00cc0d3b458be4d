use vstd::prelude::*;

pub mod text;
pub mod value;
pub mod sort;
pub mod file_picker;
pub mod transport;
pub mod run_args;
pub mod keys;
pub mod state;
pub mod http;
pub mod server;
pub mod viewer;
pub mod action;
pub mod update;
pub mod db;

verus! {

} // verus!
