use vstd::prelude::*;

pub mod text;
pub mod assoc;
pub mod json;
pub mod parser;
pub mod gui;
pub mod session;
pub mod instances;
pub mod instance_info;
pub mod containers;
pub mod cli_output;
pub mod terminal;
pub mod app;
pub mod events;
pub mod laws;
pub mod screen;

verus! {
} // verus!
