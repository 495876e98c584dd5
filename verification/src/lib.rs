//! Decision logic of a print agent that polls a server for print jobs,
//! claims them, prints the downloaded PDF on a local printer and reports
//! the outcome back.
use vstd::prelude::*;

pub mod api_client;
pub mod config;
pub mod polling;
pub mod printer;
pub mod rounds;
pub mod text;

verus! {
} // verus!
