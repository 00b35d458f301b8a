use vstd::prelude::*;

pub mod catalog;
pub mod database;
pub mod forms;
pub mod goals;
pub mod history;
pub mod log;
pub mod models;
pub mod quantity;
pub mod resolve;
pub mod search;
pub mod text;

verus! {

} // verus!

