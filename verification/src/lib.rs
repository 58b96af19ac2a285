pub mod json;
pub mod parse;
pub mod schedule;
pub mod store;
