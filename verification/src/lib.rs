//! Turns an uploaded CSV document into the JSON answer of the parse endpoint.
//!
//! The pipeline reads the header, binds every data row to the four named
//! fields, validates and transforms it, and collects the results in input
//! order. The first failure of any kind ends the request with an error
//! envelope; nothing of the rows seen so far is returned.

pub mod config;
pub mod errors;
pub mod json;
pub mod parser;
pub mod reader;
pub mod record;
pub mod results;
pub mod text;
