//! The MangaDex source: query building from search filters, recognition of
//! incoming links, and interpretation of API responses.

pub mod helper;
pub mod parser;
pub mod source;
