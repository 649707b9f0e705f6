//! The Webtoons source: search addresses, recognition of incoming links, and
//! interpretation of the values read from its pages.

pub mod helper;
pub mod parser;
pub mod source;
