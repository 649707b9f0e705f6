//! Request building and response interpretation for two manga sources,
//! MangaDex and Webtoons, written against plain data so that every rule can
//! be stated and proved.

pub mod common;
pub mod entry;
pub mod json;
pub mod mangadex;
pub mod record;
pub mod text;
pub mod webtoons;
