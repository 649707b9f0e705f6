//! Flat catalog records, in which every field is present: a missing text is
//! empty. These are what the catalog parsers of both sources produce.

use vstd::prelude::*;
use crate::common::{ContentRating, MangaStatus, Viewer};

verus! {

/// A number the host turns into a decimal: unknown (read as -1), a text to be
/// parsed as a decimal (read as -1 when it is not one), or a count.
#[derive(Debug, PartialEq, Eq)]
pub enum NumberText {
    Unknown,
    Text(String),
    Count(u64),
}

/// A date the host turns into a timestamp: unknown (read as 0), a stamp in the
/// API's date format, or a relative date such as `3 days ago`.
#[derive(Debug, PartialEq, Eq)]
pub enum DateText {
    Unknown,
    Stamp(String),
    Relative(String),
}

/// A series.
#[derive(Debug, PartialEq, Eq)]
pub struct Manga {
    pub id: String,
    pub cover: String,
    pub title: String,
    pub author: String,
    pub artist: String,
    pub description: String,
    pub url: String,
    pub categories: Vec<String>,
    pub status: MangaStatus,
    pub nsfw: ContentRating,
    pub viewer: Viewer,
}

/// A chapter of a series.
#[derive(Debug, PartialEq, Eq)]
pub struct Chapter {
    pub id: String,
    pub title: String,
    pub volume: NumberText,
    pub chapter: NumberText,
    pub date_updated: DateText,
    pub scanlator: String,
    pub url: String,
    pub lang: String,
}

/// A page of a chapter, by its position and image address.
#[derive(Debug, PartialEq, Eq)]
pub struct Page {
    pub index: i32,
    pub url: String,
}

/// One page of search or listing results.
#[derive(Debug, PartialEq, Eq)]
pub struct MangaPageResult {
    pub manga: Vec<Manga>,
    pub has_more: bool,
}

} // verus!
