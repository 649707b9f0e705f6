//! Entries in the exchange format of the source interface, in which optional
//! information is absent rather than empty.

use vstd::prelude::*;
use crate::common::{ContentRating, MangaStatus, Viewer};
use crate::record::NumberText;

verus! {

/// The date pattern the host reads a date text with.
#[derive(Debug, PartialEq, Eq)]
pub enum DateFormat {
    /// `yyyy-MM-dd'T'HH:mm:ss'Z'`
    IsoUtc,
    /// `MMM dd, yyyy`
    MonthDayYear,
}

/// When a chapter was published: unknown, a timestamp in seconds, or a text the
/// host reads with a date pattern.
#[derive(Debug, PartialEq, Eq)]
pub enum UploadDate {
    Unknown,
    At(i64),
    Text { text: String, format: DateFormat },
}

/// A series.
#[derive(Debug, PartialEq, Eq)]
pub struct Manga {
    pub key: String,
    pub title: String,
    pub cover: Option<String>,
    pub authors: Option<Vec<String>>,
    pub description: Option<String>,
    pub url: Option<String>,
    pub tags: Option<Vec<String>>,
    pub status: MangaStatus,
    pub content_rating: ContentRating,
    pub viewer: Viewer,
    pub chapters: Option<Vec<Chapter>>,
}

/// A chapter of a series.
#[derive(Debug, PartialEq, Eq)]
pub struct Chapter {
    pub key: String,
    pub title: Option<String>,
    pub chapter_number: NumberText,
    pub volume_number: NumberText,
    pub date_uploaded: UploadDate,
    pub scanlators: Option<Vec<String>>,
    pub url: Option<String>,
    pub locked: bool,
}

/// One page of search or listing results.
#[derive(Debug, PartialEq, Eq)]
pub struct MangaPageResult {
    pub entries: Vec<Manga>,
    pub has_next_page: bool,
}

} // verus!
