//! Types shared by both sources: publication status, content rating, reading
//! direction, deep links, filters and errors.

use vstd::prelude::*;
use crate::json::JsonValue;

verus! {

/// Publication status of a series.
#[derive(Clone, Copy, Debug, PartialEq, Eq)]
pub enum MangaStatus {
    Unknown,
    Ongoing,
    Completed,
    Cancelled,
    Hiatus,
}

/// Content rating of a series.
#[derive(Clone, Copy, Debug, PartialEq, Eq)]
pub enum ContentRating {
    Unknown,
    Safe,
    Suggestive,
    Nsfw,
}

/// How the pages of a series are read.
#[derive(Clone, Copy, Debug, PartialEq, Eq)]
pub enum Viewer {
    Unknown,
    RightToLeft,
    LeftToRight,
    Vertical,
    Webtoon,
}

/// What an incoming link points at: a series or a chapter, by identifier.
#[derive(Debug, PartialEq, Eq)]
pub struct DeepLink {
    pub manga: Option<String>,
    pub chapter: Option<String>,
}

/// What a link points at, as a specification value.
pub enum LinkTarget {
    Manga(Seq<char>),
    Chapter(Seq<char>),
}

impl DeepLink {
    /// The target of this link when it names exactly one of a series and a chapter.
    pub open spec fn points_to(self) -> Option<LinkTarget> {
        match (self.manga, self.chapter) {
            (Some(m), None) => Some(LinkTarget::Manga(m@)),
            (None, Some(c)) => Some(LinkTarget::Chapter(c@)),
            _ => None,
        }
    }
}

/// Why a request could not be served.
#[derive(Clone, Copy, Debug, PartialEq, Eq)]
pub enum SourceError {
    /// A response did not have the expected shape.
    ParseError,
    /// An incoming link was not recognised.
    InvalidUrl,
}

/// The kind of a search filter.
#[derive(Clone, Copy, Debug, PartialEq, Eq)]
pub enum FilterKind {
    Title,
    Author,
    Genre,
    Select,
    Sort,
    Other,
}

/// A search filter as the user set it: its kind, its name and its value. The
/// value is a text for title and author filters, a number for genre and select
/// filters, and an object with `index` and `ascending` members for sort filters.
pub struct Filter {
    pub kind: FilterKind,
    pub name: String,
    pub value: JsonValue,
}

} // verus!
