//! The MangaDex source as the source interface drives it: the addresses it
//! requests and how it reads the responses into entries.

use vstd::prelude::*;
use crate::common::{ContentRating, Filter, MangaStatus, SourceError, Viewer};
use crate::entry::{Chapter, DateFormat, Manga, MangaPageResult, UploadDate};
use crate::json::{JsonValue, array_of, first_value, get, object_of, str_member, str_of};
use crate::mangadex::parser::{
    all_chapter_objects_readable, announced_total, array_member, chapter_object_readable, cover_address, get_or_null,
    group_name, image_address, last_cover_file, number_from, number_text_of,
    lemma_status_texts_distinct, relationships_well_formed, status_exec, status_named, string_member_of, tag_names,
    tag_names_exec, title_address,
};
use crate::record::Page;
use crate::text::{ends_with, contains_string, replace_char, replace_char_exec, str_eq, views};
use crate::mangadex::helper::{filter_query, get_filter_string};
use crate::text::{decimal_string, form_encode, i32_to_string, urlencode};

verus! {

/// The MangaDex source.
pub struct MangaDex;

/// The start of a series list request for a page of twenty results.
pub open spec fn list_request_start(page: i32) -> Seq<char> {
    "https://api.mangadex.org"@ + "/manga?limit=20&offset="@ + decimal_string((page - 1) * 20)
}

/// The related records every series list request asks for.
pub open spec fn list_includes() -> Seq<char> {
    "&includes[]=cover_art&includes[]=author&includes[]=artist"@
}

/// The content ratings every series list request admits.
pub open spec fn list_ratings() -> Seq<char> {
    "&contentRating[]=safe&contentRating[]=suggestive&contentRating[]=erotica"@
}

/// The address of a search request.
pub open spec fn search_address(query: Option<Seq<char>>, page: i32, filters: Seq<Filter>) -> Seq<char> {
    list_request_start(page) + match query {
        Some(q) => "&title="@ + form_encode(vstd::utf8::encode_utf8(q)),
        None => Seq::empty(),
    } + filter_query(filters) + list_includes() + list_ratings() + "&order[relevance]=desc"@
}

/// The order parameter of a named listing.
pub open spec fn listing_order(name: Seq<char>) -> Seq<char> {
    if name == "Latest Updates"@ {
        "&order[latestUploadedChapter]=desc"@
    } else if name == "Recently Added"@ {
        "&order[createdAt]=desc"@
    } else if name == "Top Rated"@ {
        "&order[rating]=desc"@
    } else if name == "Most Follows"@ {
        "&order[followedCount]=desc"@
    } else {
        "&order[latestUploadedChapter]=desc"@
    }
}

/// The address of a listing request.
pub open spec fn listing_address(name: Seq<char>, page: i32) -> Seq<char> {
    list_request_start(page) + list_includes() + list_ratings() + listing_order(name)
}

/// Whether the result offset of a page fits in an `i32`.
pub open spec fn page_in_range(page: i32) -> bool {
    i32::MIN <= (page - 1) * 20 <= i32::MAX
}

impl MangaDex {
    pub fn new() -> Self {
        MangaDex
    }

    /// Whether the result offset of a page fits in an `i32`.
    pub fn page_offset_fits(page: i32) -> (r: bool)
        ensures
            r == page_in_range(page),
    {
        let offset: i64 = (page as i64 - 1) * 20;
        -2147483648 <= offset && offset <= 2147483647
    }

    fn list_request_start_exec(page: i32) -> (res: String)
        requires
            page_in_range(page),
        ensures
            res@ == list_request_start(page),
    {
        let offset: i32 = (page - 1) * 20;
        let mut url = String::new();
        url.append("https://api.mangadex.org");
        url.append("/manga?limit=20&offset=");
        url.append(i32_to_string(offset).as_str());
        url
    }

    /// The address that searches for `query` with `filters`, for a page of
    /// twenty results.
    pub fn search_url(&self, query: Option<String>, page: i32, filters: Vec<Filter>) -> (url: String)
        requires
            page_in_range(page),
        ensures
            url@ == search_address(
                match query {
                    Some(q) => Some(q@),
                    None => None,
                },
                page,
                filters@,
            ),
    {
        let mut url = Self::list_request_start_exec(page);
        if let Some(q) = query {
            url.append("&title=");
            url.append(urlencode(q.as_str()).as_str());
        }
        url.append(get_filter_string(filters).as_str());
        url.append("&includes[]=cover_art&includes[]=author&includes[]=artist");
        url.append("&contentRating[]=safe&contentRating[]=suggestive&contentRating[]=erotica");
        url.append("&order[relevance]=desc");
        url
    }

    /// The address of a page of twenty results of a named listing.
    pub fn listing_url(&self, name: &str, page: i32) -> (url: String)
        requires
            page_in_range(page),
        ensures
            url@ == listing_address(name@, page),
    {
        let mut url = Self::list_request_start_exec(page);
        url.append("&includes[]=cover_art&includes[]=author&includes[]=artist");
        url.append("&contentRating[]=safe&contentRating[]=suggestive&contentRating[]=erotica");
        if crate::text::str_eq(name, "Latest Updates") {
            url.append("&order[latestUploadedChapter]=desc");
        } else if crate::text::str_eq(name, "Recently Added") {
            url.append("&order[createdAt]=desc");
        } else if crate::text::str_eq(name, "Top Rated") {
            url.append("&order[rating]=desc");
        } else if crate::text::str_eq(name, "Most Follows") {
            url.append("&order[followedCount]=desc");
        } else {
            url.append("&order[latestUploadedChapter]=desc");
        }
        url
    }

    /// The address of the details of a series.
    pub fn details_url(&self, key: &str) -> (url: String)
        ensures
            url@ == "https://api.mangadex.org"@ + "/manga/"@ + key@
                + "?includes[]=cover_art&includes[]=author&includes[]=artist"@,
    {
        let mut url = String::new();
        url.append("https://api.mangadex.org");
        url.append("/manga/");
        url.append(key);
        url.append("?includes[]=cover_art&includes[]=author&includes[]=artist");
        url
    }

    /// The address of the image server description of a chapter.
    pub fn chapter_pages_url(&self, chapter_key: &str) -> (url: String)
        ensures
            url@ == "https://api.mangadex.org"@ + "/at-home/server/"@ + chapter_key@,
    {
        let mut url = String::new();
        url.append("https://api.mangadex.org");
        url.append("/at-home/server/");
        url.append(chapter_key);
        url
    }
}


/// The title of a listed series: its English title, or else its first title.
pub open spec fn listed_title(attributes: JsonValue) -> Option<Seq<char>> {
    let t = get(attributes, "title"@);
    match str_member(t, "en"@) {
        Some(x) => Some(x),
        None => match first_value(t) {
            Some(v) => str_of(v),
            None => None,
        },
    }
}

/// The name of the person a relationship names, when it is a named author or artist.
pub open spec fn person_name(rel: JsonValue) -> Option<Seq<char>> {
    if str_member(rel, "type"@) == Some("author"@) || str_member(rel, "type"@) == Some(
        "artist"@,
    ) {
        str_member(get(rel, "attributes"@), "name"@)
    } else {
        None
    }
}

/// The names of the authors and artists among `rels`, each once, in order of
/// first appearance.
pub open spec fn distinct_people(rels: Seq<JsonValue>) -> Seq<Seq<char>>
    decreases rels.len(),
{
    if rels.len() == 0 {
        Seq::empty()
    } else {
        let earlier = distinct_people(rels.drop_last());
        match person_name(rels.last()) {
            Some(n) => if earlier.contains(n) {
                earlier
            } else {
                earlier.push(n)
            },
            None => earlier,
        }
    }
}

/// The relationships of a series object (none when it has no array of them).
pub open spec fn relationships_of(obj: JsonValue) -> Seq<JsonValue> {
    match array_of(get(obj, "relationships"@)) {
        Some(rels) => rels,
        None => Seq::empty(),
    }
}

/// The cover address of a series with identifier `id`, from its relationships.
pub open spec fn cover_text(id: Seq<char>, rels: Seq<JsonValue>) -> Seq<char> {
    match last_cover_file(rels) {
        Some(f) => cover_address(id, f),
        None => Seq::empty(),
    }
}

/// Whether a listed series can be read: an object with a textual `id`, an
/// `attributes` object with a title, and well-formed relationships.
pub open spec fn listed_manga_readable(item: JsonValue) -> bool {
    &&& str_member(item, "id"@) is Some
    &&& object_of(get(item, "attributes"@)) is Some
    &&& listed_title(get(item, "attributes"@)) is Some
    &&& relationships_well_formed(relationships_of(item))
}

/// The entry read from a readable listed series.
pub open spec fn describes_listed_manga(item: JsonValue, m: Manga) -> bool {
    let id = str_member(item, "id"@)->0;
    &&& m.key@ == id
    &&& m.title@ == listed_title(get(item, "attributes"@))->0
    &&& m.cover matches Some(c) && c@ == cover_text(id, relationships_of(item))
    &&& m.authors matches Some(a) && views(a@) == distinct_people(relationships_of(item))
    &&& m.description is None
    &&& m.url is None
    &&& m.tags is None
    &&& m.status == MangaStatus::Unknown
    &&& m.content_rating == ContentRating::Unknown
    &&& m.viewer == Viewer::Unknown
    &&& m.chapters is None
}

/// The readable listed series among `items`, in order.
pub open spec fn readable_listed(items: Seq<JsonValue>) -> Seq<JsonValue>
    decreases items.len(),
{
    if items.len() == 0 {
        Seq::empty()
    } else if listed_manga_readable(items.last()) {
        readable_listed(items.drop_last()).push(items.last())
    } else {
        readable_listed(items.drop_last())
    }
}

/// The cover address and the distinct people of a series, from its relationships;
/// `None` when a relationship is not an object with a textual type.
fn read_relationships(obj: &JsonValue, id: &String) -> (res: Option<(String, Vec<String>)>)
    ensures
        res is Some <==> relationships_well_formed(relationships_of(*obj)),
        res matches Some((cover, people)) ==> cover@ == cover_text(id@, relationships_of(*obj))
            && views(people@) == distinct_people(relationships_of(*obj)),
{
    let mut cover = String::new();
    let mut authors: Vec<String> = Vec::new();
    let rels_opt = array_member(obj, "relationships");
    let ghost rels = relationships_of(*obj);
    match rels_opt {
        Some(relationships) => {
            let mut i: usize = 0;
            while i < relationships.len()
                invariant
                    i <= rels.len(),
                    rels == relationships@,
                    rels == relationships_of(*obj),
                    relationships_well_formed(rels.take(i as int)),
                    cover@ == cover_text(id@, rels.take(i as int)),
                    views(authors@) == distinct_people(rels.take(i as int)),
                decreases relationships.len() - i,
            {
                let rel = &relationships[i];
                assert(rels.take(i + 1).drop_last() =~= rels.take(i as int));
                assert(rels.take(i + 1).last() == *rel);
                assert(rels[i as int] == *rel);
                if !rel.is_object() {
                    return None;
                }
                let rel_type = match rel.string_member("type") {
                    Some(t) => t,
                    None => return None,
                };
                if str_eq(rel_type.as_str(), "cover_art") {
                    if let Some(filename) = string_member_of(get_or_null(rel, "attributes"), "fileName") {
                        let mut url = String::new();
                        url.append("https://uploads.mangadex.org/covers/");
                        url.append(id.as_str());
                        url.append("/");
                        url.append(filename.as_str());
                        cover = url;
                    }
                    assert(person_name(*rel) is None) by {
                        reveal_strlit("cover_art");
                        reveal_strlit("author");
                        reveal_strlit("artist");
                        assert("cover_art"@.len() == 9);
                        assert("author"@.len() == 6);
                        assert("artist"@.len() == 6);
                        assert(str_member(*rel, "type"@) == Some(rel_type@));
                    }
                } else if str_eq(rel_type.as_str(), "author") || str_eq(rel_type.as_str(), "artist") {
                    if let Some(name) = string_member_of(get_or_null(rel, "attributes"), "name") {
                        if !contains_string(&authors, &name) {
                            let ghost prev = authors@;
                            authors.push(name);
                            assert(views(authors@) =~= views(prev).push(name@));
                        }
                    }
                }
                assert(relationships_well_formed(rels.take(i + 1))) by {
                    assert forall|k: int| 0 <= k < i + 1 implies object_of(#[trigger] rels.take(i + 1)[k]) is Some
                        && str_member(rels.take(i + 1)[k], "type"@) is Some by {
                        if k < i {
                            assert(rels.take(i + 1)[k] == rels.take(i as int)[k]);
                        }
                    }
                }
                i = i + 1;
            }
            assert(rels.take(rels.len() as int) =~= rels);
        },
        None => {
            assert(rels =~= Seq::<JsonValue>::empty());
        },
    }
    Some((cover, authors))
}

fn listed_title_exec(attributes: &JsonValue) -> (res: Option<String>)
    ensures
        res matches Some(t) ==> listed_title(*attributes) == Some(t@),
        res is None ==> listed_title(*attributes) is None,
{
    let t = get_or_null(attributes, "title");
    if let Some(en) = string_member_of(t, "en") {
        return Some(en);
    }
    match t {
        Some(tv) => match tv.first_member_value() {
            Some(first) => first.as_string(),
            None => None,
        },
        None => None,
    }
}

/// Reads a listed series.
fn read_listed_manga(item: &JsonValue) -> (res: Option<Manga>)
    ensures
        res is Some <==> listed_manga_readable(*item),
        res matches Some(m) ==> describes_listed_manga(*item, m),
{
    let id = match item.string_member("id") {
        Some(id) => id,
        None => return None,
    };
    let attributes = match get_or_null(item, "attributes") {
        Some(a) => a,
        None => return None,
    };
    if !attributes.is_object() {
        return None;
    }
    let title = match listed_title_exec(attributes) {
        Some(t) => t,
        None => return None,
    };
    match read_relationships(item, &id) {
        Some((cover, authors)) => Some(
            Manga {
                key: id,
                title,
                cover: Some(cover),
                authors: Some(authors),
                description: None,
                url: None,
                tags: None,
                status: MangaStatus::Unknown,
                content_rating: ContentRating::Unknown,
                viewer: Viewer::Unknown,
                chapters: None,
            },
        ),
        None => None,
    }
}

impl MangaDex {
    /// Reads a page of series from a list response: the readable series of
    /// `data`, in order, skipping the others. Fails when `data` is not an array;
    /// there are more results when the announced total exceeds the number read.
    pub fn parse_manga_list(&self, json: &JsonValue) -> (res: Result<MangaPageResult, SourceError>)
        ensures
            res is Ok <==> array_of(get(*json, "data"@)) is Some,
            res matches Ok(r) ==> {
                let objs = readable_listed(array_of(get(*json, "data"@))->0);
                &&& r.entries@.len() == objs.len()
                &&& forall|i: int|
                    0 <= i < objs.len() ==> describes_listed_manga(objs[i], #[trigger] r.entries@[i])
                &&& r.has_next_page == (announced_total(*json) > (r.entries@.len() as i64))
            },
            res matches Err(e) ==> e == SourceError::ParseError,
    {
        let data = match array_member(json, "data") {
            Some(d) => d,
            None => return Err(SourceError::ParseError),
        };
        let total: i64 = match get_or_null(json, "total") {
            Some(t) => match t.as_int() {
                Some(n) => n,
                None => 0,
            },
            None => 0,
        };
        let ghost items = data@;
        let mut entries: Vec<Manga> = Vec::new();
        let mut i: usize = 0;
        while i < data.len()
            invariant
                i <= items.len(),
                items == data@,
                entries@.len() == readable_listed(items.take(i as int)).len(),
                forall|k: int|
                    0 <= k < entries@.len() ==> describes_listed_manga(
                        readable_listed(items.take(i as int))[k],
                        #[trigger] entries@[k],
                    ),
            decreases data.len() - i,
        {
            let item = &data[i];
            assert(items.take(i + 1).drop_last() =~= items.take(i as int));
            assert(items.take(i + 1).last() == *item);
            if let Some(m) = read_listed_manga(item) {
                entries.push(m);
            }
            i = i + 1;
        }
        assert(items.take(items.len() as int) =~= items);
        let has_next_page = total > #[verifier::truncate] (entries.len() as i64);
        Ok(MangaPageResult { entries, has_next_page })
    }
}


/// Whether a details response can be read: a `data` object with an
/// `attributes` object and well-formed relationships.
pub open spec fn details_readable(json: JsonValue) -> bool {
    let data = get(json, "data"@);
    &&& object_of(data) is Some
    &&& object_of(get(data, "attributes"@)) is Some
    &&& relationships_well_formed(relationships_of(data))
}

/// The entry read from a readable details response for the series `id`.
pub open spec fn describes_details(json: JsonValue, id: Seq<char>, m: Manga) -> bool {
    let data = get(json, "data"@);
    let attributes = get(data, "attributes"@);
    &&& m.key@ == id
    &&& m.title@ == match str_member(get(attributes, "title"@), "en"@) {
        Some(t) => t,
        None => Seq::empty(),
    }
    &&& m.cover matches Some(c) && c@ == cover_text(id, relationships_of(data))
    &&& m.authors matches Some(a) && views(a@) == distinct_people(relationships_of(data))
    &&& match m.description {
        Some(d) => str_member(get(attributes, "description"@), "en"@) == Some(d@),
        None => str_member(get(attributes, "description"@), "en"@) is None,
    }
    &&& m.url matches Some(u) && u@ == title_address(id)
    &&& m.tags matches Some(t) && views(t@) == match array_of(get(attributes, "tags"@)) {
        Some(tags) => tag_names(tags),
        None => Seq::empty(),
    }
    &&& m.status == status_named(str_member(attributes, "status"@))
    &&& m.content_rating == ContentRating::Safe
    &&& m.viewer == Viewer::RightToLeft
    &&& m.chapters is None
}

/// The address of a page of up to five hundred English chapters of a series,
/// newest first, starting at `offset`.
pub open spec fn feed_address(manga_id: Seq<char>, offset: i32) -> Seq<char> {
    "https://api.mangadex.org"@ + "/manga/"@ + manga_id + "/feed?limit="@ + "500"@ + "&offset="@
        + decimal_string(offset as int)
        + "&translatedLanguage[]=en&includes[]=scanlation_group&order[chapter]=desc&contentRating[]=safe&contentRating[]=suggestive&contentRating[]=erotica&contentRating[]=pornographic"@
}

/// The address of a chapter page on the MangaDex site.
pub open spec fn chapter_address(id: Seq<char>) -> Seq<char> {
    "https://mangadex.org/chapter/"@ + id
}

/// The names of all named scanlation groups among `rels`, in order.
pub open spec fn group_names(rels: Seq<JsonValue>) -> Seq<Seq<char>>
    decreases rels.len(),
{
    if rels.len() == 0 {
        Seq::empty()
    } else {
        match group_name(rels.last()) {
            Some(n) => group_names(rels.drop_last()).push(n),
            None => group_names(rels.drop_last()),
        }
    }
}

/// The entry read from a readable chapter object of a feed.
pub open spec fn describes_feed_chapter(obj: JsonValue, c: Chapter) -> bool {
    let id = str_member(obj, "id"@)->0;
    let attributes = get(obj, "attributes"@);
    let groups = group_names(relationships_of(obj));
    &&& c.key@ == id
    &&& match c.title {
        Some(t) => str_member(attributes, "title"@) == Some(t@),
        None => str_member(attributes, "title"@) is None,
    }
    &&& number_from(str_member(attributes, "chapter"@), c.chapter_number)
    &&& number_from(str_member(attributes, "volume"@), c.volume_number)
    &&& match str_member(attributes, "publishAt"@) {
        Some(t) => c.date_uploaded matches UploadDate::Text { text, format } && text@ == replace_char(
            t,
            '+',
            'Z',
        ) && format == DateFormat::IsoUtc,
        None => c.date_uploaded == UploadDate::Unknown,
    }
    &&& if groups.len() == 0 {
        c.scanlators is None
    } else {
        c.scanlators matches Some(s) && views(s@) == groups
    }
    &&& c.url matches Some(u) && u@ == chapter_address(id)
    &&& !c.locked
}

/// The chapters of one feed page, when every item of its `data` array is
/// readable.
pub open spec fn feed_page_readable(json: JsonValue) -> bool {
    array_of(get(json, "data"@)) matches Some(items) && all_chapter_objects_readable(items)
}

fn group_names_exec(obj: &JsonValue) -> (res: Vec<String>)
    ensures
        views(res@) == group_names(relationships_of(*obj)),
{
    let mut names: Vec<String> = Vec::new();
    let ghost rels = relationships_of(*obj);
    match array_member(obj, "relationships") {
        Some(relationships) => {
            let mut i: usize = 0;
            while i < relationships.len()
                invariant
                    i <= rels.len(),
                    rels == relationships@,
                    views(names@) == group_names(rels.take(i as int)),
                decreases relationships.len() - i,
            {
                let rel = &relationships[i];
                assert(rels.take(i + 1).drop_last() =~= rels.take(i as int));
                assert(rels.take(i + 1).last() == *rel);
                if let Some(t) = rel.string_member("type") {
                    if str_eq(t.as_str(), "scanlation_group") {
                        if let Some(name) = string_member_of(get_or_null(rel, "attributes"), "name") {
                            let ghost prev = names@;
                            names.push(name);
                            assert(views(names@) =~= views(prev).push(name@));
                        }
                    }
                }
                i = i + 1;
            }
            assert(rels.take(rels.len() as int) =~= rels);
        },
        None => {
            assert(rels =~= Seq::<JsonValue>::empty());
        },
    }
    names
}

/// Reads a readable chapter object of a feed.
fn read_feed_chapter(item: &JsonValue) -> (res: Option<Chapter>)
    ensures
        res is Some <==> chapter_object_readable(*item),
        res matches Some(c) ==> describes_feed_chapter(*item, c),
{
    let id = match item.string_member("id") {
        Some(id) => id,
        None => return None,
    };
    let attributes = match get_or_null(item, "attributes") {
        Some(a) => a,
        None => return None,
    };
    if !attributes.is_object() {
        return None;
    }
    let chapter_number = number_text_of(attributes, "chapter");
    let volume_number = number_text_of(attributes, "volume");
    let title = attributes.string_member("title");
    let date_uploaded = match attributes.string_member("publishAt") {
        Some(t) => UploadDate::Text {
            text: replace_char_exec(t.as_str(), '+', 'Z'),
            format: DateFormat::IsoUtc,
        },
        None => UploadDate::Unknown,
    };
    let groups = group_names_exec(item);
    let scanlators = if groups.len() == 0 {
        None
    } else {
        Some(groups)
    };
    let mut url = String::new();
    url.append("https://mangadex.org/chapter/");
    url.append(id.as_str());
    Some(
        Chapter {
            key: id,
            title,
            chapter_number,
            volume_number,
            date_uploaded,
            scanlators,
            url: Some(url),
            locked: false,
        },
    )
}

/// What reading a feed page gives: `None` for a page without chapters, which
/// ends the feed, and otherwise its chapters in order.
pub open spec fn describes_feed_page(json: JsonValue, page: Option<Vec<Chapter>>) -> bool {
    let items = array_of(get(json, "data"@))->0;
    match page {
        None => items.len() == 0,
        Some(chapters) => items.len() > 0 && chapters@.len() == items.len() && forall|i: int|
            0 <= i < items.len() ==> describes_feed_chapter(items[i], #[trigger] chapters@[i]),
    }
}

/// The files among `files` that are named by a text, with their positions, in order.
pub open spec fn named_files(files: Seq<JsonValue>) -> Seq<(int, Seq<char>)>
    decreases files.len(),
{
    if files.len() == 0 {
        Seq::empty()
    } else {
        match str_of(files.last()) {
            Some(f) => named_files(files.drop_last()).push((files.len() - 1, f)),
            None => named_files(files.drop_last()),
        }
    }
}

/// Whether an image server response can be read: a textual `baseUrl`, a
/// `chapter` object with a textual `hash` and a `data` array.
pub open spec fn server_response_readable(json: JsonValue) -> bool {
    let chapter = get(json, "chapter"@);
    &&& str_member(json, "baseUrl"@) is Some
    &&& object_of(chapter) is Some
    &&& str_member(chapter, "hash"@) is Some
    &&& array_of(get(chapter, "data"@)) is Some
}

impl MangaDex {
    /// Reads a details response into the entry of the series `id`.
    pub fn parse_manga_details(&self, json: &JsonValue, id: String) -> (res: Result<Manga, SourceError>)
        ensures
            res is Ok <==> details_readable(*json),
            res matches Ok(m) ==> describes_details(*json, id@, m),
            res matches Err(e) ==> e == SourceError::ParseError,
    {
        let data = match get_or_null(json, "data") {
            Some(d) => d,
            None => return Err(SourceError::ParseError),
        };
        if !data.is_object() {
            return Err(SourceError::ParseError);
        }
        let attributes = match get_or_null(data, "attributes") {
            Some(a) => a,
            None => return Err(SourceError::ParseError),
        };
        if !attributes.is_object() {
            return Err(SourceError::ParseError);
        }
        let title = match string_member_of(get_or_null(attributes, "title"), "en") {
            Some(t) => t,
            None => String::new(),
        };
        let description = string_member_of(get_or_null(attributes, "description"), "en");
        let status = status_exec(attributes.string_member("status"));
        let (cover, authors) = match read_relationships(data, &id) {
            Some(r) => r,
            None => return Err(SourceError::ParseError),
        };
        let tags = match array_member(attributes, "tags") {
            Some(t) => tag_names_exec(t),
            None => Vec::new(),
        };
        let mut url = String::new();
        url.append("https://mangadex.org/title/");
        url.append(id.as_str());
        let ghost attrs = get(get(*json, "data"@), "attributes"@);
        assert(title@ == match str_member(get(attrs, "title"@), "en"@) {
            Some(t) => t,
            None => Seq::empty(),
        });
        assert(match description {
            Some(d) => str_member(get(attrs, "description"@), "en"@) == Some(d@),
            None => str_member(get(attrs, "description"@), "en"@) is None,
        });
        assert(cover@ == cover_text(id@, relationships_of(get(*json, "data"@))));
        assert(views(authors@) == distinct_people(relationships_of(get(*json, "data"@))));
        assert(views(tags@) == match array_of(get(attrs, "tags"@)) {
            Some(tags) => tag_names(tags),
            None => Seq::empty(),
        });
        assert(status == status_named(str_member(attrs, "status"@)));
        Ok(
            Manga {
                key: id,
                title,
                cover: Some(cover),
                authors: Some(authors),
                description,
                url: Some(url),
                tags: Some(tags),
                status,
                content_rating: ContentRating::Safe,
                viewer: Viewer::RightToLeft,
                chapters: None,
            },
        )
    }

    /// The address of a page of the chapter feed of a series.
    pub fn feed_url(&self, manga_id: &str, offset: i32) -> (url: String)
        requires
            offset > i32::MIN,
        ensures
            url@ == feed_address(manga_id@, offset),
    {
        let mut url = String::new();
        url.append("https://api.mangadex.org");
        url.append("/manga/");
        url.append(manga_id);
        url.append("/feed?limit=");
        url.append("500");
        url.append("&offset=");
        url.append(i32_to_string(offset).as_str());
        url.append(
            "&translatedLanguage[]=en&includes[]=scanlation_group&order[chapter]=desc&contentRating[]=safe&contentRating[]=suggestive&contentRating[]=erotica&contentRating[]=pornographic",
        );
        url
    }

    /// Reads one page of a chapter feed.
    pub fn parse_feed_page(&self, json: &JsonValue) -> (res: Result<Option<Vec<Chapter>>, SourceError>)
        ensures
            res is Ok <==> feed_page_readable(*json),
            res matches Ok(page) ==> describes_feed_page(*json, page),
            res matches Err(e) ==> e == SourceError::ParseError,
    {
        let data = match array_member(json, "data") {
            Some(d) => d,
            None => return Err(SourceError::ParseError),
        };
        if data.len() == 0 {
            return Ok(None);
        }
        let ghost items = data@;
        let mut chapters: Vec<Chapter> = Vec::new();
        let mut i: usize = 0;
        while i < data.len()
            invariant
                i <= items.len(),
                items == data@,
                array_of(get(*json, "data"@)) == Some(items),
                chapters@.len() == i,
                forall|k: int| 0 <= k < i ==> chapter_object_readable(#[trigger] items[k]),
                forall|k: int|
                    0 <= k < i ==> describes_feed_chapter(items[k], #[trigger] chapters@[k]),
            decreases data.len() - i,
        {
            let item = &data[i];
            assert(items[i as int] == *item);
            match read_feed_chapter(item) {
                Some(c) => chapters.push(c),
                None => return Err(SourceError::ParseError),
            }
            i = i + 1;
        }
        Ok(Some(chapters))
    }

    /// Reads the pages of an image server response: one page for each file
    /// named by a text, at its position in the file list.
    pub fn parse_chapter_pages(&self, json: &JsonValue) -> (res: Result<Vec<Page>, SourceError>)
        ensures
            res is Ok <==> server_response_readable(*json),
            res matches Ok(pages) ==> {
                let chapter = get(*json, "chapter"@);
                let named = named_files(array_of(get(chapter, "data"@))->0);
                &&& pages@.len() == named.len()
                &&& forall|i: int|
                    0 <= i < named.len() ==> (#[trigger] pages@[i]).index == named[i].0 as i32
                        && pages@[i].url@ == image_address(
                        str_member(*json, "baseUrl"@)->0,
                        str_member(chapter, "hash"@)->0,
                        named[i].1,
                    )
            },
            res matches Err(e) ==> e == SourceError::ParseError,
    {
        let base_url = match json.string_member("baseUrl") {
            Some(b) => b,
            None => return Err(SourceError::ParseError),
        };
        let chapter = match get_or_null(json, "chapter") {
            Some(c) => c,
            None => return Err(SourceError::ParseError),
        };
        if !chapter.is_object() {
            return Err(SourceError::ParseError);
        }
        let hash = match chapter.string_member("hash") {
            Some(h) => h,
            None => return Err(SourceError::ParseError),
        };
        let data = match array_member(chapter, "data") {
            Some(d) => d,
            None => return Err(SourceError::ParseError),
        };
        let ghost files = data@;
        let mut pages: Vec<Page> = Vec::new();
        let mut i: usize = 0;
        while i < data.len()
            invariant
                i <= files.len(),
                files == data@,
                pages@.len() == named_files(files.take(i as int)).len(),
                forall|k: int|
                    0 <= k < pages@.len() ==> (#[trigger] pages@[k]).index == named_files(
                        files.take(i as int),
                    )[k].0 as i32 && pages@[k].url@ == image_address(
                        base_url@,
                        hash@,
                        named_files(files.take(i as int))[k].1,
                    ),
            decreases data.len() - i,
        {
            assert(files.take(i + 1).drop_last() =~= files.take(i as int));
            assert(files.take(i + 1).last() == data@[i as int]);
            if let Some(filename) = data[i].as_string() {
                let mut url = String::new();
                url.append(base_url.as_str());
                url.append("/data/");
                url.append(hash.as_str());
                url.append("/");
                url.append(filename.as_str());
                pages.push(Page { index: #[verifier::truncate] (i as i32), url });
            }
            i = i + 1;
        }
        assert(files.take(files.len() as int) =~= files);
        Ok(pages)
    }
}

/// The chapter feed of a series, read page by page: the next page to request,
/// the chapters read so far, and whether the feed has ended.
pub struct ChapterFeed {
    pub manga_id: String,
    pub offset: i32,
    pub chapters: Vec<Chapter>,
    pub finished: bool,
}

impl ChapterFeed {
    /// A feed that has read nothing yet and starts at the first chapter.
    pub fn new(manga_id: String) -> (feed: Self)
        ensures
            feed.manga_id == manga_id,
            feed.offset == 0,
            feed.chapters@.len() == 0,
            !feed.finished,
    {
        ChapterFeed { manga_id, offset: 0, chapters: Vec::new(), finished: false }
    }

    /// The address of the next page to request, unless the feed has ended.
    pub fn next_url(&self) -> (url: Option<String>)
        requires
            self.offset >= 0,
        ensures
            url is None <==> self.finished,
            url matches Some(u) ==> u@ == feed_address(self.manga_id@, self.offset),
    {
        if self.finished {
            None
        } else {
            Some(MangaDex.feed_url(self.manga_id.as_str(), self.offset))
        }
    }

    /// Takes in the response to the page last requested: a page without
    /// chapters ends the feed; otherwise its chapters are added and the next
    /// page starts five hundred chapters further.
    pub fn absorb(&mut self, json: &JsonValue) -> (res: Result<(), SourceError>)
        requires
            !old(self).finished,
            0 <= old(self).offset <= i32::MAX - 500,
        ensures
            res is Ok <==> feed_page_readable(*json),
            res is Err ==> *final(self) == *old(self),
            res is Ok ==> {
                &&& final(self).manga_id == old(self).manga_id
                &&& if array_of(get(*json, "data"@))->0.len() == 0 {
                    &&& final(self).finished
                    &&& final(self).offset == old(self).offset
                    &&& final(self).chapters@ == old(self).chapters@
                } else {
                    &&& !final(self).finished
                    &&& final(self).offset == old(self).offset + 500
                    &&& final(self).chapters@.len() == old(self).chapters@.len()
                        + array_of(get(*json, "data"@))->0.len()
                    &&& forall|k: int|
                        0 <= k < old(self).chapters@.len() ==> #[trigger] final(self).chapters@[k]
                            == old(self).chapters@[k]
                    &&& forall|k: int|
                        0 <= k < array_of(get(*json, "data"@))->0.len() ==> describes_feed_chapter(
                            array_of(get(*json, "data"@))->0[k],
                            #[trigger] final(self).chapters@[old(self).chapters@.len() + k],
                        )
                }
            },
    {
        match MangaDex.parse_feed_page(json) {
            Err(e) => Err(e),
            Ok(None) => {
                self.finished = true;
                Ok(())
            },
            Ok(Some(mut page)) => {
                let ghost before = self.chapters@;
                let ghost got = page@;
                self.chapters.append(&mut page);
                self.offset = self.offset + 500;
                assert(self.chapters@ == before + got);
                Ok(())
            },
        }
    }
}

/// The character `k` places from the end of `x + l` is that of `l`, when `l`
/// has at least `k` characters.
proof fn lemma_char_from_end(x: Seq<char>, l: Seq<char>, k: int)
    requires
        0 < k <= l.len(),
    ensures
        (x + l)[(x + l).len() - k] == l[l.len() - k],
{
}

/// Law: the `Latest Updates`, `Recently Added`, `Top Rated` and `Most Follows`
/// listings order by latest uploaded chapter, creation date, rating and
/// follower count; any other name is the `Latest Updates` listing; and only
/// `Recently Added` orders by creation date.
pub proof fn law_listing_orders(name: Seq<char>, page: i32)
    ensures
        ends_with(listing_address("Latest Updates"@, page), "&order[latestUploadedChapter]=desc"@),
        ends_with(listing_address("Recently Added"@, page), "&order[createdAt]=desc"@),
        ends_with(listing_address("Top Rated"@, page), "&order[rating]=desc"@),
        ends_with(listing_address("Most Follows"@, page), "&order[followedCount]=desc"@),
        name != "Latest Updates"@ && name != "Recently Added"@ && name != "Top Rated"@ && name
            != "Most Follows"@ ==> listing_address(name, page) == listing_address(
            "Latest Updates"@,
            page,
        ),
        ends_with(listing_address(name, page), "&order[createdAt]=desc"@) ==> name
            == "Recently Added"@,
{
    reveal_strlit("Latest Updates");
    reveal_strlit("Recently Added");
    reveal_strlit("Top Rated");
    reveal_strlit("Most Follows");
    reveal_strlit("&order[latestUploadedChapter]=desc");
    reveal_strlit("&order[createdAt]=desc");
    reveal_strlit("&order[rating]=desc");
    reveal_strlit("&order[followedCount]=desc");
    assert("Recently Added"@[0] != "Latest Updates"@[0]);
    assert("Top Rated"@.len() != "Latest Updates"@.len());
    assert("Top Rated"@.len() != "Recently Added"@.len());
    assert("Most Follows"@.len() != "Latest Updates"@.len());
    assert("Most Follows"@.len() != "Recently Added"@.len());
    assert("Most Follows"@.len() != "Top Rated"@.len());
    let p = list_request_start(page) + list_includes() + list_ratings();
    let latest = "&order[latestUploadedChapter]=desc"@;
    let created = "&order[createdAt]=desc"@;
    let rating = "&order[rating]=desc"@;
    let follows = "&order[followedCount]=desc"@;
    assert((p + latest).subrange((p + latest).len() - latest.len(), (p + latest).len() as int) =~= latest);
    assert((p + created).subrange((p + created).len() - created.len(), (p + created).len() as int) =~= created);
    assert((p + rating).subrange((p + rating).len() - rating.len(), (p + rating).len() as int) =~= rating);
    assert((p + follows).subrange((p + follows).len() - follows.len(), (p + follows).len() as int) =~= follows);
    let s = listing_address(name, page);
    if ends_with(s, created) && name != "Recently Added"@ {
        assert(s.subrange(s.len() - 22, s.len() as int)[14] == s[s.len() - 8]);
        assert(s[s.len() - 8] == 'A');
        if name == "Top Rated"@ {
            lemma_char_from_end(p, rating, 8);
        } else if name == "Most Follows"@ {
            lemma_char_from_end(p, follows, 8);
        } else {
            lemma_char_from_end(p, latest, 8);
        }
    }
}

/// Law: the entry of a series has the publication status its status text
/// names: `ongoing`, `completed`, `hiatus` and `cancelled` give Ongoing,
/// Completed, Hiatus and Cancelled, and any other text, or none, gives Unknown.
pub proof fn law_entry_status(json: JsonValue, id: Seq<char>, m: Manga)
    requires
        describes_details(json, id, m),
    ensures
        str_member(get(get(json, "data"@), "attributes"@), "status"@) == Some("ongoing"@)
            ==> m.status == MangaStatus::Ongoing,
        str_member(get(get(json, "data"@), "attributes"@), "status"@) == Some("completed"@)
            ==> m.status == MangaStatus::Completed,
        str_member(get(get(json, "data"@), "attributes"@), "status"@) == Some("hiatus"@)
            ==> m.status == MangaStatus::Hiatus,
        str_member(get(get(json, "data"@), "attributes"@), "status"@) == Some("cancelled"@)
            ==> m.status == MangaStatus::Cancelled,
        str_member(get(get(json, "data"@), "attributes"@), "status"@) != Some("ongoing"@)
            && str_member(get(get(json, "data"@), "attributes"@), "status"@) != Some(
            "completed"@,
        ) && str_member(get(get(json, "data"@), "attributes"@), "status"@) != Some("hiatus"@)
            && str_member(get(get(json, "data"@), "attributes"@), "status"@) != Some(
            "cancelled"@,
        ) ==> m.status == MangaStatus::Unknown,
{
    lemma_status_texts_distinct();
}

} // verus!
