//! Reading MangaDex API responses into catalog records.

use vstd::prelude::*;
use crate::common::{ContentRating, MangaStatus, SourceError, Viewer};
use crate::json::{JsonValue, array_of, first_value, get, int_of, lookup, object_of, str_member, str_of};
use crate::record::{Chapter, DateText, Manga, MangaPageResult, NumberText, Page};
use crate::text::{str_eq, views};

verus! {

/// The English text of a localized-text object, or else the text of its first
/// member, or else nothing.
pub open spec fn localized_text(v: JsonValue) -> Seq<char> {
    match str_member(v, "en"@) {
        Some(t) => t,
        None => match first_value(v) {
            Some(x) => match str_of(x) {
                Some(t) => t,
                None => Seq::empty(),
            },
            None => Seq::empty(),
        },
    }
}

/// The address of a cover image file of a series.
pub open spec fn cover_address(id: Seq<char>, file: Seq<char>) -> Seq<char> {
    "https://uploads.mangadex.org/covers/"@ + id + "/"@ + file
}

/// The address of a series page on the MangaDex site.
pub open spec fn title_address(id: Seq<char>) -> Seq<char> {
    "https://mangadex.org/title/"@ + id
}

/// The cover file named by a relationship, when it is a `cover_art` relationship
/// with a file name.
pub open spec fn cover_file(rel: JsonValue) -> Option<Seq<char>> {
    if str_member(rel, "type"@) == Some("cover_art"@) {
        str_member(get(rel, "attributes"@), "fileName"@)
    } else {
        None
    }
}

/// The cover file named by the last cover relationship that names one.
pub open spec fn last_cover_file(rels: Seq<JsonValue>) -> Option<Seq<char>>
    decreases rels.len(),
{
    if rels.len() == 0 {
        None
    } else {
        match cover_file(rels.last()) {
            Some(f) => Some(f),
            None => last_cover_file(rels.drop_last()),
        }
    }
}

/// Whether every relationship is an object with a textual type.
pub open spec fn relationships_well_formed(rels: Seq<JsonValue>) -> bool {
    forall|i: int|
        0 <= i < rels.len() ==> object_of(#[trigger] rels[i]) is Some && str_member(
            rels[i],
            "type"@,
        ) is Some
}

/// The publication status named by a status text.
pub open spec fn status_named(s: Option<Seq<char>>) -> MangaStatus {
    if s == Some("ongoing"@) {
        MangaStatus::Ongoing
    } else if s == Some("completed"@) {
        MangaStatus::Completed
    } else if s == Some("hiatus"@) {
        MangaStatus::Hiatus
    } else if s == Some("cancelled"@) {
        MangaStatus::Cancelled
    } else {
        MangaStatus::Unknown
    }
}

/// The catalog rating for a content rating text: erotica and pornographic
/// series are not safe, everything else is.
pub open spec fn rating_named(s: Option<Seq<char>>) -> ContentRating {
    if s == Some("erotica"@) || s == Some("pornographic"@) {
        ContentRating::Nsfw
    } else {
        ContentRating::Safe
    }
}

/// The English name of a tag object.
pub open spec fn tag_name(tag: JsonValue) -> Option<Seq<char>> {
    str_member(get(get(tag, "attributes"@), "name"@), "en"@)
}

/// The English names of the tags that have one, in order.
pub open spec fn tag_names(tags: Seq<JsonValue>) -> Seq<Seq<char>>
    decreases tags.len(),
{
    if tags.len() == 0 {
        Seq::empty()
    } else {
        match tag_name(tags.last()) {
            Some(n) => tag_names(tags.drop_last()).push(n),
            None => tag_names(tags.drop_last()),
        }
    }
}

/// Whether a series object can be read: it has a textual `id`, an `attributes`
/// object with a `title` object, and well-formed relationships when it has any.
pub open spec fn manga_object_readable(obj: JsonValue) -> bool {
    &&& str_member(obj, "id"@) is Some
    &&& object_of(get(obj, "attributes"@)) is Some
    &&& object_of(get(get(obj, "attributes"@), "title"@)) is Some
    &&& match array_of(get(obj, "relationships"@)) {
        Some(rels) => relationships_well_formed(rels),
        None => true,
    }
}

/// The author of a series: its `author` text, or else its `artist` text.
pub open spec fn author_text(attributes: JsonValue) -> Seq<char> {
    match str_member(attributes, "author"@) {
        Some(a) => a,
        None => match str_member(attributes, "artist"@) {
            Some(a) => a,
            None => Seq::empty(),
        },
    }
}

/// The record read from a readable series object.
pub open spec fn describes_manga(obj: JsonValue, m: Manga) -> bool {
    let id = str_member(obj, "id"@)->0;
    let attributes = get(obj, "attributes"@);
    &&& m.id@ == id
    &&& m.title@ == localized_text(get(attributes, "title"@))
    &&& m.description@ == localized_text(get(attributes, "description"@))
    &&& m.cover@ == match array_of(get(obj, "relationships"@)) {
        Some(rels) => match last_cover_file(rels) {
            Some(f) => cover_address(id, f),
            None => Seq::empty(),
        },
        None => Seq::empty(),
    }
    &&& m.status == status_named(str_member(attributes, "status"@))
    &&& m.nsfw == rating_named(str_member(attributes, "contentRating"@))
    &&& views(m.categories@) == match array_of(get(attributes, "tags"@)) {
        Some(tags) => tag_names(tags),
        None => Seq::empty(),
    }
    &&& m.author@ == author_text(attributes)
    &&& m.artist@ == Seq::<char>::empty()
    &&& m.url@ == title_address(id)
    &&& m.viewer == Viewer::RightToLeft
}

pub(crate) fn get_or_null<'a>(v: &'a JsonValue, key: &str) -> (r: Option<&'a JsonValue>)
    ensures
        r matches Some(x) ==> get(*v, key@) == *x,
        r is None ==> get(*v, key@) == JsonValue::Null,
{
    v.member(key)
}

fn localized_text_exec(v: Option<&JsonValue>) -> (res: String)
    ensures
        res@ == localized_text(
            match v {
                Some(x) => *x,
                None => JsonValue::Null,
            },
        ),
{
    match v {
        Some(x) => {
            if let Some(t) = x.string_member("en") {
                return t;
            }
            if let Some(first) = x.first_member_value() {
                if let Some(t) = first.as_string() {
                    return t;
                }
            }
            String::new()
        },
        None => String::new(),
    }
}

pub(crate) fn status_exec(s: Option<String>) -> (r: MangaStatus)
    ensures
        r == status_named(
            match s {
                Some(t) => Some(t@),
                None => None,
            },
        ),
{
    match s {
        Some(t) => {
            if str_eq(t.as_str(), "ongoing") {
                MangaStatus::Ongoing
            } else if str_eq(t.as_str(), "completed") {
                MangaStatus::Completed
            } else if str_eq(t.as_str(), "hiatus") {
                MangaStatus::Hiatus
            } else if str_eq(t.as_str(), "cancelled") {
                MangaStatus::Cancelled
            } else {
                MangaStatus::Unknown
            }
        },
        None => MangaStatus::Unknown,
    }
}

fn rating_exec(s: Option<String>) -> (r: ContentRating)
    ensures
        r == rating_named(
            match s {
                Some(t) => Some(t@),
                None => None,
            },
        ),
{
    match s {
        Some(t) => {
            if str_eq(t.as_str(), "erotica") || str_eq(t.as_str(), "pornographic") {
                ContentRating::Nsfw
            } else {
                ContentRating::Safe
            }
        },
        None => ContentRating::Safe,
    }
}

pub(crate) fn string_member_of(v: Option<&JsonValue>, key: &str) -> (r: Option<String>)
    ensures
        r matches Some(s) ==> str_member(
            match v {
                Some(x) => *x,
                None => JsonValue::Null,
            },
            key@,
        ) == Some(s@),
        r is None ==> str_member(
            match v {
                Some(x) => *x,
                None => JsonValue::Null,
            },
            key@,
        ) is None,
{
    match v {
        Some(x) => x.string_member(key),
        None => None,
    }
}

pub(crate) fn tag_names_exec(tags: &Vec<JsonValue>) -> (res: Vec<String>)
    ensures
        views(res@) == tag_names(tags@),
{
    let mut res: Vec<String> = Vec::new();
    let mut i: usize = 0;
    while i < tags.len()
        invariant
            i <= tags@.len(),
            views(res@) == tag_names(tags@.take(i as int)),
        decreases tags.len() - i,
    {
        let tag = &tags[i];
        assert(tags@.take(i + 1).drop_last() =~= tags@.take(i as int));
        assert(tags@.take(i + 1).last() == *tag);
        let attrs = get_or_null(tag, "attributes");
        let name_obj = match attrs {
            Some(a) => get_or_null(a, "name"),
            None => None,
        };
        assert(get(get(*tag, "attributes"@), "name"@) == match name_obj {
            Some(x) => *x,
            None => JsonValue::Null,
        });
        if let Some(n) = string_member_of(name_obj, "en") {
            let ghost prev = res@;
            res.push(n);
            assert(views(res@) =~= views(prev).push(n@));
        }
        i = i + 1;
    }
    assert(tags@.take(tags@.len() as int) =~= tags@);
    res
}

pub(crate) fn array_member<'a>(v: &'a JsonValue, key: &str) -> (r: Option<&'a Vec<JsonValue>>)
    ensures
        r matches Some(a) ==> array_of(get(*v, key@)) == Some(a@),
        r is None ==> array_of(get(*v, key@)) is None,
{
    match v.member(key) {
        Some(x) => x.as_array(),
        None => None,
    }
}

/// Reads a series object.
fn parse_manga_object(obj: &JsonValue) -> (res: Result<Manga, SourceError>)
    ensures
        res is Ok <==> manga_object_readable(*obj),
        res matches Ok(m) ==> describes_manga(*obj, m),
        res matches Err(e) ==> e == SourceError::ParseError,
{
    let id = match obj.string_member("id") {
        Some(id) => id,
        None => return Err(SourceError::ParseError),
    };
    let attributes = match get_or_null(obj, "attributes") {
        Some(a) => a,
        None => return Err(SourceError::ParseError),
    };
    if !attributes.is_object() {
        return Err(SourceError::ParseError);
    }
    let title_obj = match get_or_null(attributes, "title") {
        Some(t) => t,
        None => return Err(SourceError::ParseError),
    };
    if !title_obj.is_object() {
        return Err(SourceError::ParseError);
    }
    let title = localized_text_exec(Some(title_obj));
    let description = localized_text_exec(get_or_null(attributes, "description"));
    let mut cover_url = String::new();
    let rels_opt = array_member(obj, "relationships");
    if let Some(relationships) = rels_opt {
        let ghost rels = relationships@;
        let mut i: usize = 0;
        while i < relationships.len()
            invariant
                i <= rels.len(),
                rels == relationships@,
                array_of(get(*obj, "relationships"@)) == Some(rels),
                str_member(*obj, "id"@) == Some(id@),
                object_of(get(*obj, "attributes"@)) is Some,
                object_of(get(get(*obj, "attributes"@), "title"@)) is Some,
                relationships_well_formed(rels.take(i as int)),
                cover_url@ == match last_cover_file(rels.take(i as int)) {
                    Some(f) => cover_address(id@, f),
                    None => Seq::empty(),
                },
            decreases relationships.len() - i,
        {
            let rel = &relationships[i];
            assert(rels.take(i + 1).drop_last() =~= rels.take(i as int));
            assert(rels.take(i + 1).last() == *rel);
            if !rel.is_object() {
                assert(!relationships_well_formed(rels)) by {
                    assert(rels[i as int] == *rel);
                }
                return Err(SourceError::ParseError);
            }
            let rel_type = match rel.string_member("type") {
                Some(t) => t,
                None => {
                    assert(!relationships_well_formed(rels)) by {
                        assert(rels[i as int] == *rel);
                    }
                    return Err(SourceError::ParseError);
                },
            };
            if str_eq(rel_type.as_str(), "cover_art") {
                if let Some(filename) = string_member_of(get_or_null(rel, "attributes"), "fileName") {
                    let mut url = String::new();
                    url.append("https://uploads.mangadex.org/covers/");
                    url.append(id.as_str());
                    url.append("/");
                    url.append(filename.as_str());
                    cover_url = url;
                }
            }
            assert(relationships_well_formed(rels.take(i + 1))) by {
                assert forall|k: int| 0 <= k < i + 1 implies object_of(#[trigger] rels.take(i + 1)[k]) is Some
                    && str_member(rels.take(i + 1)[k], "type"@) is Some by {
                    if k < i {
                        assert(rels.take(i + 1)[k] == rels.take(i as int)[k]);
                    }
                }
            }
            i = i + 1;
        }
        assert(rels.take(rels.len() as int) =~= rels);
    }
    let status = status_exec(string_member_of(Some(attributes), "status"));
    let nsfw = rating_exec(string_member_of(Some(attributes), "contentRating"));
    let categories = match array_member(attributes, "tags") {
        Some(tags) => tag_names_exec(tags),
        None => Vec::new(),
    };
    let author = match attributes.string_member("author") {
        Some(a) => a,
        None => match attributes.string_member("artist") {
            Some(a) => a,
            None => String::new(),
        },
    };
    let mut url = String::new();
    url.append("https://mangadex.org/title/");
    url.append(id.as_str());
    assert(manga_object_readable(*obj));
    assert(title@ == localized_text(get(get(*obj, "attributes"@), "title"@)));
    assert(cover_url@ == match array_of(get(*obj, "relationships"@)) {
        Some(rels) => match last_cover_file(rels) {
            Some(f) => cover_address(id@, f),
            None => Seq::empty(),
        },
        None => Seq::empty(),
    });
    let ghost attrs = get(*obj, "attributes"@);
    assert(description@ == localized_text(get(attrs, "description"@)));
    assert(status == status_named(str_member(attrs, "status"@)));
    assert(nsfw == rating_named(str_member(attrs, "contentRating"@)));
    assert(views(categories@) == match array_of(get(attrs, "tags"@)) {
        Some(tags) => tag_names(tags),
        None => Seq::empty(),
    });
    assert(author@ == author_text(attrs));
    assert(url@ == title_address(id@));
    Ok(
        Manga {
            id,
            cover: cover_url,
            title,
            author,
            artist: String::new(),
            description,
            url,
            categories,
            status,
            nsfw,
            viewer: Viewer::RightToLeft,
        },
    )
}


/// Whether every element is an object.
pub open spec fn all_objects(items: Seq<JsonValue>) -> bool {
    forall|i: int| 0 <= i < items.len() ==> object_of(#[trigger] items[i]) is Some
}

/// The readable series objects among `items`, in order.
pub open spec fn readable_manga_objects(items: Seq<JsonValue>) -> Seq<JsonValue>
    decreases items.len(),
{
    if items.len() == 0 {
        Seq::empty()
    } else if manga_object_readable(items.last()) {
        readable_manga_objects(items.drop_last()).push(items.last())
    } else {
        readable_manga_objects(items.drop_last())
    }
}

/// The total a list response announces, or zero.
pub open spec fn announced_total(json: JsonValue) -> i64 {
    match int_of(get(json, "total"@)) {
        Some(t) => t,
        None => 0,
    }
}

/// Reads a page of series from a list response: the readable series objects
/// of `data`, in order. Fails when `data` is not an array or holds a
/// non-object; there are more results when the announced total (as an `i32`)
/// exceeds the number read.
pub fn parse_manga_list(json: &JsonValue) -> (res: Result<MangaPageResult, SourceError>)
    ensures
        res is Ok <==> (array_of(get(*json, "data"@)) matches Some(items) && all_objects(items)),
        res matches Ok(r) ==> {
            let objs = readable_manga_objects(array_of(get(*json, "data"@))->0);
            &&& r.manga@.len() == objs.len()
            &&& forall|i: int| 0 <= i < objs.len() ==> describes_manga(objs[i], #[trigger] r.manga@[i])
            &&& r.has_more == ((announced_total(*json) as i32) > (r.manga@.len() as i32))
        },
        res matches Err(e) ==> e == SourceError::ParseError,
{
    let data = match array_member(json, "data") {
        Some(d) => d,
        None => return Err(SourceError::ParseError),
    };
    let total: i32 = match get_or_null(json, "total") {
        Some(t) => match t.as_int() {
            Some(n) => #[verifier::truncate] (n as i32),
            None => 0,
        },
        None => 0,
    };
    let ghost items = data@;
    let mut manga_list: Vec<Manga> = Vec::new();
    let mut i: usize = 0;
    while i < data.len()
        invariant
            i <= items.len(),
            items == data@,
            array_of(get(*json, "data"@)) == Some(items),
            all_objects(items.take(i as int)),
            manga_list@.len() == readable_manga_objects(items.take(i as int)).len(),
            forall|k: int|
                0 <= k < manga_list@.len() ==> describes_manga(
                    readable_manga_objects(items.take(i as int))[k],
                    #[trigger] manga_list@[k],
                ),
        decreases data.len() - i,
    {
        let item = &data[i];
        let ghost before = items.take(i as int);
        assert(items.take(i + 1).drop_last() =~= before);
        assert(items.take(i + 1).last() == *item);
        if !item.is_object() {
            assert(!all_objects(items)) by {
                assert(items[i as int] == *item);
            }
            return Err(SourceError::ParseError);
        }
        match parse_manga_object(item) {
            Ok(manga) => {
                manga_list.push(manga);
            },
            Err(_) => {},
        }
        assert(all_objects(items.take(i + 1))) by {
            assert forall|k: int| 0 <= k < i + 1 implies object_of(#[trigger] items.take(i + 1)[k]) is Some by {
                if k < i {
                    assert(items.take(i + 1)[k] == before[k]);
                }
            }
        }
        i = i + 1;
    }
    assert(items.take(items.len() as int) =~= items);
    let has_more = total > #[verifier::truncate] (manga_list.len() as i32);
    Ok(MangaPageResult { manga: manga_list, has_more })
}

/// Reads the series in the `data` object of a details response.
pub fn parse_manga_details(json: &JsonValue) -> (res: Result<Manga, SourceError>)
    ensures
        res is Ok <==> (object_of(get(*json, "data"@)) is Some && manga_object_readable(
            get(*json, "data"@),
        )),
        res matches Ok(m) ==> describes_manga(get(*json, "data"@), m),
        res matches Err(e) ==> e == SourceError::ParseError,
{
    match get_or_null(json, "data") {
        Some(data) => {
            if !data.is_object() {
                return Err(SourceError::ParseError);
            }
            parse_manga_object(data)
        },
        None => Err(SourceError::ParseError),
    }
}

/// The scanlation group a relationship names, when it is one with a name.
pub open spec fn group_name(rel: JsonValue) -> Option<Seq<char>> {
    if str_member(rel, "type"@) == Some("scanlation_group"@) {
        str_member(get(rel, "attributes"@), "name"@)
    } else {
        None
    }
}

/// The name of the first named scanlation group among `rels`.
pub open spec fn first_group_name(rels: Seq<JsonValue>) -> Option<Seq<char>>
    decreases rels.len(),
{
    if rels.len() == 0 {
        None
    } else {
        match group_name(rels[0]) {
            Some(n) => Some(n),
            None => first_group_name(rels.skip(1)),
        }
    }
}

/// Whether a chapter object can be read: it has a textual `id` and an
/// `attributes` object.
pub open spec fn chapter_object_readable(obj: JsonValue) -> bool {
    str_member(obj, "id"@) is Some && object_of(get(obj, "attributes"@)) is Some
}

/// Whether every element is a readable chapter object.
pub open spec fn all_chapter_objects_readable(items: Seq<JsonValue>) -> bool {
    forall|i: int| 0 <= i < items.len() ==> chapter_object_readable(#[trigger] items[i])
}

/// The number text of a chapter record field, as read from a member.
pub open spec fn number_from(member: Option<Seq<char>>, n: NumberText) -> bool {
    match n {
        NumberText::Text(t) => member == Some(t@),
        NumberText::Unknown => member is None,
        NumberText::Count(_) => false,
    }
}

/// The chapter record read from a readable chapter object.
pub open spec fn describes_chapter(obj: JsonValue, c: Chapter) -> bool {
    let attributes = get(obj, "attributes"@);
    &&& c.id@ == str_member(obj, "id"@)->0
    &&& number_from(str_member(attributes, "chapter"@), c.chapter)
    &&& number_from(str_member(attributes, "volume"@), c.volume)
    &&& c.title@ == match str_member(attributes, "title"@) {
        Some(t) => t,
        None => Seq::empty(),
    }
    &&& match c.date_updated {
        DateText::Stamp(t) => str_member(attributes, "publishAt"@) == Some(t@),
        DateText::Unknown => str_member(attributes, "publishAt"@) is None,
        DateText::Relative(_) => false,
    }
    &&& c.scanlator@ == match array_of(get(obj, "relationships"@)) {
        Some(rels) => match first_group_name(rels) {
            Some(n) => n,
            None => Seq::empty(),
        },
        None => Seq::empty(),
    }
    &&& c.lang@ == match str_member(attributes, "translatedLanguage"@) {
        Some(l) => l,
        None => "en"@,
    }
    &&& c.url@ == Seq::<char>::empty()
}

pub(crate) fn number_text_of(attributes: &JsonValue, key: &str) -> (n: NumberText)
    ensures
        number_from(str_member(*attributes, key@), n),
{
    match attributes.string_member(key) {
        Some(t) => NumberText::Text(t),
        None => NumberText::Unknown,
    }
}

fn first_group_name_exec(rels: &Vec<JsonValue>) -> (res: String)
    ensures
        res@ == match first_group_name(rels@) {
            Some(n) => n,
            None => Seq::empty(),
        },
{
    let mut i: usize = 0;
    assert(rels@.skip(0) =~= rels@);
    while i < rels.len()
        invariant
            i <= rels@.len(),
            first_group_name(rels@) == first_group_name(rels@.skip(i as int)),
        decreases rels.len() - i,
    {
        let rel = &rels[i];
        assert(rels@.skip(i as int)[0] == *rel);
        assert(rels@.skip(i as int).skip(1) =~= rels@.skip(i + 1));
        if let Some(t) = rel.string_member("type") {
            if str_eq(t.as_str(), "scanlation_group") {
                if let Some(name) = string_member_of(get_or_null(rel, "attributes"), "name") {
                    return name;
                }
            }
        }
        i = i + 1;
    }
    assert(rels@.skip(i as int).len() == 0);
    String::new()
}

/// Reads the chapters of a feed response, in order. Fails when `data` is not an
/// array or holds an unreadable chapter object.
pub fn parse_chapter_list(json: &JsonValue) -> (res: Result<Vec<Chapter>, SourceError>)
    ensures
        res is Ok <==> (array_of(get(*json, "data"@)) matches Some(items)
            && all_chapter_objects_readable(items)),
        res matches Ok(chapters) ==> {
            let items = array_of(get(*json, "data"@))->0;
            &&& chapters@.len() == items.len()
            &&& forall|i: int|
                0 <= i < items.len() ==> describes_chapter(items[i], #[trigger] chapters@[i])
        },
        res matches Err(e) ==> e == SourceError::ParseError,
{
    let data = match array_member(json, "data") {
        Some(d) => d,
        None => return Err(SourceError::ParseError),
    };
    let ghost items = data@;
    let mut chapters: Vec<Chapter> = Vec::new();
    let mut i: usize = 0;
    while i < data.len()
        invariant
            i <= items.len(),
            items == data@,
            array_of(get(*json, "data"@)) == Some(items),
            chapters@.len() == i,
            forall|k: int| 0 <= k < i ==> chapter_object_readable(#[trigger] items[k]),
            forall|k: int| 0 <= k < i ==> describes_chapter(items[k], #[trigger] chapters@[k]),
        decreases data.len() - i,
    {
        let item = &data[i];
        assert(items[i as int] == *item);
        if !item.is_object() {
            assert(!chapter_object_readable(items[i as int]));
            return Err(SourceError::ParseError);
        }
        let id = match item.string_member("id") {
            Some(id) => id,
            None => {
                assert(!chapter_object_readable(items[i as int]));
                return Err(SourceError::ParseError);
            },
        };
        let attributes = match get_or_null(item, "attributes") {
            Some(a) => a,
            None => {
                assert(!chapter_object_readable(items[i as int]));
                return Err(SourceError::ParseError);
            },
        };
        if !attributes.is_object() {
            assert(!chapter_object_readable(items[i as int]));
            return Err(SourceError::ParseError);
        }
        let chapter = number_text_of(attributes, "chapter");
        let title = match attributes.string_member("title") {
            Some(t) => t,
            None => String::new(),
        };
        let volume = number_text_of(attributes, "volume");
        let date_updated = match attributes.string_member("publishAt") {
            Some(t) => DateText::Stamp(t),
            None => DateText::Unknown,
        };
        let scanlator = match array_member(item, "relationships") {
            Some(rels) => first_group_name_exec(rels),
            None => String::new(),
        };
        let lang = match attributes.string_member("translatedLanguage") {
            Some(l) => l,
            None => String::from_str("en"),
        };
        let c = Chapter {
            id,
            title,
            volume,
            chapter,
            date_updated,
            scanlator,
            url: String::new(),
            lang,
        };
        assert(describes_chapter(*item, c));
        chapters.push(c);
        i = i + 1;
    }
    Ok(chapters)
}

/// The address of a page image served by an image server.
pub open spec fn image_address(base: Seq<char>, hash: Seq<char>, file: Seq<char>) -> Seq<char> {
    base + "/data/"@ + hash + "/"@ + file
}

/// The image file list of a chapter object: its `data` array, or else its
/// `dataSaver` array.
pub open spec fn image_files(chapter: JsonValue) -> Option<Seq<JsonValue>> {
    match array_of(get(chapter, "data"@)) {
        Some(a) => Some(a),
        None => array_of(get(chapter, "dataSaver"@)),
    }
}

/// Whether an image server response can be read: it has a textual `baseUrl`, a
/// `chapter` object with a textual `hash` and a list of file names.
pub open spec fn page_list_readable(json: JsonValue) -> bool {
    let chapter = get(json, "chapter"@);
    &&& str_member(json, "baseUrl"@) is Some
    &&& object_of(chapter) is Some
    &&& str_member(chapter, "hash"@) is Some
    &&& image_files(chapter) matches Some(files) && forall|i: int|
        0 <= i < files.len() ==> str_of(#[trigger] files[i]) is Some
}

/// The pages read from a readable image server response: one page per file
/// of its image file list, in order, each at its position and image address.
pub open spec fn describes_page_list(json: JsonValue, pages: Seq<Page>) -> bool {
    let chapter = get(json, "chapter"@);
    let files = image_files(chapter)->0;
    &&& pages.len() == files.len()
    &&& forall|i: int|
        0 <= i < files.len() ==> (#[trigger] pages[i]).index == i as i32 && pages[i].url@
            == image_address(
            str_member(json, "baseUrl"@)->0,
            str_member(chapter, "hash"@)->0,
            str_of(files[i])->0,
        )
}

/// Reads the pages of an image server response: one page per file name, in
/// order, each at its image address.
pub fn parse_page_list(json: &JsonValue) -> (res: Result<Vec<Page>, SourceError>)
    ensures
        res is Ok <==> page_list_readable(*json),
        res matches Ok(pages) ==> describes_page_list(*json, pages@),
        res matches Err(e) ==> e == SourceError::ParseError,
{
    let base_url = match json.string_member("baseUrl") {
        Some(b) => b,
        None => return Err(SourceError::ParseError),
    };
    let chapter = match get_or_null(json, "chapter") {
        Some(c) => c,
        None => return Err(SourceError::ParseError),
    };
    if !chapter.is_object() {
        return Err(SourceError::ParseError);
    }
    let hash = match chapter.string_member("hash") {
        Some(h) => h,
        None => return Err(SourceError::ParseError),
    };
    let images = match array_member(chapter, "data") {
        Some(a) => a,
        None => match array_member(chapter, "dataSaver") {
            Some(a) => a,
            None => return Err(SourceError::ParseError),
        },
    };
    let ghost files = images@;
    assert(image_files(*chapter) == Some(files));
    let mut pages: Vec<Page> = Vec::new();
    let mut i: usize = 0;
    while i < images.len()
        invariant
            i <= files.len(),
            files == images@,
            image_files(*chapter) == Some(files),
            get(*json, "chapter"@) == *chapter,
            str_member(*json, "baseUrl"@) == Some(base_url@),
            str_member(*chapter, "hash"@) == Some(hash@),
            pages@.len() == i,
            forall|k: int| 0 <= k < i ==> str_of(#[trigger] files[k]) is Some,
            forall|k: int|
                0 <= k < i ==> (#[trigger] pages@[k]).index == k as i32 && pages@[k].url@
                    == image_address(base_url@, hash@, str_of(files[k])->0),
        decreases images.len() - i,
    {
        let filename = match images[i].as_string() {
            Some(f) => f,
            None => return Err(SourceError::ParseError),
        };
        let mut url = String::new();
        url.append(base_url.as_str());
        url.append("/data/");
        url.append(hash.as_str());
        url.append("/");
        url.append(filename.as_str());
        pages.push(Page { index: i as i32, url });
        i = i + 1;
    }
    Ok(pages)
}

/// Law: a series is read with the publication status its status text names:
/// `ongoing`, `completed`, `hiatus` and `cancelled` give Ongoing, Completed,
/// Hiatus and Cancelled, and any other text, or none, gives Unknown.
pub proof fn law_series_status(obj: JsonValue, m: Manga)
    requires
        describes_manga(obj, m),
    ensures
        str_member(get(obj, "attributes"@), "status"@) == Some("ongoing"@) ==> m.status
            == MangaStatus::Ongoing,
        str_member(get(obj, "attributes"@), "status"@) == Some("completed"@) ==> m.status
            == MangaStatus::Completed,
        str_member(get(obj, "attributes"@), "status"@) == Some("hiatus"@) ==> m.status
            == MangaStatus::Hiatus,
        str_member(get(obj, "attributes"@), "status"@) == Some("cancelled"@) ==> m.status
            == MangaStatus::Cancelled,
        str_member(get(obj, "attributes"@), "status"@) != Some("ongoing"@) && str_member(
            get(obj, "attributes"@),
            "status"@,
        ) != Some("completed"@) && str_member(get(obj, "attributes"@), "status"@) != Some(
            "hiatus"@,
        ) && str_member(get(obj, "attributes"@), "status"@) != Some("cancelled"@) ==> m.status
            == MangaStatus::Unknown,
{
    lemma_status_texts_distinct();
}

/// The four status texts are distinct.
pub proof fn lemma_status_texts_distinct()
    ensures
        "ongoing"@ != "completed"@,
        "ongoing"@ != "hiatus"@,
        "ongoing"@ != "cancelled"@,
        "completed"@ != "hiatus"@,
        "completed"@ != "cancelled"@,
        "hiatus"@ != "cancelled"@,
{
    reveal_strlit("ongoing");
    reveal_strlit("completed");
    reveal_strlit("hiatus");
    reveal_strlit("cancelled");
    assert("ongoing"@.len() != "completed"@.len());
    assert("ongoing"@.len() != "hiatus"@.len());
    assert("ongoing"@.len() != "cancelled"@.len());
    assert("completed"@[1] != "cancelled"@[1]);
    assert("completed"@.len() != "hiatus"@.len());
    assert("hiatus"@.len() != "cancelled"@.len());
}

/// Whether `pages` show the files `files` of the image server response `json`,
/// in order: the page at position `i` is numbered `i` and is the image at
/// `baseUrl` + `/data/` + `hash` + `/` + the `i`-th file name.
pub open spec fn pages_show_files(json: JsonValue, files: Seq<JsonValue>, pages: Seq<Page>) -> bool {
    let base = str_member(json, "baseUrl"@)->0;
    let hash = str_member(get(json, "chapter"@), "hash"@)->0;
    &&& pages.len() == files.len()
    &&& forall|i: int|
        0 <= i < files.len() ==> (#[trigger] pages[i]).index == i as i32 && pages[i].url@ == base
            + "/data/"@ + hash + "/"@ + str_of(files[i])->0
}

/// Law: the pages read from an image server response are the full-quality
/// files of its `data` list, in order; the `dataSaver` list is read only when
/// the chapter has no `data` list.
pub proof fn law_page_list_files(json: JsonValue, pages: Seq<Page>)
    requires
        page_list_readable(json),
        describes_page_list(json, pages),
    ensures
        array_of(get(get(json, "chapter"@), "data"@)) matches Some(files) ==> pages_show_files(
            json,
            files,
            pages,
        ),
        array_of(get(get(json, "chapter"@), "data"@)) is None ==> (array_of(
            get(get(json, "chapter"@), "dataSaver"@),
        ) matches Some(files) && pages_show_files(json, files, pages)),
{
}

/// Law: a series rated `erotica` or `pornographic` is read as not safe, and
/// every other series, whatever its rating text or without one, as safe.
pub proof fn law_series_rating(obj: JsonValue, m: Manga)
    requires
        describes_manga(obj, m),
    ensures
        (m.nsfw == ContentRating::Nsfw) == (str_member(get(obj, "attributes"@), "contentRating"@)
            == Some("erotica"@) || str_member(get(obj, "attributes"@), "contentRating"@) == Some(
            "pornographic"@,
        )),
        m.nsfw == ContentRating::Nsfw || m.nsfw == ContentRating::Safe,
{
}

} // verus!
