//! Search filters to query parameters, tag identifiers, and incoming links.

use vstd::prelude::*;
use crate::common::{DeepLink, Filter, FilterKind, MangaStatus, SourceError};
use crate::json::{JsonValue, bool_of, get, int_of, str_of};
use crate::common::LinkTarget;
use crate::mangadex::parser::{lemma_status_texts_distinct, status_named, title_address};
use crate::mangadex::source::chapter_address;
use crate::text::{after_first, find_from, lemma_absent_in_prefixed, lemma_absent_without_slash, lemma_find_in_prefixed, occurs_at, before_first, before_first_exec, chars_of, form_encode, second_piece, second_piece_exec, str_eq, string_from_range};
pub use crate::text::{i32_to_string, urlencode};

verus! {

/// The MangaDex identifier of a genre tag, by its English name (empty for an
/// unknown name).
pub open spec fn tag_id(name: Seq<char>) -> Seq<char> {
    if name == "Action"@ {
        "391b0423-d847-456f-aff0-8b0cfc03066b"@
    } else if name == "Adventure"@ {
        "87cc87cd-a395-47af-b27a-93258283bbc6"@
    } else if name == "Comedy"@ {
        "4d32cc48-9f00-4cca-9b5a-a839f0764984"@
    } else if name == "Drama"@ {
        "b9af3a63-f058-46de-a9a0-e0c13906197a"@
    } else if name == "Fantasy"@ {
        "cdc58593-87dd-415e-bbc0-2ec27bf404cc"@
    } else if name == "Horror"@ {
        "cdad7e68-1419-41dd-bdce-27753074a640"@
    } else if name == "Mystery"@ {
        "ee968100-4191-4968-93d3-f82d72be7e46"@
    } else if name == "Romance"@ {
        "423e2eae-a7a2-4a8b-ac03-a8351462d71d"@
    } else if name == "Sci-Fi"@ {
        "256c8bd9-4904-4360-bf4f-508a76d67183"@
    } else if name == "Slice of Life"@ {
        "e5301a23-ebd9-49dd-a0cb-2add944c7fe9"@
    } else if name == "Sports"@ {
        "69964a64-2f90-4d33-beeb-f3ed2875eb4c"@
    } else if name == "Supernatural"@ {
        "eabc5b4c-6aff-42f3-b657-3e90cbd00b75"@
    } else if name == "Thriller"@ {
        "07251805-a27e-4d59-b488-f0bfbec15168"@
    } else {
        Seq::empty()
    }
}

/// The MangaDex identifier of a genre tag, by its English name.
pub fn get_tag_id(tag_name: &str) -> (res: &'static str)
    ensures
        res@ == tag_id(tag_name@),
{
    if str_eq(tag_name, "Action") {
        "391b0423-d847-456f-aff0-8b0cfc03066b"
    } else if str_eq(tag_name, "Adventure") {
        "87cc87cd-a395-47af-b27a-93258283bbc6"
    } else if str_eq(tag_name, "Comedy") {
        "4d32cc48-9f00-4cca-9b5a-a839f0764984"
    } else if str_eq(tag_name, "Drama") {
        "b9af3a63-f058-46de-a9a0-e0c13906197a"
    } else if str_eq(tag_name, "Fantasy") {
        "cdc58593-87dd-415e-bbc0-2ec27bf404cc"
    } else if str_eq(tag_name, "Horror") {
        "cdad7e68-1419-41dd-bdce-27753074a640"
    } else if str_eq(tag_name, "Mystery") {
        "ee968100-4191-4968-93d3-f82d72be7e46"
    } else if str_eq(tag_name, "Romance") {
        "423e2eae-a7a2-4a8b-ac03-a8351462d71d"
    } else if str_eq(tag_name, "Sci-Fi") {
        "256c8bd9-4904-4360-bf4f-508a76d67183"
    } else if str_eq(tag_name, "Slice of Life") {
        "e5301a23-ebd9-49dd-a0cb-2add944c7fe9"
    } else if str_eq(tag_name, "Sports") {
        "69964a64-2f90-4d33-beeb-f3ed2875eb4c"
    } else if str_eq(tag_name, "Supernatural") {
        "eabc5b4c-6aff-42f3-b657-3e90cbd00b75"
    } else if str_eq(tag_name, "Thriller") {
        "07251805-a27e-4d59-b488-f0bfbec15168"
    } else {
        proof {
            reveal_strlit("");
        }
        ""
    }
}


/// The `status[]` value for a choice of the status select filter.
pub open spec fn status_value(v: i64) -> Seq<char> {
    if v == 0 {
        "ongoing"@
    } else if v == 1 {
        "completed"@
    } else if v == 2 {
        "hiatus"@
    } else if v == 3 {
        "cancelled"@
    } else {
        Seq::empty()
    }
}

/// The `publicationDemographic[]` value for a choice of the demographic select filter.
pub open spec fn demographic_value(v: i64) -> Seq<char> {
    if v == 0 {
        "shounen"@
    } else if v == 1 {
        "shoujo"@
    } else if v == 2 {
        "seinen"@
    } else if v == 3 {
        "josei"@
    } else {
        Seq::empty()
    }
}

/// The `contentRating[]` parameters for a choice of the content rating select filter.
pub open spec fn content_rating_params(v: i64) -> Seq<char> {
    if v == 0 {
        "&contentRating[]=safe"@ + "&contentRating[]=suggestive"@
    } else if v == 1 {
        "&contentRating[]=erotica"@
    } else if v == 2 {
        "&contentRating[]=pornographic"@
    } else {
        Seq::empty()
    }
}

/// The field a sort filter orders by, by the index of the chosen option.
pub open spec fn sort_field(index: i64) -> Seq<char> {
    if index == 1 {
        "title"@
    } else if index == 2 {
        "rating"@
    } else if index == 3 {
        "followedCount"@
    } else if index == 4 {
        "createdAt"@
    } else if index == 5 {
        "year"@
    } else {
        "latestUploadedChapter"@
    }
}

/// `prefix` and the encoded text of `value`, when `value` is a non-empty text.
pub open spec fn text_param(prefix: Seq<char>, value: JsonValue) -> Seq<char> {
    match str_of(value) {
        Some(t) => if t.len() > 0 {
            prefix + form_encode(vstd::utf8::encode_utf8(t))
        } else {
            Seq::empty()
        },
        None => Seq::empty(),
    }
}

/// The parameters of a select filter.
pub open spec fn select_param(name: Seq<char>, value: JsonValue) -> Seq<char> {
    match int_of(value) {
        Some(v) => if name == "Status"@ {
            if status_value(v).len() > 0 {
                "&status[]="@ + status_value(v)
            } else {
                Seq::empty()
            }
        } else if name == "Demographic"@ {
            if demographic_value(v).len() > 0 {
                "&publicationDemographic[]="@ + demographic_value(v)
            } else {
                Seq::empty()
            }
        } else if name == "Content Rating"@ {
            content_rating_params(v)
        } else {
            Seq::empty()
        },
        None => Seq::empty(),
    }
}

/// The direction of a sort filter: ascending only when `ascending` is `true`.
pub open spec fn sort_direction(value: JsonValue) -> Seq<char> {
    if bool_of(get(value, "ascending"@)) == Some(true) {
        "asc"@
    } else {
        "desc"@
    }
}

/// The parameter of a sort filter.
pub open spec fn sort_param(value: JsonValue) -> Seq<char> {
    match value {
        JsonValue::Object(_) => match int_of(get(value, "index"@)) {
            Some(i) => "&order["@ + sort_field(i) + "]="@ + sort_direction(value),
            None => Seq::empty(),
        },
        _ => Seq::empty(),
    }
}

/// The parameters one filter contributes in place (genre filters contribute at the end).
pub open spec fn filter_param(f: Filter) -> Seq<char> {
    match f.kind {
        FilterKind::Title => text_param("&title="@, f.value),
        FilterKind::Author => text_param("&authors="@, f.value),
        FilterKind::Select => select_param(f.name@, f.value),
        FilterKind::Sort => sort_param(f.value),
        _ => Seq::empty(),
    }
}

/// The in-place parameters of a sequence of filters, in order.
pub open spec fn filter_params(fs: Seq<Filter>) -> Seq<char>
    decreases fs.len(),
{
    if fs.len() == 0 {
        Seq::empty()
    } else {
        filter_params(fs.drop_last()) + filter_param(fs.last())
    }
}

/// Whether `f` is a genre filter set to `state` (1: included, 2: excluded).
pub open spec fn genre_in_state(f: Filter, state: i64) -> bool {
    f.kind == FilterKind::Genre && int_of(f.value) == Some(state)
}

/// The names of the genre filters set to `state`, in order.
pub open spec fn genres_in_state(fs: Seq<Filter>, state: i64) -> Seq<Seq<char>>
    decreases fs.len(),
{
    if fs.len() == 0 {
        Seq::empty()
    } else if genre_in_state(fs.last(), state) {
        genres_in_state(fs.drop_last(), state).push(fs.last().name@)
    } else {
        genres_in_state(fs.drop_last(), state)
    }
}

/// `prefix` and the tag identifier of each name, in order.
pub open spec fn tag_params(prefix: Seq<char>, names: Seq<Seq<char>>) -> Seq<char>
    decreases names.len(),
{
    if names.len() == 0 {
        Seq::empty()
    } else {
        tag_params(prefix, names.drop_last()) + prefix + tag_id(names.last())
    }
}

/// The query parameters for a list of search filters: the parameters of each
/// filter in order, then the included genre tags, then the excluded ones.
pub open spec fn filter_query(fs: Seq<Filter>) -> Seq<char> {
    filter_params(fs) + tag_params("&includedTags[]="@, genres_in_state(fs, 1)) + tag_params(
        "&excludedTags[]="@,
        genres_in_state(fs, 2),
    )
}

fn status_value_exec(v: i64) -> (r: &'static str)
    ensures
        r@ == status_value(v),
{
    if v == 0 {
        "ongoing"
    } else if v == 1 {
        "completed"
    } else if v == 2 {
        "hiatus"
    } else if v == 3 {
        "cancelled"
    } else {
        proof {
            reveal_strlit("");
        }
        ""
    }
}

fn demographic_value_exec(v: i64) -> (r: &'static str)
    ensures
        r@ == demographic_value(v),
{
    if v == 0 {
        "shounen"
    } else if v == 1 {
        "shoujo"
    } else if v == 2 {
        "seinen"
    } else if v == 3 {
        "josei"
    } else {
        proof {
            reveal_strlit("");
        }
        ""
    }
}

fn sort_field_exec(index: i64) -> (r: &'static str)
    ensures
        r@ == sort_field(index),
{
    if index == 1 {
        "title"
    } else if index == 2 {
        "rating"
    } else if index == 3 {
        "followedCount"
    } else if index == 4 {
        "createdAt"
    } else if index == 5 {
        "year"
    } else {
        "latestUploadedChapter"
    }
}

fn text_param_exec(query: &mut String, prefix: &str, value: &JsonValue)
    ensures
        final(query)@ == old(query)@ + text_param(prefix@, *value),
{
    if let Some(t) = value.as_string() {
        if t.unicode_len() > 0 {
            query.append(prefix);
            query.append(urlencode(t.as_str()).as_str());
            return ;
        }
    }
    assert(old(query)@ + text_param(prefix@, *value) =~= old(query)@);
}

fn select_param_exec(query: &mut String, name: &String, value: &JsonValue)
    ensures
        final(query)@ == old(query)@ + select_param(name@, *value),
{
    let ghost start = query@;
    if let Some(v) = value.as_int() {
        if str_eq(name.as_str(), "Status") {
            let status = status_value_exec(v);
            if status.unicode_len() > 0 {
                query.append("&status[]=");
                query.append(status);
            }
        } else if str_eq(name.as_str(), "Demographic") {
            let demo = demographic_value_exec(v);
            if demo.unicode_len() > 0 {
                query.append("&publicationDemographic[]=");
                query.append(demo);
            }
        } else if str_eq(name.as_str(), "Content Rating") {
            if v == 0 {
                query.append("&contentRating[]=safe");
                query.append("&contentRating[]=suggestive");
            } else if v == 1 {
                query.append("&contentRating[]=erotica");
            } else if v == 2 {
                query.append("&contentRating[]=pornographic");
            }
        }
    }
    assert(query@ =~= start + select_param(name@, *value));
}

fn sort_param_exec(query: &mut String, value: &JsonValue)
    ensures
        final(query)@ == old(query)@ + sort_param(*value),
{
    let ghost start = query@;
    if value.is_object() {
        let index = match value.member("index") {
            Some(x) => x.as_int(),
            None => None,
        };
        if let Some(i) = index {
            let ascending = match value.member("ascending") {
                Some(x) => x.as_bool(),
                None => None,
            };
            let order_dir = if let Some(true) = ascending {
                "asc"
            } else {
                "desc"
            };
            query.append("&order[");
            query.append(sort_field_exec(i));
            query.append("]=");
            query.append(order_dir);
        }
    }
    assert(query@ =~= start + sort_param(*value));
}

/// The query parameters for a list of search filters, each starting with `&`.
pub fn get_filter_string(filters: Vec<Filter>) -> (query: String)
    ensures
        query@ == filter_query(filters@),
{
    let mut query = String::new();
    let mut tags_included: Vec<String> = Vec::new();
    let mut tags_excluded: Vec<String> = Vec::new();
    let mut i: usize = 0;
    while i < filters.len()
        invariant
            i <= filters@.len(),
            query@ == filter_params(filters@.take(i as int)),
            crate::text::views(tags_included@) == genres_in_state(filters@.take(i as int), 1),
            crate::text::views(tags_excluded@) == genres_in_state(filters@.take(i as int), 2),
        decreases filters.len() - i,
    {
        let filter = &filters[i];
        let ghost before = filters@.take(i as int);
        assert(filters@.take(i + 1).drop_last() =~= before);
        assert(filters@.take(i + 1).last() == *filter);
        match filter.kind {
            FilterKind::Title => text_param_exec(&mut query, "&title=", &filter.value),
            FilterKind::Author => text_param_exec(&mut query, "&authors=", &filter.value),
            FilterKind::Select => select_param_exec(&mut query, &filter.name, &filter.value),
            FilterKind::Sort => sort_param_exec(&mut query, &filter.value),
            FilterKind::Genre => {
                assert(query@ =~= query@ + filter_param(*filter));
                match filter.value.as_int() {
                    Some(1) => {
                        let ghost old_tags = tags_included@;
                        tags_included.push(filter.name.clone());
                        assert(crate::text::views(tags_included@) =~= crate::text::views(old_tags).push(filter.name@));
                    },
                    Some(2) => {
                        let ghost old_tags = tags_excluded@;
                        tags_excluded.push(filter.name.clone());
                        assert(crate::text::views(tags_excluded@) =~= crate::text::views(old_tags).push(filter.name@));
                    },
                    _ => {},
                }
            },
            FilterKind::Other => {
                assert(query@ =~= query@ + filter_param(*filter));
            },
        }
        i = i + 1;
    }
    assert(filters@.take(filters@.len() as int) =~= filters@);
    let ghost params = query@;
    let ghost included = crate::text::views(tags_included@);
    let ghost excluded = crate::text::views(tags_excluded@);
    let mut j: usize = 0;
    while j < tags_included.len()
        invariant
            j <= tags_included@.len(),
            included == crate::text::views(tags_included@),
            query@ == params + tag_params("&includedTags[]="@, included.take(j as int)),
        decreases tags_included.len() - j,
    {
        query.append("&includedTags[]=");
        query.append(get_tag_id(tags_included[j].as_str()));
        assert(included.take(j + 1).drop_last() =~= included.take(j as int));
        j = j + 1;
    }
    assert(included.take(included.len() as int) =~= included);
    let ghost with_included = query@;
    let mut k: usize = 0;
    while k < tags_excluded.len()
        invariant
            k <= tags_excluded@.len(),
            excluded == crate::text::views(tags_excluded@),
            query@ == with_included + tag_params("&excludedTags[]="@, excluded.take(k as int)),
        decreases tags_excluded.len() - k,
    {
        query.append("&excludedTags[]=");
        query.append(get_tag_id(tags_excluded[k].as_str()));
        assert(excluded.take(k + 1).drop_last() =~= excluded.take(k as int));
        k = k + 1;
    }
    assert(excluded.take(excluded.len() as int) =~= excluded);
    query
}


/// The identifier an incoming link carries after `marker`: the text after the
/// first `marker`, up to the next `marker` and the next `/`, when it is not empty.
pub open spec fn link_segment(url: Seq<char>, marker: Seq<char>) -> Option<Seq<char>> {
    match second_piece(url, marker) {
        Some(piece) => {
            let id = before_first(piece, "/"@);
            if id.len() > 0 {
                Some(id)
            } else {
                None
            }
        },
        None => None,
    }
}

/// What a MangaDex link points at: a series for `/title/{id}`, otherwise a
/// chapter for `/chapter/{id}`.
pub open spec fn mangadex_link(url: Seq<char>) -> Option<LinkTarget> {
    match link_segment(url, "/title/"@) {
        Some(id) => Some(LinkTarget::Manga(id)),
        None => match link_segment(url, "/chapter/"@) {
            Some(id) => Some(LinkTarget::Chapter(id)),
            None => None,
        },
    }
}

fn link_segment_exec(url: &[char], marker: &str) -> (res: Option<String>)
    ensures
        res matches Some(id) ==> link_segment(url@, marker@) == Some(id@),
        res is None ==> link_segment(url@, marker@) is None,
{
    let pat = chars_of(marker);
    match second_piece_exec(url, pat.as_slice()) {
        Some(piece) => {
            let slash = chars_of("/");
            let end = before_first_exec(piece.as_slice(), 0, slash.as_slice());
            assert(piece@.skip(0) =~= piece@);
            if end > 0 {
                Some(string_from_range(piece.as_slice(), 0, end))
            } else {
                None
            }
        },
        None => None,
    }
}

/// Recognises a MangaDex link to a series or a chapter.
pub fn parse_incoming_url(url: String) -> (res: Result<DeepLink, SourceError>)
    ensures
        res is Ok <==> mangadex_link(url@) is Some,
        res matches Ok(link) ==> link.points_to() == mangadex_link(url@),
        res matches Err(e) ==> e == SourceError::InvalidUrl,
{
    let v = chars_of(url.as_str());
    if let Some(id) = link_segment_exec(v.as_slice(), "/title/") {
        return Ok(DeepLink { manga: Some(id), chapter: None });
    }
    if let Some(id) = link_segment_exec(v.as_slice(), "/chapter/") {
        return Ok(DeepLink { manga: None, chapter: Some(id) });
    }
    Err(SourceError::InvalidUrl)
}


proof fn lemma_link_segment_at(p: Seq<char>, id: Seq<char>, marker: Seq<char>)
    requires
        marker.len() > 0,
        marker[0] == '/',
        marker.last() == '/',
        id.len() > 0,
        !id.contains('/'),
        occurs_at(p, marker, p.len() - marker.len()),
        forall|k: int| 0 <= k < p.len() - marker.len() ==> !occurs_at(p, marker, k),
    ensures
        link_segment(p + id, marker) == Some(id),
{
    reveal_strlit("/");
    let url = p + id;
    lemma_find_in_prefixed(p, id, marker, p.len() - marker.len());
    assert(after_first(url, marker) == Some(url.skip(p.len() as int)));
    assert(url.skip(p.len() as int) =~= id);
    lemma_absent_without_slash(id, marker);
    assert(before_first(id, marker) == id);
    lemma_absent_without_slash(id, "/"@);
    assert(id.take(id.len() as int) =~= id);
}

/// Law: the address of a MangaDex series page, given back as an incoming link,
/// names that series (for an identifier that is not empty and has no `/`).
pub proof fn law_series_link_round_trip(id: Seq<char>)
    requires
        id.len() > 0,
        !id.contains('/'),
    ensures
        mangadex_link(title_address(id)) == Some(LinkTarget::Manga(id)),
{
    reveal_strlit("https://mangadex.org/title/");
    reveal_strlit("/title/");
    reveal_strlit("/");
    let p = "https://mangadex.org/title/"@;
    let marker = "/title/"@;
    assert(p.subrange(20, 27) =~= marker);
    assert forall|k: int| 0 <= k < 20 implies !occurs_at(p, marker, k) by {
        if p[k] != '/' {
            assert(p.subrange(k, k + 7)[0] != marker[0]);
        } else {
            assert(p.subrange(k, k + 7)[1] != marker[1]);
        }
    }
    lemma_link_segment_at(p, id, marker);
}

/// Law: the address of a MangaDex chapter page, given back as an incoming link,
/// names that chapter (for an identifier that is not empty and has no `/`).
pub proof fn law_chapter_link_round_trip(id: Seq<char>)
    requires
        id.len() > 0,
        !id.contains('/'),
    ensures
        mangadex_link(chapter_address(id)) == Some(LinkTarget::Chapter(id)),
{
    reveal_strlit("https://mangadex.org/chapter/");
    reveal_strlit("/chapter/");
    reveal_strlit("/title/");
    reveal_strlit("/");
    let p = "https://mangadex.org/chapter/"@;
    let title = "/title/"@;
    let marker = "/chapter/"@;
    assert forall|k: int| 0 <= k implies !occurs_at(p, title, k) by {
        if k + 7 <= p.len() {
            if p[k] != '/' {
                assert(p.subrange(k, k + 7)[0] != title[0]);
            } else {
                assert(p.subrange(k, k + 7)[1] != title[1]);
            }
        }
    }
    lemma_absent_in_prefixed(p, id, title);
    assert(link_segment(p + id, title) is None);
    assert(p.subrange(20, 29) =~= marker);
    assert forall|k: int| 0 <= k < 20 implies !occurs_at(p, marker, k) by {
        if p[k] != '/' {
            assert(p.subrange(k, k + 9)[0] != marker[0]);
        } else {
            assert(p.subrange(k, k + 9)[1] != marker[1]);
        }
    }
    lemma_link_segment_at(p, id, marker);
}


/// Whether a text is empty or starts a new query parameter.
pub open spec fn starts_parameter(s: Seq<char>) -> bool {
    s.len() == 0 || s[0] == '&'
}

proof fn lemma_starts_parameter_concat(a: Seq<char>, b: Seq<char>)
    requires
        starts_parameter(a),
        starts_parameter(b),
    ensures
        starts_parameter(a + b),
{
    if a.len() == 0 {
        assert(a + b =~= b);
    } else {
        assert((a + b)[0] == a[0]);
    }
}

proof fn lemma_literal_starts_parameter(s: Seq<char>, rest: Seq<char>)
    requires
        s.len() > 0,
        s[0] == '&',
    ensures
        starts_parameter(s + rest),
{
    assert((s + rest)[0] == s[0]);
}

proof fn lemma_filter_param_starts_parameter(f: Filter)
    ensures
        starts_parameter(filter_param(f)),
{
    reveal_strlit("&title=");
    reveal_strlit("&authors=");
    reveal_strlit("&status[]=");
    reveal_strlit("&publicationDemographic[]=");
    reveal_strlit("&contentRating[]=safe");
    reveal_strlit("&contentRating[]=erotica");
    reveal_strlit("&contentRating[]=pornographic");
    reveal_strlit("&order[");
    match f.kind {
        FilterKind::Title => {
            if let Some(t) = str_of(f.value) {
                lemma_literal_starts_parameter("&title="@, form_encode(vstd::utf8::encode_utf8(t)));
            }
        },
        FilterKind::Author => {
            if let Some(t) = str_of(f.value) {
                lemma_literal_starts_parameter("&authors="@, form_encode(vstd::utf8::encode_utf8(t)));
            }
        },
        FilterKind::Select => {
            if let Some(v) = int_of(f.value) {
                lemma_literal_starts_parameter("&status[]="@, status_value(v));
                lemma_literal_starts_parameter("&publicationDemographic[]="@, demographic_value(v));
                lemma_literal_starts_parameter("&contentRating[]=safe"@, "&contentRating[]=suggestive"@);
                assert(starts_parameter("&contentRating[]=erotica"@));
                assert(starts_parameter("&contentRating[]=pornographic"@));
            }
        },
        FilterKind::Sort => {
            if let Some(i) = int_of(get(f.value, "index"@)) {
                let rest = sort_field(i) + "]="@ + sort_direction(f.value);
                lemma_literal_starts_parameter("&order["@, rest);
                assert("&order["@ + sort_field(i) + "]="@ + sort_direction(f.value) =~= "&order["@ + rest);
            }
        },
        _ => {},
    }
}

proof fn lemma_filter_params_start_parameter(fs: Seq<Filter>)
    ensures
        starts_parameter(filter_params(fs)),
    decreases fs.len(),
{
    if fs.len() > 0 {
        lemma_filter_params_start_parameter(fs.drop_last());
        lemma_filter_param_starts_parameter(fs.last());
        lemma_starts_parameter_concat(filter_params(fs.drop_last()), filter_param(fs.last()));
    }
}

proof fn lemma_tag_params_start_parameter(prefix: Seq<char>, names: Seq<Seq<char>>)
    requires
        prefix.len() > 0,
        prefix[0] == '&',
    ensures
        starts_parameter(tag_params(prefix, names)),
    decreases names.len(),
{
    if names.len() > 0 {
        lemma_tag_params_start_parameter(prefix, names.drop_last());
        lemma_literal_starts_parameter(prefix, tag_id(names.last()));
        lemma_starts_parameter_concat(tag_params(prefix, names.drop_last()), prefix + tag_id(names.last()));
        assert(tag_params(prefix, names.drop_last()) + prefix + tag_id(names.last()) =~= tag_params(
            prefix,
            names.drop_last(),
        ) + (prefix + tag_id(names.last())));
    }
}

/// Law: the query a list of filters gives is empty or starts a new parameter
/// with `&`, so it can be appended to any query string.
pub proof fn law_filter_query_appends(fs: Seq<Filter>)
    ensures
        starts_parameter(filter_query(fs)),
{
    reveal_strlit("&includedTags[]=");
    reveal_strlit("&excludedTags[]=");
    lemma_filter_params_start_parameter(fs);
    lemma_tag_params_start_parameter("&includedTags[]="@, genres_in_state(fs, 1));
    lemma_tag_params_start_parameter("&excludedTags[]="@, genres_in_state(fs, 2));
    lemma_starts_parameter_concat(
        filter_params(fs),
        tag_params("&includedTags[]="@, genres_in_state(fs, 1)),
    );
    lemma_starts_parameter_concat(
        filter_params(fs) + tag_params("&includedTags[]="@, genres_in_state(fs, 1)),
        tag_params("&excludedTags[]="@, genres_in_state(fs, 2)),
    );
}

/// The query of a single filter other than a genre filter is that filter's
/// own parameters.
proof fn lemma_single_filter_query(f: Filter)
    requires
        f.kind != FilterKind::Genre,
    ensures
        filter_query(seq![f]) == filter_param(f),
{
    let fs = seq![f];
    assert(fs.drop_last() =~= Seq::<Filter>::empty());
    assert(fs.last() == f);
    assert(!genre_in_state(f, 1) && !genre_in_state(f, 2));
    assert(genres_in_state(fs.drop_last(), 1) =~= Seq::<Seq<char>>::empty());
    assert(genres_in_state(fs.drop_last(), 2) =~= Seq::<Seq<char>>::empty());
    assert(genres_in_state(fs, 1) =~= Seq::<Seq<char>>::empty());
    assert(genres_in_state(fs, 2) =~= Seq::<Seq<char>>::empty());
    assert(filter_params(fs.drop_last()) =~= Seq::<char>::empty());
    assert(filter_query(fs) =~= filter_param(f));
}

/// Law: a `Status` select filter set to choice `v` (0 to 3) asks for exactly
/// `&status[]=` followed by `ongoing`, `completed`, `hiatus` or `cancelled`, in
/// that order of choices, and a series reported with that status text is read
/// with the status chosen: Ongoing, Completed, Hiatus or Cancelled.
pub proof fn law_status_filter(f: Filter, v: i64)
    requires
        f.kind == FilterKind::Select,
        f.name@ == "Status"@,
        f.value == JsonValue::Int(v),
        0 <= v <= 3,
    ensures
        filter_query(seq![f]) == "&status[]="@ + seq!["ongoing"@, "completed"@, "hiatus"@, "cancelled"@][v as int],
        status_named(Some(seq!["ongoing"@, "completed"@, "hiatus"@, "cancelled"@][v as int]))
            == seq![MangaStatus::Ongoing, MangaStatus::Completed, MangaStatus::Hiatus, MangaStatus::Cancelled][v as int],
{
    reveal_strlit("ongoing");
    reveal_strlit("completed");
    reveal_strlit("hiatus");
    reveal_strlit("cancelled");
    lemma_status_texts_distinct();
    lemma_single_filter_query(f);
    assert(int_of(f.value) == Some(v));
    let names = seq!["ongoing"@, "completed"@, "hiatus"@, "cancelled"@];
    assert(status_value(v) == names[v as int]);
    assert(status_value(v).len() > 0);
}

/// Law: a `Demographic` select filter set to choice `v` (0 to 3) asks for
/// exactly `&publicationDemographic[]=` followed by `shounen`, `shoujo`,
/// `seinen` or `josei`, in that order of choices.
pub proof fn law_demographic_filter(f: Filter, v: i64)
    requires
        f.kind == FilterKind::Select,
        f.name@ == "Demographic"@,
        f.value == JsonValue::Int(v),
        0 <= v <= 3,
    ensures
        filter_query(seq![f]) == "&publicationDemographic[]="@ + seq!["shounen"@, "shoujo"@, "seinen"@, "josei"@][v as int],
{
    reveal_strlit("shounen");
    reveal_strlit("shoujo");
    reveal_strlit("seinen");
    reveal_strlit("josei");
    reveal_strlit("Status");
    reveal_strlit("Demographic");
    assert("Demographic"@.len() != "Status"@.len());
    lemma_single_filter_query(f);
    assert(int_of(f.value) == Some(v));
    let names = seq!["shounen"@, "shoujo"@, "seinen"@, "josei"@];
    assert(demographic_value(v) == names[v as int]);
    assert(demographic_value(v).len() > 0);
}

/// Law: a `Content Rating` select filter admits safe and suggestive series for
/// choice 0, erotica for choice 1 and pornographic series for choice 2, and
/// asks for nothing for any other choice.
pub proof fn law_content_rating_filter(f: Filter, v: i64)
    requires
        f.kind == FilterKind::Select,
        f.name@ == "Content Rating"@,
        f.value == JsonValue::Int(v),
    ensures
        v == 0 ==> filter_query(seq![f]) == "&contentRating[]=safe&contentRating[]=suggestive"@,
        v == 1 ==> filter_query(seq![f]) == "&contentRating[]=erotica"@,
        v == 2 ==> filter_query(seq![f]) == "&contentRating[]=pornographic"@,
        v < 0 || v > 2 ==> filter_query(seq![f]).len() == 0,
{
    reveal_strlit("Status");
    reveal_strlit("Demographic");
    reveal_strlit("Content Rating");
    reveal_strlit("&contentRating[]=safe&contentRating[]=suggestive");
    reveal_strlit("&contentRating[]=safe");
    reveal_strlit("&contentRating[]=suggestive");
    assert("Content Rating"@.len() != "Status"@.len());
    assert("Content Rating"@.len() != "Demographic"@.len());
    assert("&contentRating[]=safe"@ + "&contentRating[]=suggestive"@
        =~= "&contentRating[]=safe&contentRating[]=suggestive"@);
    lemma_single_filter_query(f);
    assert(int_of(f.value) == Some(v));
}

/// Law: a sort filter whose value has option index `i` (0 to 5) orders by the
/// latest uploaded chapter, title, rating, follower count, creation date or
/// year, in that order of options, ascending when its value says `ascending:
/// true` and descending otherwise.
pub proof fn law_sort_filter(f: Filter, i: i64)
    requires
        f.kind == FilterKind::Sort,
        f.value is Object,
        int_of(get(f.value, "index"@)) == Some(i),
        0 <= i <= 5,
    ensures
        filter_query(seq![f]) == "&order["@ + seq![
            "latestUploadedChapter"@,
            "title"@,
            "rating"@,
            "followedCount"@,
            "createdAt"@,
            "year"@,
        ][i as int] + "]="@ + if bool_of(get(f.value, "ascending"@)) == Some(true) {
            "asc"@
        } else {
            "desc"@
        },
{
    lemma_single_filter_query(f);
    let fields = seq![
        "latestUploadedChapter"@,
        "title"@,
        "rating"@,
        "followedCount"@,
        "createdAt"@,
        "year"@,
    ];
    assert(sort_field(i) == fields[i as int]);
}

} // verus!
