//! Search requests and incoming links.

use vstd::prelude::*;
use crate::common::{DeepLink, Filter, FilterKind, LinkTarget, SourceError};
use crate::json::str_of;
use crate::record::MangaPageResult;
use crate::text::{
    before_first, before_first_exec, chars_of, contains_str, decimal_string, form_encode,
    has_substring, lemma_strip_nothing, lemma_strip_one, occurs_at, string_from_range,
    strip_prefixes, strip_prefixes_exec,
};
pub use crate::text::{i32_to_string, urlencode};

verus! {

/// The path of a link on the Webtoons site: the link without any leading
/// `https://www.webtoons.com/`, then without any leading `http://www.webtoons.com/`.
pub open spec fn site_path(link: Seq<char>) -> Seq<char> {
    strip_prefixes(strip_prefixes(link, "https://www.webtoons.com/"@), "http://www.webtoons.com/"@)
}

/// The address of a path on the Webtoons site.
pub open spec fn site_address(path: Seq<char>) -> Seq<char> {
    "https://www.webtoons.com/"@ + path
}

/// The path of a link on the Webtoons site.
pub fn site_path_exec(link: &str) -> (res: String)
    ensures
        res@ == site_path(link@),
{
    let v = chars_of(link);
    let https = chars_of("https://www.webtoons.com/");
    let http = chars_of("http://www.webtoons.com/");
    assert(v@.skip(0) =~= v@);
    let a = strip_prefixes_exec(v.as_slice(), 0, https.as_slice());
    let b = strip_prefixes_exec(v.as_slice(), a, http.as_slice());
    assert(v@.skip(b as int) =~= v@.subrange(b as int, v@.len() as int));
    string_from_range(v.as_slice(), b, v.len())
}

/// The identifier an incoming link carries: its site path up to the first
/// `stop`, when that is not empty.
pub open spec fn link_id(url: Seq<char>, stop: Seq<char>) -> Option<Seq<char>> {
    let id = before_first(site_path(url), stop);
    if id.len() > 0 {
        Some(id)
    } else {
        None
    }
}

/// What a Webtoons link points at: a series for a link to an episode list
/// (identified by its path before the query), otherwise an episode for a link
/// to the viewer (identified by its path and query up to the second parameter).
pub open spec fn webtoons_link(url: Seq<char>) -> Option<LinkTarget> {
    if has_substring(url, "/list?title_no="@) && link_id(url, "?"@) is Some {
        Some(LinkTarget::Manga(link_id(url, "?"@)->0))
    } else if has_substring(url, "/viewer?"@) && link_id(url, "&"@) is Some {
        Some(LinkTarget::Chapter(link_id(url, "&"@)->0))
    } else {
        None
    }
}

fn link_id_exec(url: &str, stop: &str) -> (res: Option<String>)
    ensures
        res matches Some(id) ==> link_id(url@, stop@) == Some(id@),
        res is None ==> link_id(url@, stop@) is None,
{
    let path = chars_of(site_path_exec(url).as_str());
    let stop_chars = chars_of(stop);
    let end = before_first_exec(path.as_slice(), 0, stop_chars.as_slice());
    assert(path@.skip(0) =~= path@);
    if end > 0 {
        Some(string_from_range(path.as_slice(), 0, end))
    } else {
        None
    }
}

/// Recognises a Webtoons link to a series or an episode.
pub fn parse_incoming_url(url: String) -> (res: Result<DeepLink, SourceError>)
    ensures
        res is Ok <==> webtoons_link(url@) is Some,
        res matches Ok(link) ==> link.points_to() == webtoons_link(url@),
        res matches Err(e) ==> e == SourceError::InvalidUrl,
{
    if contains_str(url.as_str(), "/list?title_no=") {
        if let Some(id) = link_id_exec(url.as_str(), "?") {
            return Ok(DeepLink { manga: Some(id), chapter: None });
        }
    }
    if contains_str(url.as_str(), "/viewer?") {
        if let Some(id) = link_id_exec(url.as_str(), "&") {
            return Ok(DeepLink { manga: None, chapter: Some(id) });
        }
    }
    Err(SourceError::InvalidUrl)
}

/// The address of a search of the Webtoons series for `title`, for a page of results.
pub open spec fn search_address(title: Seq<char>, page: i32) -> Seq<char> {
    "https://www.webtoons.com"@ + "/en/search?keyword="@ + form_encode(vstd::utf8::encode_utf8(title))
        + "&searchType=WEBTOON"@ + if page > 1 {
        "&page="@ + decimal_string(page as int)
    } else {
        Seq::empty()
    }
}

/// The address of a search of the Webtoons series for `title`, for a page of results.
pub fn search_url(title: &str, page: i32) -> (url: String)
    ensures
        url@ == search_address(title@, page),
{
    let mut url = String::new();
    url.append("https://www.webtoons.com");
    url.append("/en/search?keyword=");
    url.append(urlencode(title).as_str());
    url.append("&searchType=WEBTOON");
    if page > 1 {
        url.append("&page=");
        url.append(i32_to_string(page).as_str());
    }
    url
}

/// The search text set by a list of filters: that of the last title filter with
/// a text value, or nothing.
pub open spec fn search_title(fs: Seq<Filter>) -> Seq<char>
    decreases fs.len(),
{
    if fs.len() == 0 {
        Seq::empty()
    } else if fs.last().kind == FilterKind::Title && str_of(fs.last().value) is Some {
        str_of(fs.last().value)->0
    } else {
        search_title(fs.drop_last())
    }
}

/// What a search asks for: nothing to fetch (an empty page of results), or the
/// address of a page to fetch and read as a listing.
pub enum SearchStep {
    Done(MangaPageResult),
    Fetch(String),
}

/// Decides a search: without a search text there are no results; otherwise
/// the search page for that text is fetched.
pub fn search_manga(filters: Vec<Filter>, page: i32) -> (step: SearchStep)
    ensures
        search_title(filters@).len() == 0 ==> (step matches SearchStep::Done(r) && r.manga@.len()
            == 0 && !r.has_more),
        search_title(filters@).len() > 0 ==> (step matches SearchStep::Fetch(url) && url@
            == search_address(search_title(filters@), page)),
{
    let mut title = String::new();
    let mut i: usize = 0;
    assert(filters@.take(0) =~= Seq::<Filter>::empty());
    while i < filters.len()
        invariant
            i <= filters@.len(),
            title@ == search_title(filters@.take(i as int)),
        decreases filters.len() - i,
    {
        let filter = &filters[i];
        assert(filters@.take(i + 1).drop_last() =~= filters@.take(i as int));
        assert(filters@.take(i + 1).last() == *filter);
        if let FilterKind::Title = filter.kind {
            if let Some(value) = filter.value.as_string() {
                title = value;
            }
        }
        i = i + 1;
    }
    assert(filters@.take(filters@.len() as int) =~= filters@);
    if title.unicode_len() == 0 {
        return SearchStep::Done(MangaPageResult { manga: Vec::new(), has_more: false });
    }
    SearchStep::Fetch(search_url(title.as_str(), page))
}


/// Law: the site path of the address of a path is that path, for a path that
/// does not itself start with the site's address; so the address a series is
/// given leads back to its identifier.
pub proof fn law_site_path_round_trip(path: Seq<char>)
    requires
        !occurs_at(path, "https://www.webtoons.com/"@, 0),
        !occurs_at(path, "http://www.webtoons.com/"@, 0),
    ensures
        site_path(site_address(path)) == path,
{
    reveal_strlit("https://www.webtoons.com/");
    lemma_strip_one("https://www.webtoons.com/"@, path);
    lemma_strip_nothing(path, "https://www.webtoons.com/"@);
    lemma_strip_nothing(path, "http://www.webtoons.com/"@);
}

} // verus!
