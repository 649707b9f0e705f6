//! The Webtoons source as the source interface drives it: the addresses it
//! requests and how the values taken from its pages become entries.

use vstd::prelude::*;
use crate::common::{ContentRating, MangaStatus, Viewer};
use crate::entry::{Chapter, DateFormat, Manga, MangaPageResult, UploadDate};
use crate::record::{NumberText, Page};
use crate::text::{
    ascii_lowercase, chars_of, contains_str, first_word, first_word_exec, has_substring, parse_i64, parse_i64_exec,
    find_from, lemma_find_from, lemma_find_in_prefixed, occurs_at, second_piece, second_piece_exec,
    string_from_chars, views,
};
use crate::webtoons::helper::{search_address, search_url as search_address_exec, site_path, site_path_exec};

verus! {

/// The Webtoons source.
pub struct Webtoons;

/// The genre page of a named listing.
pub open spec fn listing_genre(name: Seq<char>) -> Seq<char> {
    if name == "Popular"@ {
        "popular"@
    } else if name == "Romance"@ {
        "romance"@
    } else if name == "Fantasy"@ {
        "fantasy"@
    } else if name == "Comedy"@ {
        "comedy"@
    } else if name == "Action"@ {
        "action"@
    } else if name == "Drama"@ {
        "drama"@
    } else if name == "Thriller"@ {
        "thriller"@
    } else if name == "Supernatural"@ {
        "supernatural"@
    } else {
        "popular"@
    }
}

/// What a series card of a listing page shows, each part when present.
pub struct Card {
    pub link: Option<String>,
    pub title: Option<String>,
    pub cover: Option<String>,
    pub author: Option<String>,
}

/// What the page of a series shows, each part when present, and whether its
/// publication note says it is completed.
pub struct SeriesDetails {
    pub title: Option<String>,
    pub cover: Option<String>,
    pub author: Option<String>,
    pub summary: Option<String>,
    pub genres: Option<Vec<String>>,
    pub completed: bool,
}

/// What an item of an episode list shows: its link, title and date when
/// present, and whether it carries a lock or fast-pass badge.
pub struct EpisodeItem {
    pub link: Option<String>,
    pub title: Option<String>,
    pub date: Option<String>,
    pub locked: bool,
    pub fast_pass: bool,
}

/// The image attributes of an entry of a chapter viewer, each when present.
pub struct ViewerImage {
    pub data_url: Option<String>,
    pub src: Option<String>,
}

/// The view of an optional string.
pub open spec fn opt_view(s: Option<String>) -> Option<Seq<char>> {
    match s {
        Some(t) => Some(t@),
        None => None,
    }
}

/// Whether a card can be read: it has a link and a title.
pub open spec fn card_readable(card: Card) -> bool {
    card.link is Some && card.title is Some
}

/// The entry a readable card describes.
pub open spec fn describes_card(card: Card, m: Manga) -> bool {
    &&& m.key@ == site_path(card.link->0@)
    &&& m.title@ == card.title->0@
    &&& opt_view(m.cover) == opt_view(card.cover)
    &&& match card.author {
        Some(a) => m.authors matches Some(v) && views(v@) == seq![a@],
        None => m.authors is None,
    }
    &&& m.description is None
    &&& m.url is None
    &&& m.tags is None
    &&& m.status == MangaStatus::Unknown
    &&& m.content_rating == ContentRating::Unknown
    &&& m.viewer == Viewer::Unknown
    &&& m.chapters is None
}

/// The readable cards among `cards`, in order.
pub open spec fn readable_cards(cards: Seq<Card>) -> Seq<Card>
    decreases cards.len(),
{
    if cards.len() == 0 {
        Seq::empty()
    } else if card_readable(cards.last()) {
        readable_cards(cards.drop_last()).push(cards.last())
    } else {
        readable_cards(cards.drop_last())
    }
}

/// The unit in seconds a relative date counts in, by the word it contains.
pub open spec fn date_unit(s: Seq<char>) -> Option<int> {
    if has_substring(s, "hour"@) {
        Some(3600)
    } else if has_substring(s, "day"@) {
        Some(86400)
    } else if has_substring(s, "week"@) {
        Some(604800)
    } else {
        None
    }
}

/// The amount a relative date counts: its first word read as an integer.
pub open spec fn date_amount(s: Seq<char>) -> Option<i64> {
    match first_word(s) {
        Some(w) => parse_i64(w),
        None => None,
    }
}

/// The time a relative date stands for, as an exact integer, when it is one.
pub open spec fn relative_time(s: Seq<char>, now: i64) -> Option<int> {
    match (date_unit(s), date_amount(s)) {
        (Some(unit), Some(k)) => Some(now - k * unit),
        _ => None,
    }
}

/// Whether a relative date, when it is one, stands for a time an `i64` holds.
pub open spec fn date_in_range(s: Seq<char>, now: i64) -> bool {
    match relative_time(s, now) {
        Some(t) => i64::MIN <= t <= i64::MAX,
        None => true,
    }
}

/// Whether the date of an episode item, when it has one, is in range.
pub open spec fn item_date_in_range(item: EpisodeItem, now: i64) -> bool {
    match item.date {
        Some(s) => date_in_range(s@, now),
        None => true,
    }
}

/// When a date text says a chapter was published: a relative date (`2 hours`,
/// `3 days`, `1 week`) counts back from `now`; any other text is a calendar
/// date for the host to read.
pub open spec fn describes_date(s: Seq<char>, now: i64, d: UploadDate) -> bool {
    match date_unit(s) {
        Some(_) => match relative_time(s, now) {
            Some(t) => d == UploadDate::At(t as i64),
            None => d == UploadDate::Unknown,
        },
        None => d matches UploadDate::Text { text, format } && text@ == s && format
            == DateFormat::MonthDayYear,
    }
}

/// The identifier of an episode: the part of its link after `viewer?`.
pub open spec fn episode_id(link: Seq<char>) -> Option<Seq<char>> {
    second_piece(link, "viewer?"@)
}

/// Whether an episode item can be read: it has a link with a `viewer?` part.
pub open spec fn episode_readable(item: EpisodeItem) -> bool {
    item.link matches Some(l) && episode_id(l@) is Some
}

/// The access badge of an episode: fast pass, locked, or free.
pub open spec fn access_badge(locked: bool, fast_pass: bool) -> Seq<char> {
    if fast_pass {
        "🔒 Fast Pass"@
    } else if locked {
        "🔒 Locked"@
    } else {
        "Free"@
    }
}

/// The entry a readable episode item at `index` of a list of `count` items
/// describes.
pub open spec fn describes_episode(item: EpisodeItem, index: int, count: int, now: i64, c: Chapter) -> bool {
    let link = item.link->0@;
    &&& c.key@ == episode_id(link)->0
    &&& opt_view(c.title) == opt_view(item.title)
    &&& c.chapter_number == NumberText::Count((count - index) as u64)
    &&& c.volume_number == NumberText::Unknown
    &&& match item.date {
        Some(s) => describes_date(s@, now, c.date_uploaded),
        None => c.date_uploaded == UploadDate::Unknown,
    }
    &&& c.scanlators matches Some(v) && views(v@) == seq![access_badge(item.locked, item.fast_pass)]
    &&& c.url matches Some(u) && u@ == link
    &&& c.locked == (item.locked || item.fast_pass)
}

/// The readable episode items with their positions, in order.
pub open spec fn readable_episodes(items: Seq<EpisodeItem>) -> Seq<(int, EpisodeItem)>
    decreases items.len(),
{
    if items.len() == 0 {
        Seq::empty()
    } else if episode_readable(items.last()) {
        readable_episodes(items.drop_last()).push((items.len() - 1, items.last()))
    } else {
        readable_episodes(items.drop_last())
    }
}

/// The image address of a viewer entry: its `data-url`, or else its `src`.
pub open spec fn image_of(img: ViewerImage) -> Option<Seq<char>> {
    match img.data_url {
        Some(u) => Some(u@),
        None => opt_view(img.src),
    }
}

/// The viewer entries with an image address, with their positions, in order.
pub open spec fn shown_images(images: Seq<ViewerImage>) -> Seq<(int, Seq<char>)>
    decreases images.len(),
{
    if images.len() == 0 {
        Seq::empty()
    } else {
        match image_of(images.last()) {
            Some(u) => shown_images(images.drop_last()).push((images.len() - 1, u)),
            None => shown_images(images.drop_last()),
        }
    }
}

/// Whether a date text, when it is a relative date, stands for a time an `i64`
/// holds when counted back from `now`.
pub fn relative_date_fits(date_str: &str, now: i64) -> (r: bool)
    ensures
        r == date_in_range(date_str@, now),
{
    let unit: i64 = if contains_str(date_str, "hour") {
        3600
    } else if contains_str(date_str, "day") {
        86400
    } else if contains_str(date_str, "week") {
        604800
    } else {
        return true;
    };
    let amount = match first_word_exec(date_str) {
        Some(w) => parse_i64_exec(w.as_str()),
        None => None,
    };
    match amount {
        Some(k) => {
            let t: i128 = now as i128 - (k as i128) * (unit as i128);
            -9223372036854775808 <= t && t <= 9223372036854775807
        },
        None => true,
    }
}

/// When a date text says a chapter was published, counting relative dates back
/// from `now`.
pub fn parse_relative_date(date_str: &str, now: i64) -> (d: UploadDate)
    requires
        date_in_range(date_str@, now),
    ensures
        describes_date(date_str@, now, d),
{
    let unit: i64 = if contains_str(date_str, "hour") {
        3600
    } else if contains_str(date_str, "day") {
        86400
    } else if contains_str(date_str, "week") {
        604800
    } else {
        return UploadDate::Text { text: string_from_chars(chars_of(date_str).as_slice()), format: DateFormat::MonthDayYear };
    };
    let amount = match first_word_exec(date_str) {
        Some(w) => parse_i64_exec(w.as_str()),
        None => None,
    };
    match amount {
        Some(k) => {
            assert(relative_time(date_str@, now) == Some(now - k * unit));
            let k128 = k as i128;
            let t: i128 = now as i128 - k128 * (unit as i128);
            UploadDate::At(t as i64)
        },
        None => UploadDate::Unknown,
    }
}

impl Webtoons {
    pub fn new() -> Self {
        Webtoons
    }

    /// The address of a search for `query`, or nothing when there is no search
    /// text (the result is then an empty page).
    pub fn search_url(&self, query: Option<String>, page: i32) -> (url: Option<String>)
        ensures
            url is None <==> (query is None || query->0@.len() == 0),
            url matches Some(u) ==> u@ == search_address(query->0@, page),
    {
        match query {
            Some(title) => if title.unicode_len() == 0 {
                None
            } else {
                Some(search_address_exec(title.as_str(), page))
            },
            None => None,
        }
    }

    /// The address of the genre page of a named listing.
    pub fn listing_url(&self, name: &str) -> (url: String)
        ensures
            url@ == "https://www.webtoons.com"@ + "/en/genre/"@ + listing_genre(name@),
    {
        let genre = if crate::text::str_eq(name, "Popular") {
            "popular"
        } else if crate::text::str_eq(name, "Romance") {
            "romance"
        } else if crate::text::str_eq(name, "Fantasy") {
            "fantasy"
        } else if crate::text::str_eq(name, "Comedy") {
            "comedy"
        } else if crate::text::str_eq(name, "Action") {
            "action"
        } else if crate::text::str_eq(name, "Drama") {
            "drama"
        } else if crate::text::str_eq(name, "Thriller") {
            "thriller"
        } else if crate::text::str_eq(name, "Supernatural") {
            "supernatural"
        } else {
            "popular"
        };
        let mut url = String::new();
        url.append("https://www.webtoons.com");
        url.append("/en/genre/");
        url.append(genre);
        url
    }

    /// The address of the page of a series.
    pub fn series_url(&self, key: &str) -> (url: String)
        ensures
            url@ == "https://www.webtoons.com"@ + "/"@ + key@,
    {
        let mut url = String::new();
        url.append("https://www.webtoons.com");
        url.append("/");
        url.append(key);
        url
    }

    /// The address of the viewer of an episode.
    pub fn chapter_pages_url(&self, chapter_key: &str) -> (url: String)
        ensures
            url@ == viewer_address(chapter_key@),
    {
        let mut url = String::new();
        url.append("https://www.webtoons.com");
        url.append("/en/viewer?");
        url.append(chapter_key);
        url
    }

    /// Reads the cards of a listing page: the cards with a link and a title, in
    /// order; there are more results when the page has a next-page link.
    pub fn parse_manga_listing(&self, cards: Vec<Card>, has_next: bool, _page: i32) -> (res: MangaPageResult)
        ensures
            res.entries@.len() == readable_cards(cards@).len(),
            forall|i: int|
                0 <= i < res.entries@.len() ==> describes_card(
                    readable_cards(cards@)[i],
                    #[trigger] res.entries@[i],
                ),
            res.has_next_page == has_next,
    {
        let mut entries: Vec<Manga> = Vec::new();
        let mut i: usize = 0;
        while i < cards.len()
            invariant
                i <= cards@.len(),
                entries@.len() == readable_cards(cards@.take(i as int)).len(),
                forall|k: int|
                    0 <= k < entries@.len() ==> describes_card(
                        readable_cards(cards@.take(i as int))[k],
                        #[trigger] entries@[k],
                    ),
            decreases cards.len() - i,
        {
            let card = &cards[i];
            assert(cards@.take(i + 1).drop_last() =~= cards@.take(i as int));
            assert(cards@.take(i + 1).last() == *card);
            match (&card.link, &card.title) {
                (Some(link), Some(title)) => {
                    let key = site_path_exec(link.as_str());
                    let authors = match &card.author {
                        Some(a) => {
                            let mut v: Vec<String> = Vec::new();
                            v.push(a.clone());
                            assert(views(v@) =~= seq![a@]);
                            Some(v)
                        },
                        None => None,
                    };
                    entries.push(
                        Manga {
                            key,
                            title: title.clone(),
                            cover: card.cover.clone(),
                            authors,
                            description: None,
                            url: None,
                            tags: None,
                            status: MangaStatus::Unknown,
                            content_rating: ContentRating::Unknown,
                            viewer: Viewer::Unknown,
                            chapters: None,
                        },
                    );
                },
                _ => {},
            }
            i = i + 1;
        }
        assert(cards@.take(cards@.len() as int) =~= cards@);
        MangaPageResult { entries, has_next_page: has_next }
    }

    /// Fills in the details of `manga` from the page of the series at `url`: the
    /// page's title when it shows one, its cover, author, summary and genres as
    /// shown, completed or ongoing, safe, read as a webtoon.
    pub fn apply_details(&self, manga: Manga, page: SeriesDetails, url: String) -> (m: Manga)
        ensures
            m.key == manga.key,
            m.title@ == match page.title {
                Some(t) => t@,
                None => manga.title@,
            },
            opt_view(m.cover) == opt_view(page.cover),
            match page.author {
                Some(a) => m.authors matches Some(v) && views(v@) == seq![a@],
                None => m.authors is None,
            },
            opt_view(m.description) == opt_view(page.summary),
            m.url matches Some(u) && u@ == url@,
            match page.genres {
                Some(g) => m.tags matches Some(t) && views(t@) == views(g@),
                None => m.tags is None,
            },
            m.status == if page.completed {
                MangaStatus::Completed
            } else {
                MangaStatus::Ongoing
            },
            m.content_rating == ContentRating::Safe,
            m.viewer == Viewer::Webtoon,
            m.chapters == manga.chapters,
    {
        let mut m = manga;
        if let Some(t) = page.title {
            m.title = t;
        }
        m.cover = page.cover;
        m.authors = match page.author {
            Some(a) => {
                let mut v: Vec<String> = Vec::new();
                v.push(a);
                assert(views(v@) =~= seq![a@]);
                Some(v)
            },
            None => None,
        };
        m.description = page.summary;
        m.url = Some(url);
        m.tags = page.genres;
        m.status = if page.completed {
            MangaStatus::Completed
        } else {
            MangaStatus::Ongoing
        };
        m.content_rating = ContentRating::Safe;
        m.viewer = Viewer::Webtoon;
        m
    }

    /// Reads the items of an episode list: the items with an episode link, in
    /// order, numbered from the bottom of the whole list.
    pub fn parse_episode_list(&self, items: Vec<EpisodeItem>, now: i64) -> (chapters: Vec<Chapter>)
        requires
            forall|i: int|
                0 <= i < items@.len() ==> item_date_in_range(#[trigger] items@[i], now),
        ensures
            chapters@.len() == readable_episodes(items@).len(),
            forall|i: int|
                0 <= i < chapters@.len() ==> describes_episode(
                    readable_episodes(items@)[i].1,
                    readable_episodes(items@)[i].0,
                    items@.len() as int,
                    now,
                    #[trigger] chapters@[i],
                ),
    {
        let n = items.len();
        let mut chapters: Vec<Chapter> = Vec::new();
        let mut i: usize = 0;
        while i < n
            invariant
                i <= n == items@.len(),
                forall|k: int|
                    0 <= k < items@.len() ==> item_date_in_range(#[trigger] items@[k], now),
                chapters@.len() == readable_episodes(items@.take(i as int)).len(),
                forall|k: int|
                    0 <= k < chapters@.len() ==> describes_episode(
                        readable_episodes(items@.take(i as int))[k].1,
                        readable_episodes(items@.take(i as int))[k].0,
                        n as int,
                        now,
                        #[trigger] chapters@[k],
                    ),
            decreases n - i,
        {
            let item = &items[i];
            assert(items@.take(i + 1).drop_last() =~= items@.take(i as int));
            assert(items@.take(i + 1).last() == *item);
            assert(items@[i as int] == *item);
            if let Some(link) = &item.link {
                let link_chars = chars_of(link.as_str());
                let marker = chars_of("viewer?");
                if let Some(id_chars) = second_piece_exec(link_chars.as_slice(), marker.as_slice()) {
                    let key = string_from_chars(id_chars.as_slice());
                    let date_uploaded = match &item.date {
                        Some(s) => parse_relative_date(s.as_str(), now),
                        None => UploadDate::Unknown,
                    };
                    let badge = if item.fast_pass {
                        "🔒 Fast Pass"
                    } else if item.locked {
                        "🔒 Locked"
                    } else {
                        "Free"
                    };
                    let mut scanlators: Vec<String> = Vec::new();
                    scanlators.push(String::from_str(badge));
                    assert(views(scanlators@) =~= seq![access_badge(item.locked, item.fast_pass)]);
                    chapters.push(
                        Chapter {
                            key,
                            title: item.title.clone(),
                            chapter_number: NumberText::Count((n - i) as u64),
                            volume_number: NumberText::Unknown,
                            date_uploaded,
                            scanlators: Some(scanlators),
                            url: Some(link.clone()),
                            locked: item.locked || item.fast_pass,
                        },
                    );
                }
            }
            i = i + 1;
        }
        assert(items@.take(n as int) =~= items@);
        chapters
    }

    /// Reads the entries of a chapter viewer: one page for each entry with an
    /// image address, at its position among the entries.
    pub fn parse_viewer_images(&self, images: Vec<ViewerImage>) -> (pages: Vec<Page>)
        ensures
            pages@.len() == shown_images(images@).len(),
            forall|i: int|
                0 <= i < pages@.len() ==> (#[trigger] pages@[i]).index == shown_images(images@)[i].0 as i32
                    && pages@[i].url@ == shown_images(images@)[i].1,
    {
        let mut pages: Vec<Page> = Vec::new();
        let mut i: usize = 0;
        while i < images.len()
            invariant
                i <= images@.len(),
                pages@.len() == shown_images(images@.take(i as int)).len(),
                forall|k: int|
                    0 <= k < pages@.len() ==> (#[trigger] pages@[k]).index == shown_images(
                        images@.take(i as int),
                    )[k].0 as i32 && pages@[k].url@ == shown_images(images@.take(i as int))[k].1,
            decreases images.len() - i,
        {
            let img = &images[i];
            assert(images@.take(i + 1).drop_last() =~= images@.take(i as int));
            assert(images@.take(i + 1).last() == *img);
            let url = match &img.data_url {
                Some(u) => Some(u.clone()),
                None => img.src.clone(),
            };
            if let Some(u) = url {
                pages.push(Page { index: #[verifier::truncate] (i as i32), url: u });
            }
            i = i + 1;
        }
        assert(images@.take(images@.len() as int) =~= images@);
        pages
    }
}


/// The address of the viewer of an episode.
pub open spec fn viewer_address(key: Seq<char>) -> Seq<char> {
    "https://www.webtoons.com"@ + "/en/viewer?"@ + key
}

/// Law: the viewer address of an episode, read back as an episode link, gives
/// the episode's key, for a key that does not itself contain `viewer?`.
pub proof fn law_episode_key_round_trip(key: Seq<char>)
    requires
        find_from(key, "viewer?"@, 0) is None,
    ensures
        episode_id(viewer_address(key)) == Some(key),
{
    reveal_strlit("https://www.webtoons.com");
    reveal_strlit("/en/viewer?");
    reveal_strlit("viewer?");
    let p = "https://www.webtoons.com"@ + "/en/viewer?"@;
    let marker = "viewer?"@;
    assert(p.len() == 35);
    assert(p.subrange(28, 35) =~= marker);
    assert forall|k: int| 0 <= k < 28 implies !occurs_at(p, marker, k) by {
        assert(p.subrange(k, k + 7)[0] == p[k]);
        assert(p[k] != 'v');
    }
    lemma_find_in_prefixed(p, key, marker, 28);
    assert(viewer_address(key) =~= p + key);
    assert((p + key).skip(35) =~= key);
}

/// Whether a listing name is one of the genre listings the site offers.
pub open spec fn is_named_genre(name: Seq<char>) -> bool {
    ||| name == "Popular"@
    ||| name == "Romance"@
    ||| name == "Fantasy"@
    ||| name == "Comedy"@
    ||| name == "Action"@
    ||| name == "Drama"@
    ||| name == "Thriller"@
    ||| name == "Supernatural"@
}

/// Law: the address of a named genre listing is the genre page named by that
/// listing's own name in lower case (`Action` is `/en/genre/action`), and any
/// other name gives the popular page.
pub proof fn law_genre_listing_address(name: Seq<char>)
    ensures
        is_named_genre(name) ==> "https://www.webtoons.com"@ + "/en/genre/"@ + listing_genre(name)
            == "https://www.webtoons.com/en/genre/"@ + ascii_lowercase(name),
        !is_named_genre(name) ==> "https://www.webtoons.com"@ + "/en/genre/"@ + listing_genre(name)
            == "https://www.webtoons.com/en/genre/popular"@,
{
    reveal_strlit("https://www.webtoons.com");
    reveal_strlit("/en/genre/");
    reveal_strlit("https://www.webtoons.com/en/genre/");
    reveal_strlit("https://www.webtoons.com/en/genre/popular");
    reveal_strlit("Popular");
    reveal_strlit("popular");
    reveal_strlit("Romance");
    reveal_strlit("romance");
    reveal_strlit("Fantasy");
    reveal_strlit("fantasy");
    reveal_strlit("Comedy");
    reveal_strlit("comedy");
    reveal_strlit("Action");
    reveal_strlit("action");
    reveal_strlit("Drama");
    reveal_strlit("drama");
    reveal_strlit("Thriller");
    reveal_strlit("thriller");
    reveal_strlit("Supernatural");
    reveal_strlit("supernatural");
    let base = "https://www.webtoons.com"@ + "/en/genre/"@;
    assert(base =~= "https://www.webtoons.com/en/genre/"@);
    assert(base + "popular"@ =~= "https://www.webtoons.com/en/genre/popular"@);
    assert(ascii_lowercase("Popular"@) =~= "popular"@);
    assert(ascii_lowercase("Romance"@) =~= "romance"@);
    assert(ascii_lowercase("Fantasy"@) =~= "fantasy"@);
    assert(ascii_lowercase("Comedy"@) =~= "comedy"@);
    assert(ascii_lowercase("Action"@) =~= "action"@);
    assert(ascii_lowercase("Drama"@) =~= "drama"@);
    assert(ascii_lowercase("Thriller"@) =~= "thriller"@);
    assert(ascii_lowercase("Supernatural"@) =~= "supernatural"@);
}

} // verus!
