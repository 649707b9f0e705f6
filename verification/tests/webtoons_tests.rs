use manga_sources::common::{ContentRating, DeepLink, Filter, FilterKind, MangaStatus, SourceError, Viewer};
use manga_sources::entry::{DateFormat, Manga, UploadDate};
use manga_sources::json::JsonValue;
use manga_sources::record::{DateText, NumberText, Page};
use manga_sources::webtoons::helper::{parse_incoming_url, search_manga, site_path_exec, SearchStep};
use manga_sources::webtoons::parser::{
    parse_chapter_list, parse_manga_details, parse_manga_listing, parse_page_list, EpisodeRow,
    ListingCard, SeriesPage, ViewerImage,
};
use manga_sources::webtoons::source::{
    parse_relative_date, relative_date_fits, Card, EpisodeItem, SeriesDetails, ViewerImage as ViewerEntry, Webtoons,
};

fn text(x: &str) -> String {
    x.to_string()
}

#[test]
fn webtoons_incoming_links() {
    assert_eq!(
        parse_incoming_url(text("https://www.webtoons.com/en/fantasy/tower-of-god/list?title_no=95")),
        Ok(DeepLink { manga: Some(text("en/fantasy/tower-of-god/list")), chapter: None })
    );
    assert_eq!(
        parse_incoming_url(text(
            "https://www.webtoons.com/en/fantasy/tower-of-god/ep-1/viewer?title_no=95&episode_no=1"
        )),
        Ok(DeepLink { manga: None, chapter: Some(text("en/fantasy/tower-of-god/ep-1/viewer?title_no=95")) })
    );
    assert_eq!(
        parse_incoming_url(text("http://www.webtoons.com/x/list?title_no=1")),
        Ok(DeepLink { manga: Some(text("x/list")), chapter: None })
    );
    assert_eq!(parse_incoming_url(text("https://www.webtoons.com/en/")), Err(SourceError::InvalidUrl));
    assert_eq!(parse_incoming_url(text("?/list?title_no=1")), Err(SourceError::InvalidUrl));
}

#[test]
fn site_paths() {
    assert_eq!(site_path_exec("https://www.webtoons.com/en/a"), "en/a");
    assert_eq!(site_path_exec("https://www.webtoons.com/https://www.webtoons.com/b"), "b");
    assert_eq!(site_path_exec("http://www.webtoons.com/c"), "c");
    assert_eq!(site_path_exec("en/d"), "en/d");
}

#[test]
fn catalog_search() {
    match search_manga(vec![], 1) {
        SearchStep::Done(r) => {
            assert!(r.manga.is_empty());
            assert!(!r.has_more);
        },
        SearchStep::Fetch(_) => panic!("nothing to search for"),
    }
    let filters = vec![
        Filter { kind: FilterKind::Title, name: text("Title"), value: JsonValue::Str(text("tower of god")) },
        Filter { kind: FilterKind::Author, name: text("Author"), value: JsonValue::Str(text("SIU")) },
    ];
    match search_manga(filters, 2) {
        SearchStep::Fetch(url) => assert_eq!(
            url,
            "https://www.webtoons.com/en/search?keyword=tower+of+god&searchType=WEBTOON&page=2"
        ),
        SearchStep::Done(_) => panic!("expected a search"),
    }
    let filters = vec![
        Filter { kind: FilterKind::Title, name: text("Title"), value: JsonValue::Str(text("a")) },
        Filter { kind: FilterKind::Title, name: text("Title"), value: JsonValue::Str(text("")) },
    ];
    assert!(matches!(search_manga(filters, 1), SearchStep::Done(_)));
}

#[test]
fn catalog_listing() {
    let cards = vec![
        ListingCard {
            href: text("https://www.webtoons.com/en/romance/lore/list?title_no=1"),
            title: text("Lore Olympus"),
            cover: text("https://img/1.jpg"),
            author: text("Rachel"),
        },
        ListingCard { href: text(""), title: text(""), cover: text(""), author: text("") },
    ];
    let r = parse_manga_listing(cards, 1);
    assert!(!r.has_more);
    assert_eq!(r.manga.len(), 2);
    let m = &r.manga[0];
    assert_eq!(m.id, "en/romance/lore/list?title_no=1");
    assert_eq!(m.url, "https://www.webtoons.com/en/romance/lore/list?title_no=1");
    assert_eq!(m.title, "Lore Olympus");
    assert_eq!(m.cover, "https://img/1.jpg");
    assert_eq!(m.author, "Rachel");
    assert_eq!(m.status, MangaStatus::Unknown);
    assert_eq!(m.nsfw, ContentRating::Safe);
    assert_eq!(m.viewer, Viewer::Webtoon);
    assert_eq!(r.manga[1].url, "https://www.webtoons.com/");
}

#[test]
fn catalog_series_page() {
    let page = SeriesPage {
        title: text("Tower of God"),
        cover: text("c.jpg"),
        author: text("SIU"),
        summary: text("A tower."),
        genres: text(" Fantasy, Action ,, "),
        day_info: text("COMPLETED"),
    };
    let m = parse_manga_details(page, text("en/fantasy/tog/list?title_no=95"));
    assert_eq!(m.id, "en/fantasy/tog/list?title_no=95");
    assert_eq!(m.url, "https://www.webtoons.com/en/fantasy/tog/list?title_no=95");
    assert_eq!(m.categories, vec!["Fantasy", "Action"]);
    assert_eq!(m.status, MangaStatus::Completed);
    assert_eq!(m.description, "A tower.");
    let page = SeriesPage {
        title: text(""),
        cover: text(""),
        author: text(""),
        summary: text(""),
        genres: text(""),
        day_info: text("UP EVERY MONDAY"),
    };
    let m = parse_manga_details(page, text("x"));
    assert_eq!(m.status, MangaStatus::Ongoing);
    assert!(m.categories.is_empty());
}

#[test]
fn catalog_episodes() {
    let rows = vec![
        EpisodeRow {
            href: text("https://www.webtoons.com/en/x/ep3/viewer?title_no=1&episode_no=3"),
            title: text("Ep. 3"),
            date: text("2 hours ago"),
            locked_markup: text("<i></i>"),
            fast_pass_markup: text("<i></i>"),
            unlock_date: text("Jan 1"),
        },
        EpisodeRow {
            href: text("https://www.webtoons.com/en/x/ep2/viewer?title_no=1&episode_no=2"),
            title: text("Ep. 2"),
            date: text("Feb 2, 2024"),
            locked_markup: text("<i></i>"),
            fast_pass_markup: text(""),
            unlock_date: text(""),
        },
        EpisodeRow {
            href: text("en/x/ep1"),
            title: text("Ep. 1"),
            date: text(""),
            locked_markup: text(""),
            fast_pass_markup: text(""),
            unlock_date: text(""),
        },
    ];
    let chapters = parse_chapter_list(rows);
    assert_eq!(chapters.len(), 3);
    assert_eq!(chapters[0].id, "en/x/ep3/viewer?title_no=1&episode_no=3");
    assert_eq!(chapters[0].chapter, NumberText::Count(3));
    assert_eq!(chapters[1].chapter, NumberText::Count(2));
    assert_eq!(chapters[2].chapter, NumberText::Count(1));
    assert_eq!(chapters[0].volume, NumberText::Unknown);
    assert_eq!(chapters[0].scanlator, "🔒 Fast Pass • Unlocks Jan 1");
    assert_eq!(chapters[1].scanlator, "🔒 Locked");
    assert_eq!(chapters[2].scanlator, "Free");
    assert_eq!(chapters[0].date_updated, DateText::Relative(text("2 hours ago")));
    assert_eq!(chapters[0].lang, "en");
    assert_eq!(chapters[0].url, "");
}

#[test]
fn catalog_viewer_pages() {
    let images = vec![
        ViewerImage { data_url: Some(text("https://a/1.jpg")), src: text("placeholder") },
        ViewerImage { data_url: None, src: text("") },
        ViewerImage { data_url: None, src: text("https://a/3.jpg") },
    ];
    assert_eq!(
        parse_page_list(images),
        vec![
            Page { index: 0, url: text("https://a/1.jpg") },
            Page { index: 2, url: text("https://a/3.jpg") },
        ]
    );
}

#[test]
fn webtoons_request_addresses() {
    let w = Webtoons::new();
    assert_eq!(w.search_url(None, 1), None);
    assert_eq!(w.search_url(Some(text("")), 1), None);
    assert_eq!(
        w.search_url(Some(text("solo leveling")), 1),
        Some(text("https://www.webtoons.com/en/search?keyword=solo+leveling&searchType=WEBTOON"))
    );
    assert_eq!(
        w.search_url(Some(text("a")), 3),
        Some(text("https://www.webtoons.com/en/search?keyword=a&searchType=WEBTOON&page=3"))
    );
    assert_eq!(w.listing_url("Romance"), "https://www.webtoons.com/en/genre/romance");
    assert_eq!(w.listing_url("Supernatural"), "https://www.webtoons.com/en/genre/supernatural");
    assert_eq!(w.listing_url("Other"), "https://www.webtoons.com/en/genre/popular");
    assert_eq!(w.series_url("en/a/list?title_no=1"), "https://www.webtoons.com/en/a/list?title_no=1");
    assert_eq!(w.chapter_pages_url("title_no=1&episode_no=2"), "https://www.webtoons.com/en/viewer?title_no=1&episode_no=2");
}

#[test]
fn listing_entries() {
    let w = Webtoons::new();
    let cards = vec![
        Card {
            link: Some(text("https://www.webtoons.com/en/a/list?title_no=1")),
            title: Some(text("A")),
            cover: Some(text("https://c/a.jpg")),
            author: Some(text("X")),
        },
        Card { link: None, title: Some(text("B")), cover: None, author: None },
        Card { link: Some(text("en/c")), title: None, cover: None, author: None },
        Card { link: Some(text("en/d")), title: Some(text("D")), cover: None, author: None },
    ];
    let r = w.parse_manga_listing(cards, true, 1);
    assert!(r.has_next_page);
    assert_eq!(r.entries.len(), 2);
    assert_eq!(r.entries[0].key, "en/a/list?title_no=1");
    assert_eq!(r.entries[0].authors, Some(vec![text("X")]));
    assert_eq!(r.entries[0].cover, Some(text("https://c/a.jpg")));
    assert_eq!(r.entries[1].key, "en/d");
    assert_eq!(r.entries[1].authors, None);
    assert!(!w.parse_manga_listing(vec![], false, 1).has_next_page);
}

fn blank_manga(key: &str, title: &str) -> Manga {
    Manga {
        key: text(key),
        title: text(title),
        cover: None,
        authors: None,
        description: None,
        url: None,
        tags: None,
        status: MangaStatus::Unknown,
        content_rating: ContentRating::Unknown,
        viewer: Viewer::Unknown,
        chapters: None,
    }
}

#[test]
fn series_details() {
    let w = Webtoons::new();
    let details = SeriesDetails {
        title: None,
        cover: Some(text("c.jpg")),
        author: Some(text("SIU")),
        summary: Some(text("S")),
        genres: Some(vec![text("Fantasy")]),
        completed: true,
    };
    let m = w.apply_details(blank_manga("k", "Old"), details, w.series_url("k"));
    assert_eq!(m.title, "Old");
    assert_eq!(m.cover, Some(text("c.jpg")));
    assert_eq!(m.authors, Some(vec![text("SIU")]));
    assert_eq!(m.description, Some(text("S")));
    assert_eq!(m.url, Some(text("https://www.webtoons.com/k")));
    assert_eq!(m.tags, Some(vec![text("Fantasy")]));
    assert_eq!(m.status, MangaStatus::Completed);
    assert_eq!(m.content_rating, ContentRating::Safe);
    assert_eq!(m.viewer, Viewer::Webtoon);
    let details = SeriesDetails {
        title: Some(text("New")),
        cover: None,
        author: None,
        summary: None,
        genres: None,
        completed: false,
    };
    let m = w.apply_details(blank_manga("k", "Old"), details, text("u"));
    assert_eq!(m.title, "New");
    assert_eq!(m.status, MangaStatus::Ongoing);
    assert_eq!(m.tags, None);
}

#[test]
fn relative_dates() {
    assert_eq!(parse_relative_date("2 hours ago", 100000), UploadDate::At(100000 - 7200));
    assert_eq!(parse_relative_date("3 days", 1000000), UploadDate::At(1000000 - 259200));
    assert_eq!(parse_relative_date("1 week ago", 1000000), UploadDate::At(1000000 - 604800));
    assert_eq!(parse_relative_date("a day ago", 1000000), UploadDate::Unknown);
    assert_eq!(
        parse_relative_date("Feb 2, 2024", 0),
        UploadDate::Text { text: text("Feb 2, 2024"), format: DateFormat::MonthDayYear }
    );
}

#[test]
fn episode_entries() {
    let w = Webtoons::new();
    let items = vec![
        EpisodeItem {
            link: Some(text("https://www.webtoons.com/en/x/ep3/viewer?title_no=1&episode_no=3")),
            title: Some(text("Ep. 3")),
            date: Some(text("5 hours ago")),
            locked: false,
            fast_pass: true,
        },
        EpisodeItem { link: None, title: None, date: None, locked: false, fast_pass: false },
        EpisodeItem {
            link: Some(text("https://www.webtoons.com/en/x/ep1/viewer?title_no=1&episode_no=1")),
            title: None,
            date: None,
            locked: true,
            fast_pass: false,
        },
        EpisodeItem { link: Some(text("https://x/no-viewer")), title: None, date: None, locked: false, fast_pass: false },
    ];
    let chapters = w.parse_episode_list(items, 36000);
    assert_eq!(chapters.len(), 2);
    assert_eq!(chapters[0].key, "title_no=1&episode_no=3");
    assert_eq!(chapters[0].chapter_number, NumberText::Count(4));
    assert_eq!(chapters[0].date_uploaded, UploadDate::At(36000 - 18000));
    assert_eq!(chapters[0].scanlators, Some(vec![text("🔒 Fast Pass")]));
    assert!(chapters[0].locked);
    assert_eq!(chapters[1].key, "title_no=1&episode_no=1");
    assert_eq!(chapters[1].chapter_number, NumberText::Count(2));
    assert_eq!(chapters[1].date_uploaded, UploadDate::Unknown);
    assert_eq!(chapters[1].scanlators, Some(vec![text("🔒 Locked")]));
    assert!(chapters[1].locked);
    assert_eq!(chapters[1].url, Some(text("https://www.webtoons.com/en/x/ep1/viewer?title_no=1&episode_no=1")));
}

#[test]
fn episode_key_round_trip() {
    let w = Webtoons::new();
    let items = vec![EpisodeItem {
        link: Some(w.chapter_pages_url("title_no=7&episode_no=9")),
        title: None,
        date: None,
        locked: false,
        fast_pass: false,
    }];
    let chapters = w.parse_episode_list(items, 0);
    assert_eq!(chapters[0].key, "title_no=7&episode_no=9");
}

#[test]
fn viewer_pages() {
    let w = Webtoons::new();
    let images = vec![
        ViewerEntry { data_url: None, src: None },
        ViewerEntry { data_url: Some(text("d")), src: Some(text("s")) },
        ViewerEntry { data_url: None, src: Some(text("s2")) },
    ];
    assert_eq!(
        w.parse_viewer_images(images),
        vec![Page { index: 1, url: text("d") }, Page { index: 2, url: text("s2") }]
    );
}

#[test]
fn relative_dates_that_fit() {
    assert!(relative_date_fits("2 hours ago", 100000));
    assert!(relative_date_fits("Feb 2, 2024", i64::MIN));
    assert!(relative_date_fits("a day ago", i64::MIN));
    assert!(!relative_date_fits("1 hour ago", i64::MIN));
    assert!(relative_date_fits("1 hour ago", i64::MIN + 3600));
    assert!(!relative_date_fits("-1 week ago", i64::MAX));
    assert!(!relative_date_fits("9223372036854775807 days", 0));
}
