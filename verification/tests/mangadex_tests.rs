use manga_sources::common::{ContentRating, DeepLink, Filter, FilterKind, MangaStatus, SourceError, Viewer};
use manga_sources::entry::{DateFormat, UploadDate};
use manga_sources::json::{JsonField, JsonValue};
use manga_sources::mangadex::helper::{get_filter_string, get_tag_id, parse_incoming_url};
use manga_sources::mangadex::parser::{
    parse_chapter_list, parse_manga_details, parse_manga_list, parse_page_list,
};
use manga_sources::mangadex::source::{ChapterFeed, MangaDex};
use manga_sources::record::{DateText, NumberText, Page};

fn s(x: &str) -> JsonValue {
    JsonValue::Str(x.to_string())
}

fn obj(fields: Vec<(&str, JsonValue)>) -> JsonValue {
    JsonValue::Object(
        fields
            .into_iter()
            .map(|(k, v)| JsonField { key: k.to_string(), value: v })
            .collect(),
    )
}

fn filter(kind: FilterKind, name: &str, value: JsonValue) -> Filter {
    Filter { kind, name: name.to_string(), value }
}

fn series(id: &str, extra_rels: Vec<JsonValue>) -> JsonValue {
    let mut rels = vec![obj(vec![
        ("type", s("cover_art")),
        ("attributes", obj(vec![("fileName", s("cover.jpg"))])),
    ])];
    rels.extend(extra_rels);
    obj(vec![
        ("id", s(id)),
        (
            "attributes",
            obj(vec![
                ("title", obj(vec![("ja", s("Wanpisu")), ("en", s("One Piece"))])),
                ("description", obj(vec![("fr", s("Pirates"))])),
                ("status", s("ongoing")),
                ("contentRating", s("suggestive")),
                (
                    "tags",
                    JsonValue::Array(vec![
                        obj(vec![("attributes", obj(vec![("name", obj(vec![("en", s("Action"))]))]))]),
                        obj(vec![("attributes", obj(vec![("name", obj(vec![("ja", s("X"))]))]))]),
                        obj(vec![("attributes", obj(vec![("name", obj(vec![("en", s("Comedy"))]))]))]),
                    ]),
                ),
                ("artist", s("Oda")),
            ]),
        ),
        ("relationships", JsonValue::Array(rels)),
    ])
}

#[test]
fn tag_ids_by_name() {
    assert_eq!(get_tag_id("Action"), "391b0423-d847-456f-aff0-8b0cfc03066b");
    assert_eq!(get_tag_id("Slice of Life"), "e5301a23-ebd9-49dd-a0cb-2add944c7fe9");
    assert_eq!(get_tag_id("Thriller"), "07251805-a27e-4d59-b488-f0bfbec15168");
    assert_eq!(get_tag_id("action"), "");
    assert_eq!(get_tag_id(""), "");
}

#[test]
fn filter_string_for_each_kind() {
    assert_eq!(get_filter_string(vec![]), "");
    assert_eq!(
        get_filter_string(vec![filter(FilterKind::Title, "Title", s("One Piece"))]),
        "&title=One+Piece"
    );
    assert_eq!(get_filter_string(vec![filter(FilterKind::Title, "Title", s(""))]), "");
    assert_eq!(
        get_filter_string(vec![filter(FilterKind::Author, "Author", s("Oda & co"))]),
        "&authors=Oda+%26+co"
    );
    assert_eq!(
        get_filter_string(vec![filter(FilterKind::Select, "Status", JsonValue::Int(1))]),
        "&status[]=completed"
    );
    assert_eq!(get_filter_string(vec![filter(FilterKind::Select, "Status", JsonValue::Int(4))]), "");
    assert_eq!(
        get_filter_string(vec![filter(FilterKind::Select, "Demographic", JsonValue::Int(3))]),
        "&publicationDemographic[]=josei"
    );
    assert_eq!(
        get_filter_string(vec![filter(FilterKind::Select, "Content Rating", JsonValue::Int(0))]),
        "&contentRating[]=safe&contentRating[]=suggestive"
    );
    assert_eq!(
        get_filter_string(vec![filter(FilterKind::Select, "Content Rating", JsonValue::Int(2))]),
        "&contentRating[]=pornographic"
    );
    assert_eq!(get_filter_string(vec![filter(FilterKind::Select, "Other", JsonValue::Int(0))]), "");
    assert_eq!(
        get_filter_string(vec![filter(
            FilterKind::Sort,
            "Sort",
            obj(vec![("index", JsonValue::Int(2)), ("ascending", JsonValue::Bool(true))]),
        )]),
        "&order[rating]=asc"
    );
    assert_eq!(
        get_filter_string(vec![filter(FilterKind::Sort, "Sort", obj(vec![("index", JsonValue::Int(9))]))]),
        "&order[latestUploadedChapter]=desc"
    );
    assert_eq!(get_filter_string(vec![filter(FilterKind::Sort, "Sort", JsonValue::Int(2))]), "");
    assert_eq!(get_filter_string(vec![filter(FilterKind::Other, "Title", s("x"))]), "");
}

#[test]
fn filter_string_puts_genres_last() {
    let filters = vec![
        filter(FilterKind::Genre, "Action", JsonValue::Int(1)),
        filter(FilterKind::Title, "Title", s("x")),
        filter(FilterKind::Genre, "Comedy", JsonValue::Int(2)),
        filter(FilterKind::Genre, "Unknown", JsonValue::Int(1)),
        filter(FilterKind::Genre, "Drama", JsonValue::Int(0)),
    ];
    assert_eq!(
        get_filter_string(filters),
        "&title=x&includedTags[]=391b0423-d847-456f-aff0-8b0cfc03066b&includedTags[]=&excludedTags[]=4d32cc48-9f00-4cca-9b5a-a839f0764984"
    );
}

#[test]
fn filter_string_starts_a_parameter() {
    let filters = vec![
        filter(FilterKind::Sort, "Sort", obj(vec![("index", JsonValue::Int(1))])),
        filter(FilterKind::Genre, "Horror", JsonValue::Int(1)),
    ];
    let q = get_filter_string(filters);
    assert!(q.starts_with('&'));
    assert_eq!(q, "&order[title]=desc&includedTags[]=cdad7e68-1419-41dd-bdce-27753074a640");
}

#[test]
fn mangadex_incoming_links() {
    assert_eq!(
        parse_incoming_url("https://mangadex.org/title/abc-123/one-piece".to_string()),
        Ok(DeepLink { manga: Some("abc-123".to_string()), chapter: None })
    );
    assert_eq!(
        parse_incoming_url("https://mangadex.org/chapter/xyz".to_string()),
        Ok(DeepLink { manga: None, chapter: Some("xyz".to_string()) })
    );
    assert_eq!(
        parse_incoming_url("https://mangadex.org/title/".to_string()),
        Err(SourceError::InvalidUrl)
    );
    assert_eq!(
        parse_incoming_url("https://mangadex.org/title//x".to_string()),
        Err(SourceError::InvalidUrl)
    );
    assert_eq!(parse_incoming_url("https://example.com/".to_string()), Err(SourceError::InvalidUrl));
}

#[test]
fn series_address_round_trip() {
    let list = parse_manga_details(&obj(vec![("data", series("a1b2", vec![]))])).unwrap();
    assert_eq!(
        parse_incoming_url(list.url.clone()),
        Ok(DeepLink { manga: Some("a1b2".to_string()), chapter: None })
    );
}

#[test]
fn catalog_series_record() {
    let m = parse_manga_details(&obj(vec![("data", series("id1", vec![]))])).unwrap();
    assert_eq!(m.id, "id1");
    assert_eq!(m.title, "One Piece");
    assert_eq!(m.description, "Pirates");
    assert_eq!(m.cover, "https://uploads.mangadex.org/covers/id1/cover.jpg");
    assert_eq!(m.author, "Oda");
    assert_eq!(m.artist, "");
    assert_eq!(m.url, "https://mangadex.org/title/id1");
    assert_eq!(m.categories, vec!["Action", "Comedy"]);
    assert_eq!(m.status, MangaStatus::Ongoing);
    assert_eq!(m.nsfw, ContentRating::Safe);
    assert_eq!(m.viewer, Viewer::RightToLeft);
}

#[test]
fn catalog_series_errors() {
    assert_eq!(parse_manga_details(&obj(vec![])), Err(SourceError::ParseError));
    assert_eq!(parse_manga_details(&obj(vec![("data", s("x"))])), Err(SourceError::ParseError));
    let bad_rel = series("id1", vec![s("not an object")]);
    assert_eq!(parse_manga_details(&obj(vec![("data", bad_rel)])), Err(SourceError::ParseError));
}

#[test]
fn catalog_series_list() {
    let json = obj(vec![
        (
            "data",
            JsonValue::Array(vec![
                series("a", vec![]),
                obj(vec![("id", s("broken"))]),
                series("b", vec![]),
            ]),
        ),
        ("total", JsonValue::Int(10)),
    ]);
    let r = parse_manga_list(&json).unwrap();
    assert_eq!(r.manga.len(), 2);
    assert_eq!(r.manga[0].id, "a");
    assert_eq!(r.manga[1].id, "b");
    assert!(r.has_more);

    let json = obj(vec![("data", JsonValue::Array(vec![series("a", vec![])])), ("total", JsonValue::Int(1))]);
    assert!(!parse_manga_list(&json).unwrap().has_more);
    let json = obj(vec![("data", JsonValue::Array(vec![series("a", vec![])]))]);
    assert!(!parse_manga_list(&json).unwrap().has_more);

    let json = obj(vec![("data", JsonValue::Array(vec![JsonValue::Int(1)]))]);
    assert_eq!(parse_manga_list(&json), Err(SourceError::ParseError));
    assert_eq!(parse_manga_list(&obj(vec![])), Err(SourceError::ParseError));
}

fn chapter_item(id: &str, attrs: Vec<(&str, JsonValue)>, rels: Vec<JsonValue>) -> JsonValue {
    obj(vec![("id", s(id)), ("attributes", obj(attrs)), ("relationships", JsonValue::Array(rels))])
}

fn group(name: &str) -> JsonValue {
    obj(vec![("type", s("scanlation_group")), ("attributes", obj(vec![("name", s(name))]))])
}

#[test]
fn catalog_chapter_list() {
    let json = obj(vec![(
        "data",
        JsonValue::Array(vec![
            chapter_item(
                "c1",
                vec![
                    ("chapter", s("12.5")),
                    ("title", s("Start")),
                    ("volume", s("2")),
                    ("publishAt", s("2024-01-01T00:00:00+00:00")),
                    ("translatedLanguage", s("de")),
                ],
                vec![s("junk"), obj(vec![("type", s("user"))]), group("First"), group("Second")],
            ),
            chapter_item("c2", vec![], vec![]),
        ]),
    )]);
    let chapters = parse_chapter_list(&json).unwrap();
    assert_eq!(chapters.len(), 2);
    assert_eq!(chapters[0].id, "c1");
    assert_eq!(chapters[0].title, "Start");
    assert_eq!(chapters[0].chapter, NumberText::Text("12.5".to_string()));
    assert_eq!(chapters[0].volume, NumberText::Text("2".to_string()));
    assert_eq!(chapters[0].date_updated, DateText::Stamp("2024-01-01T00:00:00+00:00".to_string()));
    assert_eq!(chapters[0].scanlator, "First");
    assert_eq!(chapters[0].lang, "de");
    assert_eq!(chapters[0].url, "");
    assert_eq!(chapters[1].title, "");
    assert_eq!(chapters[1].chapter, NumberText::Unknown);
    assert_eq!(chapters[1].date_updated, DateText::Unknown);
    assert_eq!(chapters[1].scanlator, "");
    assert_eq!(chapters[1].lang, "en");

    let bad = obj(vec![("data", JsonValue::Array(vec![obj(vec![("id", s("c"))])]))]);
    assert_eq!(parse_chapter_list(&bad), Err(SourceError::ParseError));
}

#[test]
fn catalog_page_list() {
    let json = obj(vec![
        ("baseUrl", s("https://cdn.example")),
        (
            "chapter",
            obj(vec![("hash", s("h")), ("dataSaver", JsonValue::Array(vec![s("1.jpg"), s("2.jpg")]))]),
        ),
    ]);
    assert_eq!(
        parse_page_list(&json).unwrap(),
        vec![
            Page { index: 0, url: "https://cdn.example/data/h/1.jpg".to_string() },
            Page { index: 1, url: "https://cdn.example/data/h/2.jpg".to_string() },
        ]
    );
    let bad = obj(vec![
        ("baseUrl", s("b")),
        ("chapter", obj(vec![("hash", s("h")), ("data", JsonValue::Array(vec![JsonValue::Int(1)]))])),
    ]);
    assert_eq!(parse_page_list(&bad), Err(SourceError::ParseError));
    assert_eq!(parse_page_list(&obj(vec![("baseUrl", s("b"))])), Err(SourceError::ParseError));
}

#[test]
fn mangadex_request_addresses() {
    let md = MangaDex::new();
    assert_eq!(
        md.search_url(Some("naruto x".to_string()), 2, vec![filter(FilterKind::Select, "Status", JsonValue::Int(0))]),
        "https://api.mangadex.org/manga?limit=20&offset=20&title=naruto+x&status[]=ongoing&includes[]=cover_art&includes[]=author&includes[]=artist&contentRating[]=safe&contentRating[]=suggestive&contentRating[]=erotica&order[relevance]=desc"
    );
    assert_eq!(
        md.search_url(None, 1, vec![]),
        "https://api.mangadex.org/manga?limit=20&offset=0&includes[]=cover_art&includes[]=author&includes[]=artist&contentRating[]=safe&contentRating[]=suggestive&contentRating[]=erotica&order[relevance]=desc"
    );
    assert_eq!(
        md.listing_url("Top Rated", 3),
        "https://api.mangadex.org/manga?limit=20&offset=40&includes[]=cover_art&includes[]=author&includes[]=artist&contentRating[]=safe&contentRating[]=suggestive&contentRating[]=erotica&order[rating]=desc"
    );
    assert!(md.listing_url("Whatever", 1).ends_with("&order[latestUploadedChapter]=desc"));
    assert!(md.listing_url("Recently Added", 1).ends_with("&order[createdAt]=desc"));
    assert!(md.listing_url("Most Follows", 1).ends_with("&order[followedCount]=desc"));
    assert_eq!(md.listing_url("Latest Updates", 0).contains("offset=-20"), true);
    assert_eq!(
        md.details_url("k1"),
        "https://api.mangadex.org/manga/k1?includes[]=cover_art&includes[]=author&includes[]=artist"
    );
    assert_eq!(md.chapter_pages_url("c9"), "https://api.mangadex.org/at-home/server/c9");
    assert_eq!(
        md.feed_url("m", 500),
        "https://api.mangadex.org/manga/m/feed?limit=500&offset=500&translatedLanguage[]=en&includes[]=scanlation_group&order[chapter]=desc&contentRating[]=safe&contentRating[]=suggestive&contentRating[]=erotica&contentRating[]=pornographic"
    );
}

fn person(kind: &str, name: &str) -> JsonValue {
    obj(vec![("type", s(kind)), ("attributes", obj(vec![("name", s(name))]))])
}

#[test]
fn listed_entries() {
    let md = MangaDex::new();
    let json = obj(vec![
        (
            "data",
            JsonValue::Array(vec![
                series("a", vec![person("author", "Oda"), person("artist", "Oda"), person("artist", "Someone")]),
                obj(vec![
                    ("id", s("b")),
                    ("attributes", obj(vec![("title", obj(vec![("ja", s("Nihongo"))]))])),
                ]),
                obj(vec![("id", s("c")), ("attributes", obj(vec![]))]),
                series("d", vec![s("bad")]),
                JsonValue::Int(3),
            ]),
        ),
        ("total", JsonValue::Int(2)),
    ]);
    let r = md.parse_manga_list(&json).unwrap();
    assert_eq!(r.entries.len(), 2);
    assert_eq!(r.entries[0].key, "a");
    assert_eq!(r.entries[0].title, "One Piece");
    assert_eq!(r.entries[0].cover, Some("https://uploads.mangadex.org/covers/a/cover.jpg".to_string()));
    assert_eq!(r.entries[0].authors, Some(vec!["Oda".to_string(), "Someone".to_string()]));
    assert_eq!(r.entries[0].status, MangaStatus::Unknown);
    assert_eq!(r.entries[1].key, "b");
    assert_eq!(r.entries[1].title, "Nihongo");
    assert_eq!(r.entries[1].cover, Some(String::new()));
    assert_eq!(r.entries[1].authors, Some(vec![]));
    assert!(!r.has_next_page);
    assert_eq!(md.parse_manga_list(&obj(vec![])), Err(SourceError::ParseError));
}

#[test]
fn detailed_entry() {
    let md = MangaDex::new();
    let m = md
        .parse_manga_details(&obj(vec![("data", series("ignored", vec![person("author", "Oda")]))]), "k7".to_string())
        .unwrap();
    assert_eq!(m.key, "k7");
    assert_eq!(m.title, "One Piece");
    assert_eq!(m.description, None);
    assert_eq!(m.cover, Some("https://uploads.mangadex.org/covers/k7/cover.jpg".to_string()));
    assert_eq!(m.authors, Some(vec!["Oda".to_string()]));
    assert_eq!(m.url, Some("https://mangadex.org/title/k7".to_string()));
    assert_eq!(m.tags, Some(vec!["Action".to_string(), "Comedy".to_string()]));
    assert_eq!(m.status, MangaStatus::Ongoing);
    assert_eq!(m.content_rating, ContentRating::Safe);
    assert_eq!(m.viewer, Viewer::RightToLeft);
    assert_eq!(
        md.parse_manga_details(&obj(vec![("data", obj(vec![]))]), "k".to_string()),
        Err(SourceError::ParseError)
    );
}

#[test]
fn chapter_feed_pages() {
    let md = MangaDex::new();
    let mut feed = ChapterFeed::new("m1".to_string());
    assert_eq!(feed.next_url(), Some(md.feed_url("m1", 0)));
    let page = obj(vec![(
        "data",
        JsonValue::Array(vec![
            chapter_item(
                "c1",
                vec![("chapter", s("3")), ("publishAt", s("2024-05-06T07:08:09+00:00"))],
                vec![group("G1"), group("G2")],
            ),
            chapter_item("c2", vec![("title", s("T"))], vec![]),
        ]),
    )]);
    assert_eq!(feed.absorb(&page), Ok(()));
    assert_eq!(feed.offset, 500);
    assert!(!feed.finished);
    assert_eq!(feed.next_url(), Some(md.feed_url("m1", 500)));
    assert_eq!(feed.chapters.len(), 2);
    let c1 = &feed.chapters[0];
    assert_eq!(c1.key, "c1");
    assert_eq!(c1.chapter_number, NumberText::Text("3".to_string()));
    assert_eq!(c1.volume_number, NumberText::Unknown);
    assert_eq!(
        c1.date_uploaded,
        UploadDate::Text { text: "2024-05-06T07:08:09Z00:00".to_string(), format: DateFormat::IsoUtc }
    );
    assert_eq!(c1.scanlators, Some(vec!["G1".to_string(), "G2".to_string()]));
    assert_eq!(c1.url, Some("https://mangadex.org/chapter/c1".to_string()));
    assert_eq!(feed.chapters[1].title, Some("T".to_string()));
    assert_eq!(feed.chapters[1].scanlators, None);
    assert_eq!(feed.chapters[1].date_uploaded, UploadDate::Unknown);

    let bad = obj(vec![("data", JsonValue::Array(vec![s("x")]))]);
    assert_eq!(feed.absorb(&bad), Err(SourceError::ParseError));
    assert_eq!(feed.chapters.len(), 2);
    assert_eq!(feed.offset, 500);

    assert_eq!(feed.absorb(&obj(vec![("data", JsonValue::Array(vec![]))])), Ok(()));
    assert!(feed.finished);
    assert_eq!(feed.next_url(), None);
    assert_eq!(feed.chapters.len(), 2);
}

#[test]
fn chapter_link_round_trip() {
    let md = MangaDex::new();
    let page = md
        .parse_feed_page(&obj(vec![("data", JsonValue::Array(vec![chapter_item("zz9", vec![], vec![])]))]))
        .unwrap()
        .unwrap();
    assert_eq!(
        parse_incoming_url(page[0].url.clone().unwrap()),
        Ok(DeepLink { manga: None, chapter: Some("zz9".to_string()) })
    );
}

#[test]
fn image_server_pages() {
    let md = MangaDex::new();
    let json = obj(vec![
        ("baseUrl", s("https://b")),
        (
            "chapter",
            obj(vec![("hash", s("h")), ("data", JsonValue::Array(vec![s("1.png"), JsonValue::Null, s("3.png")]))]),
        ),
    ]);
    assert_eq!(
        md.parse_chapter_pages(&json).unwrap(),
        vec![
            Page { index: 0, url: "https://b/data/h/1.png".to_string() },
            Page { index: 2, url: "https://b/data/h/3.png".to_string() },
        ]
    );
    let saver_only = obj(vec![
        ("baseUrl", s("https://b")),
        ("chapter", obj(vec![("hash", s("h")), ("dataSaver", JsonValue::Array(vec![]))])),
    ]);
    assert_eq!(md.parse_chapter_pages(&saver_only), Err(SourceError::ParseError));
}

#[test]
fn page_offsets_that_fit() {
    assert!(MangaDex::page_offset_fits(1));
    assert!(MangaDex::page_offset_fits(0));
    assert!(MangaDex::page_offset_fits(107374183));
    assert!(!MangaDex::page_offset_fits(107374184));
    assert!(MangaDex::page_offset_fits(-107374181));
    assert!(!MangaDex::page_offset_fits(-107374182));
    assert!(!MangaDex::page_offset_fits(i32::MAX));
}
