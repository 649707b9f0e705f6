//! Reading the values taken from Webtoons pages into catalog records.

use vstd::prelude::*;
use crate::common::{ContentRating, MangaStatus, Viewer};
use crate::record::{Chapter, DateText, Manga, MangaPageResult, NumberText, Page};
use crate::text::{contains_str, has_substring, split_char, split_char_exec, trim, trim_exec, views};
use crate::webtoons::helper::{site_address, site_path, site_path_exec};

verus! {

/// What a series card of a listing page shows: the link it points to (empty when
/// missing), its title, its cover image and its author.
pub struct ListingCard {
    pub href: String,
    pub title: String,
    pub cover: String,
    pub author: String,
}

/// What the page of a series shows: title, cover image, author, summary, the
/// comma-separated genres and the publication day note.
pub struct SeriesPage {
    pub title: String,
    pub cover: String,
    pub author: String,
    pub summary: String,
    pub genres: String,
    pub day_info: String,
}

/// What a row of an episode list shows: its link, title and date, the markup of
/// its lock and fast-pass badges (empty when absent) and its unlock date note.
pub struct EpisodeRow {
    pub href: String,
    pub title: String,
    pub date: String,
    pub locked_markup: String,
    pub fast_pass_markup: String,
    pub unlock_date: String,
}

/// The image attributes of an entry of a chapter viewer: its `data-url` when it
/// has one, and its `src`.
pub struct ViewerImage {
    pub data_url: Option<String>,
    pub src: String,
}

/// The series record a listing card describes.
pub open spec fn describes_card(card: ListingCard, m: Manga) -> bool {
    let id = site_path(card.href@);
    &&& m.id@ == id
    &&& m.cover@ == card.cover@
    &&& m.title@ == card.title@
    &&& m.author@ == card.author@
    &&& m.artist@ == Seq::<char>::empty()
    &&& m.description@ == Seq::<char>::empty()
    &&& m.url@ == site_address(id)
    &&& m.categories@.len() == 0
    &&& m.status == MangaStatus::Unknown
    &&& m.nsfw == ContentRating::Safe
    &&& m.viewer == Viewer::Webtoon
}

fn site_url(id: &String) -> (url: String)
    ensures
        url@ == site_address(id@),
{
    let mut url = String::new();
    url.append("https://www.webtoons.com/");
    url.append(id.as_str());
    url
}

/// Reads the cards of a listing page, in order; a listing page never has more.
pub fn parse_manga_listing(cards: Vec<ListingCard>, _page: i32) -> (res: MangaPageResult)
    ensures
        res.manga@.len() == cards@.len(),
        forall|i: int| 0 <= i < cards@.len() ==> describes_card(cards@[i], #[trigger] res.manga@[i]),
        !res.has_more,
{
    let mut manga_list: Vec<Manga> = Vec::new();
    let mut i: usize = 0;
    while i < cards.len()
        invariant
            i <= cards@.len(),
            manga_list@.len() == i,
            forall|k: int| 0 <= k < i ==> describes_card(cards@[k], #[trigger] manga_list@[k]),
        decreases cards.len() - i,
    {
        let card = &cards[i];
        let id = site_path_exec(card.href.as_str());
        let url = site_url(&id);
        manga_list.push(
            Manga {
                id,
                cover: card.cover.clone(),
                title: card.title.clone(),
                author: card.author.clone(),
                artist: String::new(),
                description: String::new(),
                url,
                categories: Vec::new(),
                status: MangaStatus::Unknown,
                nsfw: ContentRating::Safe,
                viewer: Viewer::Webtoon,
            },
        );
        i = i + 1;
    }
    MangaPageResult { manga: manga_list, has_more: false }
}

/// The non-empty pieces among `pieces` once trimmed, in order.
pub open spec fn trimmed_nonempty(pieces: Seq<Seq<char>>) -> Seq<Seq<char>>
    decreases pieces.len(),
{
    if pieces.len() == 0 {
        Seq::empty()
    } else if trim(pieces.last()).len() > 0 {
        trimmed_nonempty(pieces.drop_last()).push(trim(pieces.last()))
    } else {
        trimmed_nonempty(pieces.drop_last())
    }
}

/// The genres listed in a comma-separated text.
pub open spec fn genre_list(text: Seq<char>) -> Seq<Seq<char>> {
    trimmed_nonempty(split_char(text, ','))
}

/// The genres listed in a comma-separated text: each piece trimmed, empty
/// pieces dropped.
pub fn genre_list_exec(text: &str) -> (res: Vec<String>)
    ensures
        views(res@) == genre_list(text@),
{
    let pieces = split_char_exec(text, ',');
    let ghost ps = views(pieces@);
    let mut res: Vec<String> = Vec::new();
    let mut i: usize = 0;
    while i < pieces.len()
        invariant
            i <= pieces@.len(),
            ps == views(pieces@),
            views(res@) == trimmed_nonempty(ps.take(i as int)),
        decreases pieces.len() - i,
    {
        assert(ps.take(i + 1).drop_last() =~= ps.take(i as int));
        assert(ps.take(i + 1).last() == pieces@[i as int]@);
        let t = trim_exec(pieces[i].as_str());
        if t.unicode_len() > 0 {
            let ghost prev = res@;
            res.push(t);
            assert(views(res@) =~= views(prev).push(t@));
        }
        i = i + 1;
    }
    assert(ps.take(ps.len() as int) =~= ps);
    res
}

/// The series record the page of the series `id` describes.
pub open spec fn describes_series(page: SeriesPage, id: Seq<char>, m: Manga) -> bool {
    &&& m.id@ == id
    &&& m.cover@ == page.cover@
    &&& m.title@ == page.title@
    &&& m.author@ == page.author@
    &&& m.artist@ == Seq::<char>::empty()
    &&& m.description@ == page.summary@
    &&& m.url@ == site_address(id)
    &&& views(m.categories@) == genre_list(page.genres@)
    &&& m.status == if has_substring(page.day_info@, "COMPLETED"@) {
        MangaStatus::Completed
    } else {
        MangaStatus::Ongoing
    }
    &&& m.nsfw == ContentRating::Safe
    &&& m.viewer == Viewer::Webtoon
}

/// Reads the page of the series `id`.
pub fn parse_manga_details(page: SeriesPage, id: String) -> (m: Manga)
    ensures
        describes_series(page, id@, m),
{
    let categories = genre_list_exec(page.genres.as_str());
    let status = if contains_str(page.day_info.as_str(), "COMPLETED") {
        MangaStatus::Completed
    } else {
        MangaStatus::Ongoing
    };
    let url = site_url(&id);
    Manga {
        id,
        cover: page.cover,
        title: page.title,
        author: page.author,
        artist: String::new(),
        description: page.summary,
        url,
        categories,
        status,
        nsfw: ContentRating::Safe,
        viewer: Viewer::Webtoon,
    }
}

/// The access badge of an episode: fast pass, locked, or free.
pub open spec fn access_badge(locked_markup: Seq<char>, fast_pass_markup: Seq<char>) -> Seq<char> {
    if fast_pass_markup.len() > 0 {
        "🔒 Fast Pass"@
    } else if locked_markup.len() > 0 {
        "🔒 Locked"@
    } else {
        "Free"@
    }
}

/// The access note of an episode: its badge, and when it has one, its unlock date.
pub open spec fn access_note(row: EpisodeRow) -> Seq<char> {
    access_badge(row.locked_markup@, row.fast_pass_markup@) + if row.unlock_date@.len() > 0 {
        " • Unlocks "@ + row.unlock_date@
    } else {
        Seq::empty()
    }
}

/// The chapter record the row at `index` of an episode list of `count` rows
/// describes: episodes are numbered from the bottom of the list, the newest
/// (first) having the highest number.
pub open spec fn describes_episode(row: EpisodeRow, index: int, count: int, c: Chapter) -> bool {
    &&& c.id@ == site_path(row.href@)
    &&& c.title@ == row.title@
    &&& c.volume == NumberText::Unknown
    &&& c.chapter == NumberText::Count((count - index) as u64)
    &&& c.date_updated matches DateText::Relative(d) && d@ == row.date@
    &&& c.scanlator@ == access_note(row)
    &&& c.url@ == Seq::<char>::empty()
    &&& c.lang@ == "en"@
}

fn access_note_exec(row: &EpisodeRow) -> (note: String)
    ensures
        note@ == access_note(*row),
{
    let mut note = String::new();
    if row.fast_pass_markup.unicode_len() > 0 {
        note.append("🔒 Fast Pass");
    } else if row.locked_markup.unicode_len() > 0 {
        note.append("🔒 Locked");
    } else {
        note.append("Free");
    }
    let ghost badge = note@;
    if row.unlock_date.unicode_len() > 0 {
        note.append(" • Unlocks ");
        note.append(row.unlock_date.as_str());
    }
    assert(note@ =~= access_note(*row));
    note
}

/// Reads the rows of an episode list, in order.
pub fn parse_chapter_list(rows: Vec<EpisodeRow>) -> (chapters: Vec<Chapter>)
    ensures
        chapters@.len() == rows@.len(),
        forall|i: int|
            0 <= i < rows@.len() ==> describes_episode(
                rows@[i],
                i,
                rows@.len() as int,
                #[trigger] chapters@[i],
            ),
{
    let mut chapters: Vec<Chapter> = Vec::new();
    let n = rows.len();
    let mut i: usize = 0;
    while i < n
        invariant
            i <= n == rows@.len(),
            chapters@.len() == i,
            forall|k: int|
                0 <= k < i ==> describes_episode(rows@[k], k, n as int, #[trigger] chapters@[k]),
        decreases n - i,
    {
        let row = &rows[i];
        let id = site_path_exec(row.href.as_str());
        let scanlator = access_note_exec(row);
        chapters.push(
            Chapter {
                id,
                title: row.title.clone(),
                volume: NumberText::Unknown,
                chapter: NumberText::Count((n - i) as u64),
                date_updated: DateText::Relative(row.date.clone()),
                scanlator,
                url: String::new(),
                lang: String::from_str("en"),
            },
        );
        i = i + 1;
    }
    chapters
}

/// The image address of a viewer entry: its `data-url`, or else its `src`.
pub open spec fn image_of(img: ViewerImage) -> Seq<char> {
    match img.data_url {
        Some(u) => u@,
        None => img.src@,
    }
}

/// The viewer entries with a non-empty image address, with their positions, in order.
pub open spec fn shown_images(images: Seq<ViewerImage>) -> Seq<(int, Seq<char>)>
    decreases images.len(),
{
    if images.len() == 0 {
        Seq::empty()
    } else if image_of(images.last()).len() > 0 {
        shown_images(images.drop_last()).push((images.len() - 1, image_of(images.last())))
    } else {
        shown_images(images.drop_last())
    }
}

/// Reads the entries of a chapter viewer: one page for each entry with an image
/// address, at its position among the entries.
pub fn parse_page_list(images: Vec<ViewerImage>) -> (pages: Vec<Page>)
    ensures
        pages@.len() == shown_images(images@).len(),
        forall|i: int|
            0 <= i < pages@.len() ==> (#[trigger] pages@[i]).index == shown_images(images@)[i].0 as i32
                && pages@[i].url@ == shown_images(images@)[i].1,
{
    let mut pages: Vec<Page> = Vec::new();
    let mut i: usize = 0;
    while i < images.len()
        invariant
            i <= images@.len(),
            pages@.len() == shown_images(images@.take(i as int)).len(),
            forall|k: int|
                0 <= k < pages@.len() ==> (#[trigger] pages@[k]).index == shown_images(
                    images@.take(i as int),
                )[k].0 as i32 && pages@[k].url@ == shown_images(images@.take(i as int))[k].1,
        decreases images.len() - i,
    {
        let img = &images[i];
        assert(images@.take(i + 1).drop_last() =~= images@.take(i as int));
        assert(images@.take(i + 1).last() == *img);
        let url = match &img.data_url {
            Some(u) => u.clone(),
            None => img.src.clone(),
        };
        if url.unicode_len() > 0 {
            pages.push(Page { index: #[verifier::truncate] (i as i32), url });
        }
        i = i + 1;
    }
    assert(images@.take(images@.len() as int) =~= images@);
    pages
}

} // verus!
