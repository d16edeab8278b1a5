use aidoku_sources::manga::{ContentRating, Filter, MangaStatus, UpdateStrategy, Viewer};
use aidoku_sources::schale::{
    books_page, books_query, books_url, detail_url, filter_id_to_namespace, handle_deep_link,
    has_next_page, image_set_parts, images_url, join_terms, language_term, listing_sort,
    manga_update, page_urls, shorten_title_if, split_key, KeyError, PageError,
};
use aidoku_sources::schale_models::{
    append_section, capitalize_each, manga_from_entry, select_quality, shorten_title, Books,
    DataKey, Entry, ImageData, ImagePath, ImagesInfo, MangaDetail, Tag, Thumbnail, Thumbnails,
};
use aidoku_sources::schale_settings::{get_clearance, get_quality, get_remove_brackets};

fn st(s: &str) -> String {
    s.to_string()
}

fn detail() -> MangaDetail {
    let tags = [
        ("big breasts", 0),
        ("john doe", 1),
        ("the circle", 2),
        ("anonymous", 7),
        ("uploader one", 7),
        ("male tag", 8),
        ("female tag", 9),
        ("misc", 12),
        ("weird", 11),
    ];
    MangaDetail {
        id: 12345,
        key: st("abc123"),
        title: st("[Circle (Artist)] My Title (English) {tag}"),
        created_at: 100,
        updated_at: Some(200),
        thumbnails: Thumbnails {
            base: st("https://t.example/"),
            main: Thumbnail { path: st("main.jpg") },
            entries: vec![
                Thumbnail { path: st("1") },
                Thumbnail { path: st("2") },
                Thumbnail { path: st("3") },
            ],
        },
        tags: tags.iter().map(|(n, ns)| Tag { name: st(n), namespace: *ns }).collect(),
    }
}

#[test]
fn manga_key_and_date() {
    let d = detail();
    assert_eq!(d.manga_key(), "12345/abc123");
    assert_eq!(d.date(), 200);
    let mut d2 = detail();
    d2.updated_at = None;
    assert_eq!(d2.date(), 100);
}

#[test]
fn to_manga_sorts_tags_and_builds_description() {
    let m = detail().to_manga(false);
    assert_eq!(m.key, "12345/abc123");
    assert_eq!(m.title, "[Circle (Artist)] My Title (English) {tag}");
    assert_eq!(m.cover.as_deref(), Some("https://t.example/main.jpg"));
    assert_eq!(m.url.as_deref(), Some("https://schale.network/g/12345/abc123"));
    assert_eq!(m.authors, Some(vec![st("The Circle")]));
    assert_eq!(m.artists, Some(vec![st("John Doe")]));
    assert_eq!(
        m.tags,
        Some(vec![
            st("John Doe"),
            st("The Circle"),
            st("Big Breasts"),
            st("Female Tag ♀"),
            st("Male Tag ♂"),
            st("Misc"),
        ])
    );
    assert_eq!(
        m.description.as_deref(),
        Some("Circles: The Circle\nUploaders: Uploader One\n\nPages: 3")
    );
    assert_eq!(m.status, MangaStatus::Completed);
    assert_eq!(m.content_rating, ContentRating::NSFW);
    assert_eq!(m.viewer, Viewer::RightToLeft);
    assert_eq!(m.update_strategy, UpdateStrategy::Never);
    assert_eq!(detail().to_manga(true).title, "My Title");
}

#[test]
fn to_manga_without_tags() {
    let mut d = detail();
    d.tags = Vec::new();
    d.thumbnails.entries = Vec::new();
    let m = d.to_manga(false);
    assert_eq!(m.authors, None);
    assert_eq!(m.artists, None);
    assert_eq!(m.tags, None);
    assert_eq!(m.description.as_deref(), Some("Pages: 0"));
}

#[test]
fn authors_fall_back_to_artists() {
    let mut d = detail();
    d.tags.retain(|t| t.namespace != 2);
    assert_eq!(d.to_manga(false).authors, Some(vec![st("John Doe")]));
}

#[test]
fn shorten_title_drops_brackets_and_squeezes_spaces() {
    assert_eq!(shorten_title("[A] Title (B) {C}  Two"), "Title Two");
    assert_eq!(shorten_title("Keep ] closing ) stray"), "Keep closing stray");
    assert_eq!(shorten_title("((nested) still) out"), "out");
    assert_eq!(shorten_title(""), "");
    assert_eq!(shorten_title_if("  [x]  y  "), "y");
}

#[test]
fn capitalize_each_word() {
    assert_eq!(capitalize_each("big breasts"), "Big Breasts");
    assert_eq!(capitalize_each("a  b"), "A  B");
    assert_eq!(capitalize_each("ßtraße"), "SStraße");
    assert_eq!(capitalize_each(""), "");
}

#[test]
fn append_section_writes_line() {
    let mut d = st("x\n");
    append_section(&mut d, "Circles", &[st("a"), st("b")]);
    assert_eq!(d, "x\nCircles: a, b\n");
    append_section(&mut d, "Empty", &[]);
    assert_eq!(d, "x\nCircles: a, b\n");
}

fn key(id: Option<i32>) -> DataKey {
    DataKey { id, key: id.map(|i| format!("k{}", i)) }
}

#[test]
fn select_quality_falls_back() {
    let data = ImageData {
        original: key(Some(0)),
        res780: Some(key(Some(780))),
        res980: None,
        res1280: Some(key(None)),
        res1600: Some(key(Some(1600))),
    };
    let (k, l) = select_quality(&data, "1280");
    assert_eq!((k.id, l), (Some(1600), "1600"));
    let (k, l) = select_quality(&data, "980");
    assert_eq!((k.id, l), (Some(1600), "1600"));
    let (k, l) = select_quality(&data, "780");
    assert_eq!((k.id, l), (Some(780), "780"));
    let (k, l) = select_quality(&data, "0");
    assert_eq!((k.id, l), (Some(0), "0"));
    let (k, l) = select_quality(&data, "other");
    assert_eq!((k.id, l), (Some(0), "0"));
    let none = ImageData { original: key(Some(5)), res780: None, res980: None, res1280: None, res1600: None };
    let (k, l) = select_quality(&none, "1600");
    assert_eq!((k.id, l), (Some(5), "0"));
}

#[test]
fn split_key_at_first_slash() {
    assert_eq!(split_key("12345/abc123"), Ok((st("12345"), st("abc123"))));
    assert_eq!(split_key("1/a/b"), Ok((st("1"), st("a/b"))));
    assert_eq!(split_key("nokey"), Err(KeyError::MissingKey));
    assert_eq!(split_key(&detail().manga_key()), Ok((st("12345"), st("abc123"))));
}

#[test]
fn book_deep_links() {
    assert_eq!(handle_deep_link("https://schale.network/g/123/abc"), Some(st("123/abc")));
    assert_eq!(handle_deep_link("https://schale.network/g/123/abc/read/1"), Some(st("123/abc")));
    assert_eq!(handle_deep_link("https://schale.network/g/123"), None);
    assert_eq!(handle_deep_link("https://schale.network/g//abc"), None);
    assert_eq!(handle_deep_link("https://schale.network/browse"), None);
    let m = detail().to_manga(false);
    assert_eq!(handle_deep_link(m.url.as_deref().unwrap()), Some(m.key));
}

#[test]
fn search_query_from_filters() {
    let filters = vec![
        Filter::Sort { index: 3 },
        Filter::MultiSelect { id: st("cat"), included: vec![st("Manga"), st("Illustration"), st("x")], excluded: vec![] },
        Filter::Text { id: st("artist"), value: st(" foo , -bar,, ") },
        Filter::Text { id: st("unknown"), value: st("zzz") },
        Filter::Text { id: st("parody"), value: st("") },
        Filter::Text { id: st("circle"), value: st("-") },
    ];
    let q = books_query(Some(st("hello")), &filters);
    assert_eq!(q.sort, 8);
    assert_eq!(q.categories, 10);
    assert_eq!(q.search, vec![st("hello"), st("artist:\"^foo$\"")]);
    assert_eq!(q.exclude, vec![st("artist:\"^bar$\""), st("circle:\"^$\"")]);
    let q = books_query(Some(st("")), &Vec::new());
    assert_eq!(q.sort, 4);
    assert_eq!(q.categories, 0);
    assert!(q.search.is_empty());
    assert_eq!(join_terms(&vec![st("a"), st("b")]), Some(st("a b")));
    assert_eq!(join_terms(&Vec::new()), None);
}

#[test]
fn sort_and_namespace_tables() {
    assert_eq!(listing_sort("most-viewed"), 8);
    assert_eq!(listing_sort("most-favorited"), 9);
    assert_eq!(listing_sort("recently-posted"), 4);
    assert_eq!(listing_sort("x"), 4);
    assert_eq!(filter_id_to_namespace("cosplayer"), Some("cosplayer"));
    assert_eq!(filter_id_to_namespace("tag"), None);
}

#[test]
fn books_request() {
    assert_eq!(
        books_url(2, 4, Some("a%20b"), None, 10, Some("lang")),
        "https://api.schale.network/books?page=2&sort=4&limit=25&s=a%20b&cat=10&s=lang"
    );
    assert_eq!(books_url(1, 9, None, Some("x"), 0, None), "https://api.schale.network/books?page=1&sort=9&limit=25&exclude=x");
    assert_eq!(language_term(Some(st("English"))), Some(st("language:\"^english$\"")));
    assert_eq!(language_term(Some(st("All"))), None);
    assert_eq!(language_term(Some(st(""))), None);
    assert_eq!(language_term(None), None);
}

#[test]
fn next_page_arithmetic() {
    assert!(has_next_page(1, 25, 26));
    assert!(!has_next_page(2, 25, 50));
    assert!(!has_next_page(i32::MAX, i32::MAX, i32::MAX));
}

#[test]
fn list_page_entries() {
    let books = Books {
        entries: vec![
            Entry { id: 1, key: st("a"), title: st("[X] One"), thumbnail: Thumbnail { path: st("p1") } },
            Entry { id: 2, key: st("b"), title: st("Two"), thumbnail: Thumbnail { path: st("p2") } },
        ],
        total: 30,
        limit: 25,
        page: 1,
    };
    let (ms, next) = books_page(books, true);
    assert!(next);
    assert_eq!(ms.len(), 2);
    assert_eq!(ms[0].key, "1/a");
    assert_eq!(ms[0].title, "One");
    assert_eq!(ms[1].url.as_deref(), Some("https://niyaniya.moe/g/2/b"));
    let m = manga_from_entry(Entry { id: -3, key: st("z"), title: st("T"), thumbnail: Thumbnail { path: st("c") } });
    assert_eq!(m.key, "-3/z");
    assert_eq!(m.cover.as_deref(), Some("c"));
    assert_eq!(m.viewer, Viewer::Unknown);
}

#[test]
fn update_and_pages() {
    let d = detail();
    let base = aidoku_sources::manga::manga_with(st("12345/abc123"), st("old"));
    let (m, chapters) = manga_update(base, &d, "12345", "abc123", false, true, false);
    assert_eq!(m.title, "old");
    let cs = chapters.unwrap();
    assert_eq!(cs.len(), 1);
    assert_eq!(cs[0].url.as_deref(), Some("https://schale.network/g/12345/abc123"));
    assert_eq!(cs[0].date_uploaded, Some(200));
    assert_eq!(cs[0].number, Some(1));
    let base = aidoku_sources::manga::manga_with(st("12345/abc123"), st("old"));
    let (m, chapters) = manga_update(base, &d, "12345", "abc123", true, false, true);
    assert_eq!(m.title, "My Title");
    assert!(chapters.is_none());
    assert_eq!(detail_url("1", "k"), "https://api.schale.network/books/detail/1/k");
    assert_eq!(image_set_parts(&key(Some(7))), Ok((7, st("k7"))));
    assert_eq!(image_set_parts(&DataKey { id: None, key: Some(st("x")) }), Err(PageError::MissingImageId));
    assert_eq!(image_set_parts(&DataKey { id: Some(1), key: None }), Err(PageError::MissingImageKey));
    assert_eq!(
        images_url("1", "k", 7, "k7", "1280", Some(st("tok"))),
        "https://api.schale.network/books/data/1/k/7/k7/1280?crt=tok"
    );
    let info = ImagesInfo { base: st("https://i/"), entries: vec![ImagePath { path: st("a.jpg") }] };
    assert_eq!(page_urls(&info, "1280"), vec![st("https://i/a.jpg?w=1280")]);
    assert_eq!(page_urls(&info, "0"), vec![st("https://i/a.jpg")]);
}

#[test]
fn settings_defaults() {
    assert_eq!(get_quality(None), "1280");
    assert_eq!(get_quality(Some(st("780"))), "780");
    assert_eq!(get_clearance(Some(st(""))), None);
    assert_eq!(get_clearance(Some(st("t"))), Some(st("t")));
    assert!(get_remove_brackets(Some(true)));
    assert!(!get_remove_brackets(None));
}

#[test]
fn page_urls_without_width() {
    let info = ImagesInfo { base: st("b/"), entries: vec![ImagePath { path: st("p") }] };
    assert_eq!(page_urls(&info, ""), vec![st("b/p")]);
}

#[test]
fn language_term_format() {
    assert_eq!(aidoku_sources::schale::language_term_for("japanese"), "language:\"^japanese$\"");
    assert_eq!(language_term(Some(st("ÉNGLISH"))), Some(st("language:\"^énglish$\"")));
}

#[test]
fn shorten_title_is_trimmed_and_idempotent() {
    for t in ["  [A]  b  (c) d  ", "x", "", "{ } ( ) [ ]", "\u{3000}q\u{a0}r "] {
        let r = shorten_title(t);
        assert_eq!(r.trim(), r);
        assert_eq!(shorten_title(&r), r);
    }
}
