use aidoku_sources::hentainexus::{
    apply_details, build_url, combine_authors, gallery_chapter, gallery_description,
    gallery_manga, handle_deep_link, image_pages, joined_query, query_parts, read_url,
    reader_payload, strip_tag_count, view_key, view_url, DetailsTable, MetaCell, ReaderPage,
};
use aidoku_sources::manga::{manga_with, ContentRating, Filter, MangaStatus, Viewer};

fn st(s: &str) -> String {
    s.to_string()
}

#[test]
fn query_parts_from_text_filters() {
    let filters = vec![
        Filter::Text { id: st("tag"), value: st("big boobs, -yaoi ,- spaced out,solo,-") },
        Filter::Sort { index: 1 },
        Filter::Text { id: st("artist"), value: st("") },
    ];
    let parts = query_parts(Some(st("query")), &filters);
    assert_eq!(
        parts,
        vec![st("tag:\"big boobs\""), st("-tag:yaoi"), st("-tag:\"spaced out\""), st("tag:solo"), st("query")]
    );
    assert!(query_parts(Some(st("")), &Vec::new()).is_empty());
    assert_eq!(joined_query(&parts[..2].to_vec()), Some(st("tag:\"big boobs\" -tag:yaoi")));
    assert_eq!(joined_query(&Vec::new()), None);
}

#[test]
fn listing_urls() {
    assert_eq!(build_url(None, 1), "https://hentainexus.com");
    assert_eq!(build_url(None, 3), "https://hentainexus.com/page/3");
    assert_eq!(build_url(Some("a%20b"), 1), "https://hentainexus.com?q=a%20b");
    assert_eq!(build_url(Some("x"), 2), "https://hentainexus.com/page/2?q=x");
    assert_eq!(view_url("42"), "https://hentainexus.com/view/42");
    assert_eq!(read_url("42"), "https://hentainexus.com/read/42");
}

#[test]
fn card_links() {
    assert_eq!(view_key("https://hentainexus.com/view/123"), Some(st("123")));
    assert_eq!(view_key("https://hentainexus.com/view/123/extra"), Some(st("123")));
    assert_eq!(view_key("https://hentainexus.com/view/"), Some(st("")));
    assert_eq!(view_key("https://other.com/view/1"), None);
    assert_eq!(view_key("https://hentainexus.com/read/1"), None);
    let m = gallery_manga(st("https://hentainexus.com/view/9"), st("T"), Some(st("c"))).unwrap();
    assert_eq!(m.key, "9");
    assert_eq!(m.url.as_deref(), Some("https://hentainexus.com/view/9"));
    assert_eq!(m.content_rating, ContentRating::NSFW);
    assert_eq!(m.viewer, Viewer::RightToLeft);
    assert!(gallery_manga(st("https://x/view/9"), st("T"), None).is_none());
}

#[test]
fn tag_counts_are_removed() {
    assert_eq!(strip_tag_count(" big breasts (12,345) "), "big breasts");
    assert_eq!(strip_tag_count("tag ()"), "tag");
    assert_eq!(strip_tag_count("tag (abc)"), "tag (abc)");
    assert_eq!(strip_tag_count("tag"), "tag");
    assert_eq!(strip_tag_count("no paren)"), "no paren)");
    assert_eq!(strip_tag_count("a (1) (2)"), "a (1)");
}

#[test]
fn authors_and_artists_are_combined() {
    let r = combine_authors(&vec![st("A"), st("B")], &vec![st("B"), st("C"), st("C")]);
    assert_eq!(r, vec![st("A"), st("B"), st("C")]);
}

#[test]
fn description_lines() {
    let cells = vec![
        Some(MetaCell { text: Some(st("Circ")), link_text: None }),
        None,
        Some(MetaCell { text: Some(st("")), link_text: Some(st("Mag")) }),
        Some(MetaCell { text: None, link_text: None }),
        None,
        Some(MetaCell { text: Some(st("20")), link_text: Some(st("x")) }),
    ];
    assert_eq!(
        gallery_description(&cells, Some(st("About."))),
        Some(st("Circle: Circ\nMagazine: Mag\nPages: 20\n\nAbout."))
    );
    assert_eq!(gallery_description(&Vec::new(), None), None);
    assert_eq!(gallery_description(&Vec::new(), Some(st("d"))), Some(st("\nd")));
}

#[test]
fn details_are_applied() {
    let mut m = manga_with(st("7"), st("old"));
    m.url = Some(st("u"));
    let table = DetailsTable {
        artists: vec![st("Art")],
        authors: vec![],
        tags: Some(vec![st("tag (1)"), st("other")]),
        meta: vec![],
        description: None,
    };
    let m = apply_details(m, Some(st("New")), None, Some(table));
    assert_eq!(m.title, "New");
    assert_eq!(m.key, "7");
    assert_eq!(m.url.as_deref(), Some("u"));
    assert_eq!(m.authors, Some(vec![st("Art")]));
    assert_eq!(m.artists, Some(vec![st("Art")]));
    assert_eq!(m.tags, Some(vec![st("tag"), st("other")]));
    assert_eq!(m.description, None);
    assert_eq!(m.status, MangaStatus::Completed);
    let c = gallery_chapter("7", Some(5));
    assert_eq!(c.title.as_deref(), Some("Chapter"));
    assert_eq!(c.url.as_deref(), Some("https://hentainexus.com/read/7"));
    assert_eq!(c.number, Some(1));
}

#[test]
fn reader_payload_extraction() {
    assert_eq!(reader_payload("var x = 1;"), None);
    assert_eq!(reader_payload("initReader(\"QUJD\", 1, 2);"), Some(st("QUJD")));
    assert_eq!(reader_payload("  initReader(\"QUJD"), Some(st("QUJD")));
    assert_eq!(reader_payload("initReader('x')"), None);
}

#[test]
fn image_entries_are_kept() {
    let items = vec![
        ReaderPage { entry_type: st("image"), image: Some(st("a")) },
        ReaderPage { entry_type: st("ad"), image: Some(st("b")) },
        ReaderPage { entry_type: st("image"), image: None },
        ReaderPage { entry_type: st("image"), image: Some(st("c")) },
    ];
    assert_eq!(image_pages(&items), vec![st("a"), st("c")]);
}

#[test]
fn gallery_deep_links() {
    assert_eq!(handle_deep_link("https://hentainexus.com/view/123"), Some(st("123")));
    assert_eq!(handle_deep_link("https://hentainexus.com/view/123/x"), Some(st("123")));
    assert_eq!(handle_deep_link("https://hentainexus.com/view/"), None);
    assert_eq!(handle_deep_link("https://hentainexus.com/read/1"), None);
    assert_eq!(handle_deep_link(&view_url("55")), Some(st("55")));
    assert_eq!(view_key(&view_url("55")), Some(st("55")));
}
