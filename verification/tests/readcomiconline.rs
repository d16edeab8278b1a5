use aidoku_sources::manga::{manga_with, MangaStatus, Viewer};
use aidoku_sources::readcomiconline::{comic_details, ComicInfo};
use aidoku_sources::manga::Filter;
use aidoku_sources::readcomiconline::{
    add_links, advanced_search_params, chapter_pages_url, comic_chapter, comic_entry,
    comic_list_target, comic_list_url, decrypt_script, genre_id, handle_deep_link, listing_url,
    site_url, update_entry, ListKind,
};

fn st(s: &str) -> String {
    s.to_string()
}

#[test]
fn genre_ids() {
    assert_eq!(genre_id("Action"), "1");
    assert_eq!(genre_id("Movies & TV"), "47");
    assert_eq!(genre_id("Zombies"), "36");
    assert_eq!(genre_id("Unknown"), "");
}

#[test]
fn advanced_search() {
    let filters = vec![
        Filter::Select { id: st("status"), value: st("Completed") },
        Filter::MultiSelect { id: st("genre"), included: vec![st("Action"), st("Nope"), st("War")], excluded: vec![st("Horror")] },
        Filter::Text { id: st("author"), value: st("x") },
    ];
    let ps = advanced_search_params("batman", 2, &filters);
    let pairs: Vec<(String, String)> = ps.iter().map(|p| (p.name.clone(), p.value.clone())).collect();
    assert_eq!(
        pairs,
        vec![
            (st("page"), st("2")),
            (st("comicName"), st("batman")),
            (st("status"), st("Completed")),
            (st("ig"), st("1,,26")),
            (st("eg"), st("15")),
        ]
    );
}

#[test]
fn browse_targets() {
    let t = comic_list_target(&Vec::new());
    assert_eq!(t.kind, ListKind::ComicList);
    assert_eq!(t.sort, "MostPopular");
    assert_eq!(comic_list_url(&t, "", 1), "https://readcomiconline.li/ComicList/MostPopular?page=1");
    let filters = vec![
        Filter::Text { id: st("author"), value: st("Grant Morrison") },
        Filter::Sort { index: 2 },
    ];
    let t = comic_list_target(&filters);
    assert_eq!(t.kind, ListKind::Writer);
    assert_eq!(t.name, "Grant-Morrison");
    assert_eq!(t.sort, "LatestUpdate");
    assert_eq!(comic_list_url(&t, "Grant-Morrison", 3), "https://readcomiconline.li/Writer/Grant-Morrison/LatestUpdate?page=3");
    let filters = vec![
        Filter::Text { id: st("artist"), value: st("A B") },
        Filter::MultiSelect { id: st("g"), included: vec![st("Movies & TV")], excluded: vec![] },
        Filter::Sort { index: 0 },
    ];
    let t = comic_list_target(&filters);
    assert_eq!(t.kind, ListKind::Genre);
    assert_eq!(t.name, "Movies-TV");
    assert_eq!(t.sort, "");
    assert_eq!(comic_list_url(&t, "", 1), "https://readcomiconline.li/Genre/Movies-TV/?page=1");
}

#[test]
fn requests() {
    assert_eq!(site_url("/Comic/X"), "https://readcomiconline.li/Comic/X");
    assert_eq!(listing_url("ComicList/Newest", 2), "https://readcomiconline.li/ComicList/Newest?page=2");
    assert_eq!(chapter_pages_url("/Comic/X/Issue-1?id=5"), "https://readcomiconline.li/Comic/X/Issue-1?id=5&s=&quality=hq&readType=1");
}

#[test]
fn listing_entries() {
    let m = comic_entry(st("https://readcomiconline.li/Comic/X"), None, Some(st("c"))).unwrap();
    assert_eq!(m.key, "/Comic/X");
    assert_eq!(m.title, "");
    assert!(comic_entry(st("https://x/Comic/X"), None, None).is_none());
}

#[test]
fn chapters() {
    let (c, num) = comic_chapter(
        st("https://readcomiconline.li/Comic/Batman/Issue-10?id=1"),
        Some(st("Batman Issue #10.5 ")),
        "Batman",
        Some(9),
    )
    .unwrap();
    assert_eq!(c.key, "/Comic/Batman/Issue-10?id=1");
    assert_eq!(c.title.as_deref(), Some("Issue #10.5"));
    assert_eq!(num.as_deref(), Some("10.5"));
    assert_eq!(c.date_uploaded, Some(9));
    let (c, num) = comic_chapter(st("https://readcomiconline.li/a"), Some(st("Annual")), "Batman", None).unwrap();
    assert_eq!(c.title.as_deref(), Some("Annual"));
    assert_eq!(num, None);
    assert!(comic_chapter(st("https://x/a"), None, "B", None).is_none());
}

#[test]
fn home_updates() {
    let m = update_entry("https://readcomiconline.li/Comic/Title-Slug/Issue-3?id=9", Some(st("T"))).unwrap();
    assert_eq!(m.key, "/Comic/Title-Slug");
    assert_eq!(m.url.as_deref(), Some("https://readcomiconline.li/Comic/Title-Slug"));
    assert!(update_entry("https://readcomiconline.li/Comic", None).is_none());
    assert!(update_entry("https://elsewhere/Comic/A/B", None).is_none());
    assert!(update_entry("https://readcomiconline.li///a/b", None).is_none());
}

#[test]
fn comic_deep_links() {
    assert_eq!(handle_deep_link("https://readcomiconline.li/Comic/X/Issue-1"), Some(st("/Comic/X")));
    assert_eq!(handle_deep_link("https://readcomiconline.li/Comic/X"), Some(st("/Comic/X")));
    assert_eq!(handle_deep_link("https://readcomiconline.li/Comic"), None);
    assert_eq!(handle_deep_link("https://readcomiconline.li/Other/X"), None);
    assert_eq!(handle_deep_link("https://else/Comic/X"), None);
}

#[test]
fn decrypt_scripts() {
    assert_eq!(decrypt_script("   ", "E"), None);
    assert_eq!(
        decrypt_script("  ab\"c\n ", "EVAL"),
        Some(st("let _encryptedString = \"ab\\\"c\";let _useServer2 = false;EVAL"))
    );
    let odd = "x\u{1}\u{8}\t\n\u{c}\r\\/y";
    assert_eq!(
        decrypt_script(odd, ""),
        Some(format!("let _encryptedString = {};let _useServer2 = false;", serde_json::to_string(odd).unwrap()))
    );
    assert_eq!(decrypt_script("a\u{1f}", ""), Some(st("let _encryptedString = \"a\\u001f\";let _useServer2 = false;")));
}

#[test]
fn links_from_results() {
    let mut links = vec![st("z")];
    add_links(&mut links, "[\"a\",\"\",\"b\"]");
    assert_eq!(links, vec![st("z"), st("a"), st("b")]);
    add_links(&mut links, "not json");
    add_links(&mut links, "[1,2]");
    assert_eq!(links, vec![st("z"), st("a"), st("b")]);
}

#[test]
fn nonempty_links_are_appended() {
    let mut links = Vec::new();
    aidoku_sources::readcomiconline::append_nonempty(&mut links, vec![st(""), st("x"), st("")]);
    assert_eq!(links, vec![st("x")]);
}

#[test]
fn comic_details_are_applied() {
    let mut base = manga_with(st("/Comic/X"), st("old"));
    base.url = Some(st("u"));
    let m = comic_details(
        base,
        ComicInfo {
            title: None,
            cover: Some(st("c")),
            writer: Some(st("W")),
            artist: None,
            summary: Some(st("s")),
            genres: Some(vec![st("Action")]),
            status: Some(st("Status: Completed")),
        },
    );
    assert_eq!(m.title, "old");
    assert_eq!(m.key, "/Comic/X");
    assert_eq!(m.url.as_deref(), Some("u"));
    assert_eq!(m.authors, Some(vec![st("W")]));
    assert_eq!(m.artists, None);
    assert_eq!(m.tags, Some(vec![st("Action")]));
    assert_eq!(m.status, MangaStatus::Completed);
    assert_eq!(m.viewer, Viewer::LeftToRight);
    let m = comic_details(manga_with(st("k"), st("t")), ComicInfo {
        title: Some(st("New")), cover: None, writer: None, artist: None, summary: None, genres: None, status: None,
    });
    assert_eq!(m.title, "New");
    assert_eq!(m.status, MangaStatus::Unknown);
}
