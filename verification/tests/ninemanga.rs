use aidoku_sources::manga::{Filter, MangaStatus, Param};
use aidoku_sources::ninemanga::{
    browse_search_url, chapter_key, filter_params, listing_url, page_urls, parse_status,
    query_search_url, series_key, series_page_url, series_title, site_url, PagesError,
};

fn st(s: &str) -> String {
    s.to_string()
}

#[test]
fn search_requests() {
    assert_eq!(
        query_search_url("one%20piece", 2),
        "https://www.ninemanga.com/search/?wd=one%20piece&page=2&type=high"
    );
    let filters = vec![
        Filter::Select { id: st("completed_series"), value: st("yes") },
        Filter::MultiSelect { id: st("genres"), included: vec![st("1"), st("2")], excluded: vec![st("3")] },
        Filter::MultiSelect { id: st("genres"), included: vec![], excluded: vec![] },
        Filter::Sort { index: 0 },
    ];
    let ps = filter_params(&filters);
    let pairs: Vec<(String, String)> = ps.iter().map(|p| (p.name.clone(), p.value.clone())).collect();
    assert_eq!(
        pairs,
        vec![
            (st("completed_series"), st("yes")),
            (st("category_id"), st("1,2,")),
            (st("out_category_id"), st("3,")),
        ]
    );
    let encoded = vec![Param { name: st("category_id"), value: st("1%2C") }];
    assert_eq!(
        browse_search_url(1, &encoded),
        "https://www.ninemanga.com/search/?page=1&type=high&category_id=1%2C"
    );
}

#[test]
fn lists() {
    assert_eq!(listing_url("latest", 3), "https://www.ninemanga.com/list/New-Update/");
    assert_eq!(listing_url("hot", 3), "https://www.ninemanga.com/list/Hot-Book/");
    assert_eq!(listing_url("new", 3), "https://www.ninemanga.com/list/New-Book/");
    assert_eq!(listing_url("popular", 3), "https://www.ninemanga.com/category/index_3.html");
}

#[test]
fn keys_and_titles() {
    assert_eq!(series_key("https://www.ninemanga.com/manga/X.html"), "/manga/X.html");
    assert_eq!(series_key("https://cdn.other/x"), "https://cdn.other/x");
    assert_eq!(series_key(&site_url("/manga/Y.html")), "/manga/Y.html");
    assert_eq!(series_page_url("/manga/X.html"), "https://www.ninemanga.com/manga/X.html?waring=1");
    assert_eq!(chapter_key("https://www.ninemanga.com/chapter/A%20B/1.html"), "/chapter/A B/1.html");
    assert_eq!(chapter_key("https://x/A%20B"), "https://x/A B");
    assert_eq!(series_title("One Piece Manga"), "One Piece");
}

#[test]
fn status_text() {
    assert_eq!(parse_status("Status: Ongoing"), MangaStatus::Ongoing);
    assert_eq!(parse_status("Completed"), MangaStatus::Completed);
    assert_eq!(parse_status("Ongoing Completed"), MangaStatus::Ongoing);
    assert_eq!(parse_status("?"), MangaStatus::Unknown);
}

#[test]
fn pages() {
    assert_eq!(page_urls(&Vec::new()), Err(PagesError::NoPages));
    assert_eq!(
        page_urls(&vec![st("/c/1-1.html"), st("/c/1-2.html")]),
        Ok(vec![st("https://www.ninemanga.com/c/1-1.html"), st("https://www.ninemanga.com/c/1-2.html")])
    );
}
