//! ReadComicOnline: search and list requests, series details, chapters,
//! the page-list script, the home page and deep links.
use vstd::prelude::*;

use crate::manga::{
    lemma_strings_view_push, opt_list_view, opt_view, params_view, strings_view, Chapter,
    ContentRating, Filter, Manga, MangaStatus, Param, UpdateStrategy, Viewer,
};
use crate::num::{decimal, decimal_i64, digit_char};
use crate::text::{
    chars_of, extend_chars, extend_str, find, find_exec, join, join_exec, nonempty_pieces,
    nonempty_pieces_exec, push_str, replace, replace_exec, split, split_exec,
    splitn, splitn_exec, starts_with, starts_with_exec, str_eq, string_of, strip_prefix,
    strip_prefix_exec, trim, trim_exec, trim_str, views,
};

verus! {

// ---------------------------------------------------------------------------
// Advanced search
// ---------------------------------------------------------------------------

/// The id the advanced search uses for a genre (empty for an unknown one).
pub open spec fn genre_id_spec(g: Seq<char>) -> Seq<char> {
    if g == "Action"@ {
        "1"@
    } else if g == "Adventure"@ {
        "2"@
    } else if g == "Anthology"@ {
        "38"@
    } else if g == "Anthropomorphic"@ {
        "46"@
    } else if g == "Biography"@ {
        "41"@
    } else if g == "Children"@ {
        "49"@
    } else if g == "Comedy"@ {
        "3"@
    } else if g == "Crime"@ {
        "17"@
    } else if g == "Drama"@ {
        "19"@
    } else if g == "Family"@ {
        "25"@
    } else if g == "Fantasy"@ {
        "20"@
    } else if g == "Fighting"@ {
        "31"@
    } else if g == "Graphic Novels"@ {
        "5"@
    } else if g == "Historical"@ {
        "28"@
    } else if g == "Horror"@ {
        "15"@
    } else if g == "Leading Ladies"@ {
        "35"@
    } else if g == "LGBTQ"@ {
        "51"@
    } else if g == "Literature"@ {
        "44"@
    } else if g == "Manga"@ {
        "40"@
    } else if g == "Martial Arts"@ {
        "4"@
    } else if g == "Mature"@ {
        "8"@
    } else if g == "Military"@ {
        "33"@
    } else if g == "Mini-Series"@ {
        "56"@
    } else if g == "Movies & TV"@ {
        "47"@
    } else if g == "Music"@ {
        "55"@
    } else if g == "Mystery"@ {
        "23"@
    } else if g == "Mythology"@ {
        "21"@
    } else if g == "Personal"@ {
        "48"@
    } else if g == "Political"@ {
        "42"@
    } else if g == "Post-Apocalyptic"@ {
        "43"@
    } else if g == "Psychological"@ {
        "27"@
    } else if g == "Pulp"@ {
        "39"@
    } else if g == "Religious"@ {
        "53"@
    } else if g == "Robots"@ {
        "9"@
    } else if g == "Romance"@ {
        "32"@
    } else if g == "School Life"@ {
        "52"@
    } else if g == "Sci-Fi"@ {
        "16"@
    } else if g == "Slice of Life"@ {
        "50"@
    } else if g == "Sport"@ {
        "54"@
    } else if g == "Spy"@ {
        "30"@
    } else if g == "Superhero"@ {
        "22"@
    } else if g == "Supernatural"@ {
        "24"@
    } else if g == "Suspense"@ {
        "29"@
    } else if g == "Teen"@ {
        "57"@
    } else if g == "Thriller"@ {
        "18"@
    } else if g == "Vampires"@ {
        "34"@
    } else if g == "Video Games"@ {
        "37"@
    } else if g == "War"@ {
        "26"@
    } else if g == "Western"@ {
        "45"@
    } else if g == "Zombies"@ {
        "36"@
    } else {
        ""@
    }
}

/// The id the advanced search uses for a genre (empty for an unknown one).
pub fn genre_id(g: &str) -> (r: &'static str)
    ensures
        r@ == genre_id_spec(g@),
{
    if str_eq(g, "Action") {
        "1"
    } else if str_eq(g, "Adventure") {
        "2"
    } else if str_eq(g, "Anthology") {
        "38"
    } else if str_eq(g, "Anthropomorphic") {
        "46"
    } else if str_eq(g, "Biography") {
        "41"
    } else if str_eq(g, "Children") {
        "49"
    } else if str_eq(g, "Comedy") {
        "3"
    } else if str_eq(g, "Crime") {
        "17"
    } else if str_eq(g, "Drama") {
        "19"
    } else if str_eq(g, "Family") {
        "25"
    } else if str_eq(g, "Fantasy") {
        "20"
    } else if str_eq(g, "Fighting") {
        "31"
    } else if str_eq(g, "Graphic Novels") {
        "5"
    } else if str_eq(g, "Historical") {
        "28"
    } else if str_eq(g, "Horror") {
        "15"
    } else if str_eq(g, "Leading Ladies") {
        "35"
    } else if str_eq(g, "LGBTQ") {
        "51"
    } else if str_eq(g, "Literature") {
        "44"
    } else if str_eq(g, "Manga") {
        "40"
    } else if str_eq(g, "Martial Arts") {
        "4"
    } else if str_eq(g, "Mature") {
        "8"
    } else if str_eq(g, "Military") {
        "33"
    } else if str_eq(g, "Mini-Series") {
        "56"
    } else if str_eq(g, "Movies & TV") {
        "47"
    } else if str_eq(g, "Music") {
        "55"
    } else if str_eq(g, "Mystery") {
        "23"
    } else if str_eq(g, "Mythology") {
        "21"
    } else if str_eq(g, "Personal") {
        "48"
    } else if str_eq(g, "Political") {
        "42"
    } else if str_eq(g, "Post-Apocalyptic") {
        "43"
    } else if str_eq(g, "Psychological") {
        "27"
    } else if str_eq(g, "Pulp") {
        "39"
    } else if str_eq(g, "Religious") {
        "53"
    } else if str_eq(g, "Robots") {
        "9"
    } else if str_eq(g, "Romance") {
        "32"
    } else if str_eq(g, "School Life") {
        "52"
    } else if str_eq(g, "Sci-Fi") {
        "16"
    } else if str_eq(g, "Slice of Life") {
        "50"
    } else if str_eq(g, "Sport") {
        "54"
    } else if str_eq(g, "Spy") {
        "30"
    } else if str_eq(g, "Superhero") {
        "22"
    } else if str_eq(g, "Supernatural") {
        "24"
    } else if str_eq(g, "Suspense") {
        "29"
    } else if str_eq(g, "Teen") {
        "57"
    } else if str_eq(g, "Thriller") {
        "18"
    } else if str_eq(g, "Vampires") {
        "34"
    } else if str_eq(g, "Video Games") {
        "37"
    } else if str_eq(g, "War") {
        "26"
    } else if str_eq(g, "Western") {
        "45"
    } else if str_eq(g, "Zombies") {
        "36"
    } else {
        ""
    }
}

/// The genre ids of the genres, joined by commas.
pub open spec fn genre_ids(gs: Seq<Seq<char>>) -> Seq<char> {
    join(Seq::new(gs.len(), |i: int| genre_id_spec(gs[i])), seq![','])
}

/// The parameters of one filter of an advanced search.
pub open spec fn advanced_filter_params(f: Filter) -> Seq<(Seq<char>, Seq<char>)> {
    match f {
        Filter::Select { id, value } => seq![(id@, value@)],
        Filter::MultiSelect { included, excluded, .. } => seq![
            ("ig"@, genre_ids(strings_view(included@))),
            ("eg"@, genre_ids(strings_view(excluded@))),
        ],
        _ => Seq::<(Seq<char>, Seq<char>)>::empty(),
    }
}

pub open spec fn advanced_filters_params(fs: Seq<Filter>) -> Seq<(Seq<char>, Seq<char>)>
    decreases fs.len(),
{
    if fs.len() == 0 {
        Seq::<(Seq<char>, Seq<char>)>::empty()
    } else {
        advanced_filters_params(fs.drop_last()) + advanced_filter_params(fs.last())
    }
}

/// The parameters of an advanced search: the page, the comic name, then
/// those of the filters.
pub open spec fn advanced_params_spec(query: Seq<char>, page: i32, fs: Seq<Filter>) -> Seq<
    (Seq<char>, Seq<char>),
> {
    seq![("page"@, decimal(page as int)), ("comicName"@, query)] + advanced_filters_params(fs)
}

fn genre_ids_exec(gs: &Vec<String>) -> (r: String)
    ensures
        r@ == genre_ids(strings_view(gs@)),
{
    let ghost gv = strings_view(gs@);
    let mut ids: Vec<Vec<char>> = Vec::new();
    for i in 0..gs.len()
        invariant
            gv == strings_view(gs@),
            ids@.len() == i,
            views(ids@) == Seq::new(gv.len(), |k: int| genre_id_spec(gv[k])).take(i as int),
    {
        let c = chars_of(genre_id(gs[i].as_str()));
        let ghost prev = ids@;
        ids.push(c);
        assert(forall|j: int| 0 <= j < i ==> views(prev)[j] == #[trigger] views(ids@)[j]);
        assert(views(ids@) =~= Seq::new(gv.len(), |k: int| genre_id_spec(gv[k])).take(i + 1));
    }
    assert(Seq::new(gv.len(), |k: int| genre_id_spec(gv[k])).take(gs.len() as int) =~= Seq::new(
        gv.len(),
        |k: int| genre_id_spec(gv[k]),
    ));
    let j = join_exec(&ids, ",");
    proof {
        reveal_strlit(",");
        assert(","@ =~= seq![',']);
    }
    string_of(&j)
}

fn param_of(name: &str, value: String) -> (p: Param)
    ensures
        p.name@ == name@,
        p.value == value,
{
    let mut n = String::new();
    push_str(&mut n, name);
    Param { name: n, value }
}

/// The parameters of an advanced search for `query` on page `page`.
pub fn advanced_search_params(query: &str, page: i32, filters: &Vec<Filter>) -> (r: Vec<Param>)
    ensures
        params_view(r@) == advanced_params_spec(query@, page, filters@),
{
    let mut ps: Vec<Param> = Vec::new();
    let d = decimal_i64(page as i64);
    ps.push(param_of("page", string_of(&d)));
    let mut q = String::new();
    push_str(&mut q, query);
    ps.push(param_of("comicName", q));
    let ghost head = params_view(ps@);
    assert(head =~= seq![("page"@, decimal(page as int)), ("comicName"@, query@)]);
    for i in 0..filters.len()
        invariant
            params_view(ps@) == head + advanced_filters_params(filters@.take(i as int)),
    {
        assert(filters@.take(i + 1).drop_last() =~= filters@.take(i as int));
        let ghost before = params_view(ps@);
        match &filters[i] {
            Filter::Select { id, value } => {
                let p = Param { name: id.clone(), value: value.clone() };
                ps.push(p);
            },
            Filter::MultiSelect { included, excluded, .. } => {
                ps.push(param_of("ig", genre_ids_exec(included)));
                ps.push(param_of("eg", genre_ids_exec(excluded)));
            },
            _ => {},
        }
        assert(params_view(ps@) =~= before + advanced_filter_params(filters@[i as int]));
    }
    assert(filters@.take(filters.len() as int) =~= filters@);
    ps
}

// ---------------------------------------------------------------------------
// Browse search
// ---------------------------------------------------------------------------

/// Which list a browse search reads.
#[derive(Debug, Clone, Copy, PartialEq, Eq, Structural)]
pub enum ListKind {
    ComicList,
    Writer,
    Artist,
    Genre,
}

/// The list and sort of a browse search. `name` is the writer or artist
/// (to be URI-encoded), or the genre path segment.
#[derive(Debug)]
pub struct ComicListTarget {
    pub kind: ListKind,
    pub name: String,
    pub sort: String,
}

/// The sort path segment for a position in the sort list.
pub open spec fn sort_segment(index: i32) -> Seq<char> {
    if index == 1 {
        "MostPopular"@
    } else if index == 2 {
        "LatestUpdate"@
    } else if index == 3 {
        "Newest"@
    } else {
        ""@
    }
}

/// The genre path segment of a genre name.
pub open spec fn genre_segment(g: Seq<char>) -> Seq<char> {
    replace(replace(g, " & "@, "-"@), " "@, "-"@)
}

/// The list chosen by the filters: the last writer, artist or genre filter
/// decides; the comic list by default.
pub open spec fn list_of(fs: Seq<Filter>) -> (ListKind, Seq<char>)
    decreases fs.len(),
{
    if fs.len() == 0 {
        (ListKind::ComicList, Seq::<char>::empty())
    } else {
        match fs.last() {
            Filter::Text { id, value } => if id@ == "author"@ {
                (ListKind::Writer, replace(value@, " "@, "-"@))
            } else if id@ == "artist"@ {
                (ListKind::Artist, replace(value@, " "@, "-"@))
            } else {
                list_of(fs.drop_last())
            },
            Filter::MultiSelect { included, .. } => if included.len() > 0 {
                (ListKind::Genre, genre_segment(included@[0]@))
            } else {
                list_of(fs.drop_last())
            },
            _ => list_of(fs.drop_last()),
        }
    }
}

/// The sort chosen by the last sort filter; most popular by default.
pub open spec fn list_sort_of(fs: Seq<Filter>) -> Seq<char>
    decreases fs.len(),
{
    if fs.len() == 0 {
        "MostPopular"@
    } else {
        match fs.last() {
            Filter::Sort { index } => sort_segment(index),
            _ => list_sort_of(fs.drop_last()),
        }
    }
}

fn sort_segment_exec(index: i32) -> (r: &'static str)
    ensures
        r@ == sort_segment(index),
{
    if index == 1 {
        "MostPopular"
    } else if index == 2 {
        "LatestUpdate"
    } else if index == 3 {
        "Newest"
    } else {
        ""
    }
}

/// The list and sort a browse search with these filters reads.
pub fn comic_list_target(filters: &Vec<Filter>) -> (t: ComicListTarget)
    ensures
        (t.kind, t.name@) == list_of(filters@),
        t.sort@ == list_sort_of(filters@),
{
    let mut kind = ListKind::ComicList;
    let mut name = String::new();
    let mut sort = String::new();
    push_str(&mut sort, "MostPopular");
    proof {
        reveal_strlit(" ");
        reveal_strlit(" & ");
    }
    for i in 0..filters.len()
        invariant
            (kind, name@) == list_of(filters@.take(i as int)),
            sort@ == list_sort_of(filters@.take(i as int)),
            " "@.len() > 0,
            " & "@.len() > 0,
    {
        assert(filters@.take(i + 1).drop_last() =~= filters@.take(i as int));
        match &filters[i] {
            Filter::Text { id, value } => {
                let v = chars_of(value.as_str());
                let dashed = replace_exec(&v, " ", "-");
                if str_eq(id.as_str(), "author") {
                    kind = ListKind::Writer;
                    name = string_of(&dashed);
                } else if str_eq(id.as_str(), "artist") {
                    kind = ListKind::Artist;
                    name = string_of(&dashed);
                }
            },
            Filter::Sort { index } => {
                sort = String::new();
                push_str(&mut sort, sort_segment_exec(*index));
            },
            Filter::MultiSelect { included, .. } => {
                if included.len() > 0 {
                    let g = chars_of(included[0].as_str());
                    let a = replace_exec(&g, " & ", "-");
                    let b = replace_exec(&a, " ", "-");
                    kind = ListKind::Genre;
                    name = string_of(&b);
                }
            },
            _ => {},
        }
    }
    assert(filters@.take(filters.len() as int) =~= filters@);
    ComicListTarget { kind, name, sort }
}

/// The path of a list; `encoded_name` is the URI-encoded writer or artist.
pub open spec fn list_path(kind: ListKind, name: Seq<char>, encoded_name: Seq<char>) -> Seq<char> {
    match kind {
        ListKind::ComicList => "ComicList"@,
        ListKind::Writer => "Writer/"@ + encoded_name,
        ListKind::Artist => "Artist/"@ + encoded_name,
        ListKind::Genre => "Genre/"@ + name,
    }
}

/// The browse search request; `encoded_name` is the URI-encoded writer or
/// artist name (unused for other lists).
pub fn comic_list_url(t: &ComicListTarget, encoded_name: &str, page: i32) -> (r: String)
    ensures
        r@ == "https://readcomiconline.li/"@ + list_path(t.kind, t.name@, encoded_name@) + "/"@
            + t.sort@ + "?page="@ + decimal(page as int),
{
    let mut v: Vec<char> = Vec::new();
    extend_str(&mut v, "https://readcomiconline.li/");
    match t.kind {
        ListKind::ComicList => extend_str(&mut v, "ComicList"),
        ListKind::Writer => {
            extend_str(&mut v, "Writer/");
            extend_str(&mut v, encoded_name);
        },
        ListKind::Artist => {
            extend_str(&mut v, "Artist/");
            extend_str(&mut v, encoded_name);
        },
        ListKind::Genre => {
            extend_str(&mut v, "Genre/");
            extend_str(&mut v, t.name.as_str());
        },
    }
    extend_str(&mut v, "/");
    extend_str(&mut v, t.sort.as_str());
    extend_str(&mut v, "?page=");
    let d = decimal_i64(page as i64);
    extend_chars(&mut v, &d);
    string_of(&v)
}

// ---------------------------------------------------------------------------
// Requests
// ---------------------------------------------------------------------------

/// The address of a series, chapter or list path on the site.
pub fn site_url(path: &str) -> (r: String)
    ensures
        r@ == "https://readcomiconline.li"@ + path@,
{
    let mut s = String::new();
    push_str(&mut s, "https://readcomiconline.li");
    push_str(&mut s, path);
    s
}

/// The request for a list.
pub fn listing_url(id: &str, page: i32) -> (r: String)
    ensures
        r@ == "https://readcomiconline.li/"@ + id@ + "?page="@ + decimal(page as int),
{
    let mut v: Vec<char> = Vec::new();
    extend_str(&mut v, "https://readcomiconline.li/");
    extend_str(&mut v, id);
    extend_str(&mut v, "?page=");
    let d = decimal_i64(page as i64);
    extend_chars(&mut v, &d);
    string_of(&v)
}

/// The reader request of a chapter, asking for high quality images.
pub fn chapter_pages_url(key: &str) -> (r: String)
    ensures
        r@ == "https://readcomiconline.li"@ + key@ + "&s=&quality=hq&readType=1"@,
{
    let mut s = site_url(key);
    push_str(&mut s, "&s=&quality=hq&readType=1");
    s
}

// ---------------------------------------------------------------------------
// Listings, details and chapters
// ---------------------------------------------------------------------------

/// The path of a link on the site.
pub open spec fn site_path(url: Seq<char>) -> Option<Seq<char>> {
    strip_prefix(url, "https://readcomiconline.li"@)
}

fn site_path_exec(url: &Vec<char>) -> (r: Option<Vec<char>>)
    ensures
        match r {
            Some(p) => site_path(url@) == Some(p@),
            None => site_path(url@) is None,
        },
{
    strip_prefix_exec(url, "https://readcomiconline.li")
}

/// The series of a listing entry whose cover links to `url`, when the
/// link is on the site.
pub fn comic_entry(url: String, title: Option<String>, cover: Option<String>) -> (r: Option<Manga>)
    ensures
        site_path(url@) is None ==> r is None,
        site_path(url@) matches Some(k) ==> r matches Some(m) && {
            &&& m.key@ == k
            &&& m.title@ == match title {
                Some(t) => t@,
                None => Seq::<char>::empty(),
            }
            &&& m.cover == cover
            &&& opt_view(m.url) == Some(url@)
            &&& m.artists is None && m.authors is None && m.description is None && m.tags is None
            &&& m.status == MangaStatus::Unknown && m.content_rating == ContentRating::Unknown
            &&& m.viewer == Viewer::Unknown && m.update_strategy == UpdateStrategy::Always
        },
{
    let v = chars_of(url.as_str());
    let key = match site_path_exec(&v) {
        Some(k) => string_of(&k),
        None => return None,
    };
    let title = match title {
        Some(t) => t,
        None => String::new(),
    };
    let mut m = crate::manga::manga_with(key, title);
    m.cover = cover;
    m.url = Some(url);
    Some(m)
}

/// `s` without the prefix `p` when it begins with it, else `s`.
pub open spec fn strip_prefix_or_self(s: Seq<char>, p: Seq<char>) -> Seq<char> {
    match strip_prefix(s, p) {
        Some(t) => t,
        None => s,
    }
}

/// The title of a chapter from its link text: without the series title in
/// front, trimmed.
pub open spec fn chapter_title_spec(text: Seq<char>, series: Seq<char>) -> Seq<char> {
    trim(strip_prefix_or_self(text, series))
}

/// The text after the first `#` of a chapter title, where its number is.
pub open spec fn number_text_spec(title: Seq<char>) -> Option<Seq<char>> {
    match find(title, seq!['#']) {
        Some(i) => Some(title.skip(i + 1)),
        None => None,
    }
}

/// A chapter of the listing table linking to `url`, with its link text,
/// the series title and its upload date; and the text holding its number.
/// `None` when the link is not on the site.
pub fn comic_chapter(
    url: String,
    link_text: Option<String>,
    series_title: &str,
    date_uploaded: Option<i64>,
) -> (r: Option<(Chapter, Option<String>)>)
    ensures
        site_path(url@) is None ==> r is None,
        site_path(url@) matches Some(k) ==> r matches Some((c, num)) && {
            &&& c.key@ == k
            &&& opt_view(c.title) == match link_text {
                Some(t) => Some(chapter_title_spec(t@, series_title@)),
                None => None,
            }
            &&& opt_view(num) == match link_text {
                Some(t) => number_text_spec(chapter_title_spec(t@, series_title@)),
                None => None,
            }
            &&& c.number is None
            &&& c.date_uploaded == date_uploaded
            &&& opt_view(c.url) == Some(url@)
        },
{
    let v = chars_of(url.as_str());
    let key = match site_path_exec(&v) {
        Some(k) => string_of(&k),
        None => return None,
    };
    let (title, num) = match link_text {
        Some(t) => {
            let tv = chars_of(t.as_str());
            let stripped = match strip_prefix_exec(&tv, series_title) {
                Some(s) => s,
                None => tv,
            };
            let text = trim_exec(&stripped);
            let mut hash: Vec<char> = Vec::new();
            hash.push('#');
            assert(hash@ =~= seq!['#']);
            let num = match find_exec(&text, &hash) {
                Some(i) => {
                    proof {
                        crate::text::lemma_find_from(text@, hash@, 0);
                    }
                    let n = text.len();
                    assert(i + 1 <= n);
                    let rest = crate::text::slice_chars(&text, i + 1, text.len());
                    assert(rest@ =~= text@.skip(i + 1));
                    Some(string_of(&rest))
                },
                None => None,
            };
            (Some(string_of(&text)), num)
        },
        None => (None, None),
    };
    Some((Chapter { key, title, number: None, date_uploaded, url: Some(url) }, num))
}

/// What the details box of a series page shows.
pub struct ComicInfo {
    /// The heading of the series.
    pub title: Option<String>,
    pub cover: Option<String>,
    pub writer: Option<String>,
    pub artist: Option<String>,
    pub summary: Option<String>,
    pub genres: Option<Vec<String>>,
    /// The text of the status line.
    pub status: Option<String>,
}

pub open spec fn one_name(o: Option<String>) -> Option<Seq<Seq<char>>> {
    match o {
        Some(s) => Some(seq![s@]),
        None => None,
    }
}

/// The series `manga` with the details read from its page: the heading
/// (the old title when missing), cover, writer as author, artist, summary,
/// genres, the status its status line names (unknown without one), and
/// left-to-right reading. Its key, address, rating and update strategy stay.
pub fn comic_details(manga: Manga, info: ComicInfo) -> (m: Manga)
    ensures
        m.key == manga.key,
        m.url == manga.url,
        m.content_rating == manga.content_rating,
        m.update_strategy == manga.update_strategy,
        m.title == match info.title {
            Some(t) => t,
            None => manga.title,
        },
        m.cover == info.cover,
        opt_list_view(m.authors) == one_name(info.writer),
        opt_list_view(m.artists) == one_name(info.artist),
        m.description == info.summary,
        m.tags == info.genres,
        m.status == match info.status {
            Some(s) => crate::ninemanga::parse_status_spec(s@),
            None => MangaStatus::Unknown,
        },
        m.viewer == Viewer::LeftToRight,
{
    let mut m = manga;
    if let Some(t) = info.title {
        m.title = t;
    }
    m.cover = info.cover;
    m.authors = match info.writer {
        Some(w) => {
            let mut v: Vec<String> = Vec::new();
            v.push(w);
            assert(strings_view(v@) =~= seq![w@]);
            Some(v)
        },
        None => None,
    };
    m.artists = match info.artist {
        Some(a) => {
            let mut v: Vec<String> = Vec::new();
            v.push(a);
            assert(strings_view(v@) =~= seq![a@]);
            Some(v)
        },
        None => None,
    };
    m.description = info.summary;
    m.tags = info.genres;
    m.status = match &info.status {
        Some(s) => crate::ninemanga::parse_status(s.as_str()),
        None => MangaStatus::Unknown,
    };
    m.viewer = Viewer::LeftToRight;
    m
}

// ---------------------------------------------------------------------------
// Home page
// ---------------------------------------------------------------------------

/// The key of the series of a chapter path `/{kind}/{slug}/...`: its first
/// two non-empty segments among the first four pieces.
pub open spec fn update_key_spec(url: Seq<char>) -> Option<Seq<char>> {
    match site_path(url) {
        Some(p) => {
            let segs = nonempty_pieces(splitn(p, 4, '/'));
            if segs.len() >= 2 {
                Some(seq!['/'] + segs[0] + seq!['/'] + segs[1])
            } else {
                None
            }
        },
        None => None,
    }
}

/// The series of a latest-update link to one of its chapters.
pub fn update_entry(chapter_url: &str, title: Option<String>) -> (r: Option<Manga>)
    ensures
        update_key_spec(chapter_url@) is None ==> r is None,
        update_key_spec(chapter_url@) matches Some(k) ==> r matches Some(m) && {
            &&& m.key@ == k
            &&& opt_view(m.url) == Some("https://readcomiconline.li"@ + k)
            &&& m.title@ == match title {
                Some(t) => t@,
                None => Seq::<char>::empty(),
            }
            &&& m.cover is None && m.artists is None && m.authors is None
            &&& m.description is None && m.tags is None
            &&& m.status == MangaStatus::Unknown && m.content_rating == ContentRating::Unknown
            &&& m.viewer == Viewer::Unknown && m.update_strategy == UpdateStrategy::Always
        },
{
    let v = chars_of(chapter_url);
    let p = match site_path_exec(&v) {
        Some(p) => p,
        None => return None,
    };
    let pieces = splitn_exec(&p, 4, '/');
    let segs = nonempty_pieces_exec(&pieces);
    if segs.len() < 2 {
        return None;
    }
    let mut k: Vec<char> = Vec::new();
    k.push('/');
    extend_chars(&mut k, &segs[0]);
    k.push('/');
    extend_chars(&mut k, &segs[1]);
    assert(k@ =~= seq!['/'] + segs@[0]@ + seq!['/'] + segs@[1]@);
    let key = string_of(&k);
    let url = site_url(key.as_str());
    let title = match title {
        Some(t) => t,
        None => String::new(),
    };
    let mut m = crate::manga::manga_with(key, title);
    m.url = Some(url);
    Some(m)
}

// ---------------------------------------------------------------------------
// Deep links
// ---------------------------------------------------------------------------

/// The series key named by a link to a comic page: `/{first}/{second}` of
/// its non-empty path segments, when the path starts with `/Comic`.
pub open spec fn deep_link_spec(url: Seq<char>) -> Option<Seq<char>> {
    match site_path(url) {
        Some(p) => if starts_with(p, "/Comic"@) {
            let segs = nonempty_pieces(split(p, '/'));
            if segs.len() >= 2 {
                Some(seq!['/'] + segs[0] + seq!['/'] + segs[1])
            } else {
                None
            }
        } else {
            None
        },
        None => None,
    }
}

/// The series key named by a link to a comic page, if it is one.
pub fn handle_deep_link(url: &str) -> (r: Option<String>)
    ensures
        opt_view(r) == deep_link_spec(url@),
{
    let v = chars_of(url);
    let p = match site_path_exec(&v) {
        Some(p) => p,
        None => return None,
    };
    let comic = chars_of("/Comic");
    if !starts_with_exec(&p, &comic) {
        return None;
    }
    let pieces = split_exec(&p, '/');
    let segs = nonempty_pieces_exec(&pieces);
    if segs.len() < 2 {
        return None;
    }
    let mut k: Vec<char> = Vec::new();
    k.push('/');
    extend_chars(&mut k, &segs[0]);
    k.push('/');
    extend_chars(&mut k, &segs[1]);
    assert(k@ =~= seq!['/'] + segs@[0]@ + seq!['/'] + segs@[1]@);
    Some(string_of(&k))
}

// ---------------------------------------------------------------------------
// Page-list script
// ---------------------------------------------------------------------------

#[verifier::external_type_specification]
#[verifier::external_body]
pub struct ExJsonError(serde_json::Error);

pub open spec fn hex_digit(d: int) -> char {
    if d < 10 {
        digit_char(d)
    } else {
        ((d - 10 + 97) as u8) as char
    }
}

/// How a JSON string literal writes one character.
pub open spec fn json_escape(c: char) -> Seq<char> {
    if c == '"' {
        seq!['\\', '"']
    } else if c == '\\' {
        seq!['\\', '\\']
    } else if c == '\u{8}' {
        seq!['\\', 'b']
    } else if c == '\t' {
        seq!['\\', 't']
    } else if c == '\n' {
        seq!['\\', 'n']
    } else if c == '\u{c}' {
        seq!['\\', 'f']
    } else if c == '\r' {
        seq!['\\', 'r']
    } else if (c as int) < 0x20 {
        seq!['\\', 'u', '0', '0', hex_digit((c as int) / 16), hex_digit((c as int) % 16)]
    } else {
        seq![c]
    }
}

pub open spec fn json_escape_all(s: Seq<char>) -> Seq<char>
    decreases s.len(),
{
    if s.len() == 0 {
        Seq::<char>::empty()
    } else {
        json_escape_all(s.drop_last()) + json_escape(s.last())
    }
}

/// The JSON string literal of a text.
pub open spec fn json_quoted(s: Seq<char>) -> Seq<char> {
    seq!['"'] + json_escape_all(s) + seq!['"']
}

/// Writes `s` as a JSON string literal. Calls `serde_json::to_string` on a
/// `&str`, which (its source shows) writes `"`, escapes `"`, `\`, and the
/// control characters (`\b \t \n \f \r`, else `\u00xx` in lower-case hex),
/// copies every other character, writes `"`, and cannot fail on a string.
#[verifier::external_body]
fn json_string(s: &str) -> (r: Result<String, serde_json::Error>)
    ensures
        r is Ok,
        r matches Ok(t) ==> t@ == json_quoted(s@),
{
    serde_json::to_string(s)
}

/// What `serde_json::from_str::<Vec<String>>` makes of a text: the strings
/// of a JSON array of strings, or `None` when it refuses the text.
pub uninterp spec fn json_string_array(s: Seq<char>) -> Option<Seq<Seq<char>>>;

/// Reads a JSON array of strings. Calls `serde_json::from_str`; the
/// contract claims only that the outcome is the one `json_string_array`
/// names for the text.
#[verifier::external_body]
fn parse_string_array(s: &str) -> (r: Result<Vec<String>, serde_json::Error>)
    ensures
        match r {
            Ok(v) => json_string_array(s@) == Some(strings_view(v@)),
            Err(_) => json_string_array(s@) is None,
        },
{
    serde_json::from_str::<Vec<String>>(s)
}

/// The script that deciphers the page list held by a script of the reader
/// page: the trimmed script text as a JS string, then the site's
/// deciphering code `eval`. `None` for an empty script.
pub open spec fn decrypt_script_spec(data: Seq<char>, eval: Seq<char>) -> Option<Seq<char>> {
    let t = trim(data);
    if t.len() == 0 {
        None
    } else {
        Some(
            "let _encryptedString = "@ + json_quoted(t) + ";let _useServer2 = false;"@ + eval,
        )
    }
}

/// The script that deciphers the page list held by a reader-page script.
pub fn decrypt_script(data: &str, eval: &str) -> (r: Option<String>)
    ensures
        opt_view(r) == decrypt_script_spec(data@, eval@),
{
    let t = trim_str(data);
    if t.len() == 0 {
        return None;
    }
    let ts = string_of(&t);
    let quoted = match json_string(ts.as_str()) {
        Ok(q) => q,
        Err(_) => return None,
    };
    let mut s = String::new();
    push_str(&mut s, "let _encryptedString = ");
    push_str(&mut s, quoted.as_str());
    push_str(&mut s, ";let _useServer2 = false;");
    push_str(&mut s, eval);
    Some(s)
}

/// Appends the non-empty strings of `found` to `links`.
pub fn append_nonempty(links: &mut Vec<String>, found: Vec<String>)
    ensures
        strings_view(final(links)@) == strings_view(old(links)@) + nonempty_pieces(
            strings_view(found@),
        ),
{
    let ghost start = strings_view(links@);
    let ghost vv = strings_view(found@);
    for i in 0..found.len()
        invariant
            vv == strings_view(found@),
            strings_view(links@) == start + nonempty_pieces(vv.take(i as int)),
    {
        assert(vv.take(i + 1).drop_last() =~= vv.take(i as int));
        if !found[i].as_str().is_empty() {
            proof {
                lemma_strings_view_push(links@, found@[i as int]);
            }
            links.push(found[i].clone());
        }
    }
    assert(vv.take(found.len() as int) =~= vv);
}

/// `links` with the non-empty strings of the JSON array `result` appended;
/// unchanged when `result` is not such an array.
pub fn add_links(links: &mut Vec<String>, result: &str)
    ensures
        strings_view(final(links)@) == match json_string_array(result@) {
            Some(v) => strings_view(old(links)@) + nonempty_pieces(v),
            None => strings_view(old(links)@),
        },
{
    match parse_string_array(result) {
        Ok(v) => append_nonempty(links, v),
        Err(_) => {},
    }
}

} // verus!
