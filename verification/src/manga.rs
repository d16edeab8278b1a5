//! The records a source hands to the reader app: series, chapters, pages.
use vstd::prelude::*;

verus! {

/// Publication status of a series.
#[derive(Debug, Clone, Copy, PartialEq, Eq, Structural)]
pub enum MangaStatus {
    Unknown,
    Ongoing,
    Completed,
    Cancelled,
    Hiatus,
}

/// Content rating of a series.
#[derive(Debug, Clone, Copy, PartialEq, Eq, Structural)]
pub enum ContentRating {
    Unknown,
    Safe,
    Suggestive,
    NSFW,
}

/// Reading direction of a series.
#[derive(Debug, Clone, Copy, PartialEq, Eq, Structural)]
pub enum Viewer {
    Unknown,
    LeftToRight,
    RightToLeft,
    Vertical,
    Webtoon,
}

/// Whether the app should look for new chapters of a series.
#[derive(Debug, Clone, Copy, PartialEq, Eq, Structural)]
pub enum UpdateStrategy {
    Always,
    Never,
}

/// A series as the app shows it.
#[derive(Debug)]
pub struct Manga {
    pub key: String,
    pub title: String,
    pub cover: Option<String>,
    pub artists: Option<Vec<String>>,
    pub authors: Option<Vec<String>>,
    pub description: Option<String>,
    pub url: Option<String>,
    pub tags: Option<Vec<String>>,
    pub status: MangaStatus,
    pub content_rating: ContentRating,
    pub viewer: Viewer,
    pub update_strategy: UpdateStrategy,
}

/// A chapter of a series. `number` is a whole chapter number where the
/// source knows one.
#[derive(Debug)]
pub struct Chapter {
    pub key: String,
    pub title: Option<String>,
    pub number: Option<u32>,
    pub date_uploaded: Option<i64>,
    pub url: Option<String>,
}

/// A search filter value chosen by the user.
#[derive(Debug)]
pub enum Filter {
    /// Free text typed for the filter `id`.
    Text { id: String, value: String },
    /// A sort option, by its position in the list.
    Sort { index: i32 },
    /// One option picked from a list.
    Select { id: String, value: String },
    /// Several options included or excluded.
    MultiSelect { id: String, included: Vec<String>, excluded: Vec<String> },
    /// Any other kind of filter, which no source here reads.
    Other,
}

/// One `name=value` parameter of a request.
#[derive(Debug)]
pub struct Param {
    pub name: String,
    pub value: String,
}

pub open spec fn param_view(p: Param) -> (Seq<char>, Seq<char>) {
    (p.name@, p.value@)
}

pub open spec fn params_view(ps: Seq<Param>) -> Seq<(Seq<char>, Seq<char>)> {
    ps.map_values(|p: Param| param_view(p))
}

/// The texts held by a vector of strings.
pub open spec fn strings_view(v: Seq<String>) -> Seq<Seq<char>> {
    v.map_values(|s: String| s@)
}

pub open spec fn opt_view(o: Option<String>) -> Option<Seq<char>> {
    match o {
        Some(s) => Some(s@),
        None => None,
    }
}

pub open spec fn opt_list_view(o: Option<Vec<String>>) -> Option<Seq<Seq<char>>> {
    match o {
        Some(v) => Some(strings_view(v@)),
        None => None,
    }
}

/// A series with only its key and title set.
pub fn manga_with(key: String, title: String) -> (m: Manga)
    ensures
        m.key == key,
        m.title == title,
        m.cover is None,
        m.artists is None,
        m.authors is None,
        m.description is None,
        m.url is None,
        m.tags is None,
        m.status == MangaStatus::Unknown,
        m.content_rating == ContentRating::Unknown,
        m.viewer == Viewer::Unknown,
        m.update_strategy == UpdateStrategy::Always,
{
    Manga {
        key,
        title,
        cover: None,
        artists: None,
        authors: None,
        description: None,
        url: None,
        tags: None,
        status: MangaStatus::Unknown,
        content_rating: ContentRating::Unknown,
        viewer: Viewer::Unknown,
        update_strategy: UpdateStrategy::Always,
    }
}

/// A vector of strings holding the given character vectors.
pub fn strings_of(v: &Vec<Vec<char>>) -> (r: Vec<String>)
    ensures
        strings_view(r@) == crate::text::views(v@),
{
    let mut r: Vec<String> = Vec::new();
    for i in 0..v.len()
        invariant
            r@.len() == i,
            strings_view(r@) == crate::text::views(v@).take(i as int),
    {
        let s = crate::text::string_of(&v[i]);
        let ghost prev = r@;
        r.push(s);
        assert(forall|j: int| 0 <= j < i ==> strings_view(prev)[j] == #[trigger] strings_view(r@)[j]);
        assert(strings_view(r@) =~= crate::text::views(v@).take(i + 1));
    }
    assert(crate::text::views(v@).take(v.len() as int) =~= crate::text::views(v@));
    r
}

/// The characters of each string of `v`.
pub fn chars_of_all(v: &Vec<String>) -> (r: Vec<Vec<char>>)
    ensures
        crate::text::views(r@) == strings_view(v@),
{
    let mut r: Vec<Vec<char>> = Vec::new();
    for i in 0..v.len()
        invariant
            r@.len() == i,
            crate::text::views(r@) == strings_view(v@).take(i as int),
    {
        let c = crate::text::chars_of(v[i].as_str());
        let ghost prev = r@;
        r.push(c);
        assert(forall|j: int| 0 <= j < i ==> crate::text::views(prev)[j] == #[trigger] crate::text::views(r@)[j]);
        assert(crate::text::views(r@) =~= strings_view(v@).take(i + 1));
    }
    assert(strings_view(v@).take(v.len() as int) =~= strings_view(v@));
    r
}

/// Viewing a pushed vector of strings pushes the viewed string.
pub proof fn lemma_strings_view_push(v: Seq<String>, s: String)
    ensures
        strings_view(v.push(s)) == strings_view(v).push(s@),
{
    assert(strings_view(v.push(s)) =~= strings_view(v).push(s@));
}

/// Viewing concatenated vectors of strings concatenates the views.
pub proof fn lemma_strings_view_add(a: Seq<String>, b: Seq<String>)
    ensures
        strings_view(a + b) == strings_view(a) + strings_view(b),
{
    assert(strings_view(a + b) =~= strings_view(a) + strings_view(b));
}

/// Appends copies of the strings of `src` to `out`.
pub fn append_strings(out: &mut Vec<String>, src: &Vec<String>)
    ensures
        final(out)@ == old(out)@ + src@,
{
    let ghost start = out@;
    for i in 0..src.len()
        invariant
            out@ == start + src@.take(i as int),
    {
        out.push(src[i].clone());
        assert(out@ =~= start + src@.take(i + 1));
    }
    assert(src@.take(src.len() as int) =~= src@);
}

} // verus!
