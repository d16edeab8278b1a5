//! HentaiNexus: search requests, gallery listings, gallery details, the
//! reader payload and deep links.
use vstd::prelude::*;

use crate::manga::{
    lemma_strings_view_push, opt_list_view, opt_view, strings_view, Chapter,
    ContentRating, Filter, Manga, MangaStatus, UpdateStrategy, Viewer,
};
use crate::num::{decimal, decimal_i64};
use crate::text::{
    chars_of, contains, contains_exec, ends_with, extend_chars, extend_str, find, find_exec, first_piece,
    is_digit, join, join_exec, push_str, rfind_char, rfind_char_exec, slice_chars,
    split, str_eq, strip_prefix, strip_prefix_exec, string_of, tokens, tokens_exec, trim,
    trim_end, trim_end_exec, trim_exec, trim_str, views,
};

verus! {

// ---------------------------------------------------------------------------
// Search
// ---------------------------------------------------------------------------

/// A token excludes when it begins with `-`.
pub open spec fn excludes(t: Seq<char>) -> bool {
    t.len() > 0 && t[0] == '-'
}

/// The searched text of a token: without the `-` of an exclusion, trimmed.
pub open spec fn token_text(t: Seq<char>) -> Seq<char> {
    if excludes(t) {
        trim(t.skip(1))
    } else {
        t
    }
}

/// The query part for a token of the text filter `id`.
pub open spec fn token_part(id: Seq<char>, t: Seq<char>) -> Seq<char> {
    let text = token_text(t);
    let prefix = if excludes(t) {
        seq!['-']
    } else {
        Seq::<char>::empty()
    };
    if contains(text, seq![' ']) {
        prefix + id + ":\""@ + text + "\""@
    } else {
        prefix + id + ":"@ + text
    }
}

/// The query parts of the tokens of a text filter, skipping those whose
/// text is empty.
pub open spec fn token_parts(id: Seq<char>, toks: Seq<Seq<char>>) -> Seq<Seq<char>>
    decreases toks.len(),
{
    if toks.len() == 0 {
        Seq::<Seq<char>>::empty()
    } else {
        let rest = token_parts(id, toks.drop_last());
        if token_text(toks.last()).len() > 0 {
            rest.push(token_part(id, toks.last()))
        } else {
            rest
        }
    }
}

/// The query parts of all text filters, in order.
pub open spec fn filter_parts(fs: Seq<Filter>) -> Seq<Seq<char>>
    decreases fs.len(),
{
    if fs.len() == 0 {
        Seq::<Seq<char>>::empty()
    } else {
        let rest = filter_parts(fs.drop_last());
        match fs.last() {
            Filter::Text { id, value } => rest + token_parts(id@, tokens(value@)),
            _ => rest,
        }
    }
}

/// The parts of a search: the filter parts, then the query when not empty.
pub open spec fn query_parts_spec(query: Option<Seq<char>>, fs: Seq<Filter>) -> Seq<Seq<char>> {
    match query {
        Some(q) => if q.len() > 0 {
            filter_parts(fs).push(q)
        } else {
            filter_parts(fs)
        },
        None => filter_parts(fs),
    }
}

fn token_part_exec(id: &str, t: &Vec<char>) -> (r: Option<String>)
    ensures
        r matches Some(p) ==> token_text(t@).len() > 0 && p@ == token_part(id@, t@),
        r is None ==> token_text(t@).len() == 0,
{
    let exclude = t.len() > 0 && t[0] == '-';
    let text = if exclude {
        let rest = slice_chars(t, 1, t.len());
        assert(rest@ =~= t@.skip(1));
        trim_exec(&rest)
    } else {
        slice_chars(t, 0, t.len())
    };
    assert(exclude ==> text@ == trim(t@.skip(1)));
    assert(!exclude ==> text@ =~= t@);
    if text.len() == 0 {
        return None;
    }
    let mut v: Vec<char> = Vec::new();
    if exclude {
        v.push('-');
    }
    extend_str(&mut v, id);
    let has_space = contains_exec(&text, " ");
    proof {
        reveal_strlit(" ");
        assert(" "@ =~= seq![' ']);
    }
    if has_space {
        extend_str(&mut v, ":\"");
        extend_chars(&mut v, &text);
        extend_str(&mut v, "\"");
    } else {
        extend_str(&mut v, ":");
        extend_chars(&mut v, &text);
    }
    proof {
        if !exclude {
            assert(v@ =~= Seq::<char>::empty() + id@ + v@.skip(id@.len() as int));
        }
    }
    assert(v@ =~= token_part(id@, t@));
    Some(string_of(&v))
}

/// The parts of a search with text `query` and filters `filters`.
pub fn query_parts(query: Option<String>, filters: &Vec<Filter>) -> (r: Vec<String>)
    ensures
        strings_view(r@) == query_parts_spec(opt_view(query), filters@),
{
    let mut parts: Vec<String> = Vec::new();
    assert(strings_view(parts@) =~= Seq::<Seq<char>>::empty());
    for i in 0..filters.len()
        invariant
            strings_view(parts@) == filter_parts(filters@.take(i as int)),
    {
        assert(filters@.take(i + 1).drop_last() =~= filters@.take(i as int));
        if let Filter::Text { id, value } = &filters[i] {
            let toks = tokens_exec(value.as_str());
            let ghost tv = views(toks@);
            let ghost start = strings_view(parts@);
            for j in 0..toks.len()
                invariant
                    tv == views(toks@),
                    strings_view(parts@) == start + token_parts(id@, tv.take(j as int)),
            {
                assert(tv.take(j + 1).drop_last() =~= tv.take(j as int));
                if let Some(p) = token_part_exec(id.as_str(), &toks[j]) {
                    proof {
                        lemma_strings_view_push(parts@, p);
                    }
                    parts.push(p);
                }
            }
            assert(tv.take(toks.len() as int) =~= tv);
        }
    }
    assert(filters@.take(filters.len() as int) =~= filters@);
    if let Some(q) = query {
        if !q.as_str().is_empty() {
            proof {
                lemma_strings_view_push(parts@, q);
            }
            parts.push(q);
        }
    }
    parts
}

/// The parts joined by spaces, or `None` when there is none; the caller
/// URI-encodes it for `build_url`.
pub fn joined_query(parts: &Vec<String>) -> (r: Option<String>)
    ensures
        r matches Some(s) ==> parts.len() > 0 && s@ == join(strings_view(parts@), seq![' ']),
        r is None ==> parts.len() == 0,
{
    if parts.len() == 0 {
        return None;
    }
    let v = crate::manga::chars_of_all(parts);
    let j = join_exec(&v, " ");
    proof {
        reveal_strlit(" ");
        assert(" "@ =~= seq![' ']);
    }
    Some(string_of(&j))
}

/// The listing request for page `page` of a search whose encoded query is
/// `encoded_query` (the home listing when there is none).
pub open spec fn build_url_spec(encoded_query: Option<Seq<char>>, page: i32) -> Seq<char> {
    let base = "https://hentainexus.com"@;
    let paged = if page > 1 {
        base + "/page/"@ + decimal(page as int)
    } else {
        base
    };
    match encoded_query {
        None => paged,
        Some(q) => paged + "?q="@ + q,
    }
}

/// The listing request for page `page` of a search whose encoded query is
/// `encoded_query` (the home listing when there is none).
pub fn build_url(encoded_query: Option<&str>, page: i32) -> (r: String)
    ensures
        r@ == build_url_spec(crate::schale::str_opt_view(encoded_query), page),
{
    let mut v: Vec<char> = Vec::new();
    extend_str(&mut v, "https://hentainexus.com");
    if page > 1 {
        extend_str(&mut v, "/page/");
        let d = decimal_i64(page as i64);
        extend_chars(&mut v, &d);
    }
    if let Some(q) = encoded_query {
        extend_str(&mut v, "?q=");
        extend_str(&mut v, q);
    }
    string_of(&v)
}

/// The gallery page of a gallery.
pub fn view_url(key: &str) -> (r: String)
    ensures
        r@ == "https://hentainexus.com/view/"@ + key@,
{
    let mut s = String::new();
    push_str(&mut s, "https://hentainexus.com/view/");
    push_str(&mut s, key);
    s
}

/// The reader page of a gallery.
pub fn read_url(key: &str) -> (r: String)
    ensures
        r@ == "https://hentainexus.com/read/"@ + key@,
{
    let mut s = String::new();
    push_str(&mut s, "https://hentainexus.com/read/");
    push_str(&mut s, key);
    s
}

// ---------------------------------------------------------------------------
// Listings
// ---------------------------------------------------------------------------

/// The gallery key of a link `https://hentainexus.com/view/{key}[/...]`.
pub open spec fn view_key_spec(href: Seq<char>) -> Option<Seq<char>> {
    match strip_prefix(href, "https://hentainexus.com"@) {
        Some(a) => match strip_prefix(a, "/view/"@) {
            Some(b) => Some(split(b, '/')[0]),
            None => None,
        },
        None => None,
    }
}

/// The gallery key of a link to a gallery page.
pub fn view_key(href: &str) -> (r: Option<String>)
    ensures
        opt_view(r) == view_key_spec(href@),
{
    let v = chars_of(href);
    match strip_prefix_exec(&v, "https://hentainexus.com") {
        Some(a) => match strip_prefix_exec(&a, "/view/") {
            Some(b) => {
                let k = first_piece(&b, '/');
                Some(string_of(&k))
            },
            None => None,
        },
        None => None,
    }
}

/// The constant fields of every gallery.
pub open spec fn gallery_kind(m: Manga) -> bool {
    &&& m.status == MangaStatus::Completed
    &&& m.content_rating == ContentRating::NSFW
    &&& m.viewer == Viewer::RightToLeft
    &&& m.update_strategy == UpdateStrategy::Never
}

/// The series of a listing card linking to `href`, when the link names a
/// gallery.
pub fn gallery_manga(href: String, title: String, cover: Option<String>) -> (r: Option<Manga>)
    ensures
        view_key_spec(href@) is None ==> r is None,
        view_key_spec(href@) matches Some(k) ==> r matches Some(m) && {
            &&& m.key@ == k
            &&& m.title == title
            &&& m.cover == cover
            &&& opt_view(m.url) == Some(href@)
            &&& m.artists is None && m.authors is None && m.description is None && m.tags is None
            &&& gallery_kind(m)
        },
{
    let key = match view_key(href.as_str()) {
        Some(k) => k,
        None => return None,
    };
    Some(
        Manga {
            key,
            title,
            cover,
            artists: None,
            authors: None,
            description: None,
            url: Some(href),
            tags: None,
            status: MangaStatus::Completed,
            content_rating: ContentRating::NSFW,
            viewer: Viewer::RightToLeft,
            update_strategy: UpdateStrategy::Never,
        },
    )
}

// ---------------------------------------------------------------------------
// Gallery details
// ---------------------------------------------------------------------------

/// Whether `s` holds only digits and commas.
pub open spec fn all_count_chars(s: Seq<char>) -> bool {
    forall|i: int| 0 <= i < s.len() ==> is_digit(#[trigger] s[i]) || s[i] == ','
}

proof fn lemma_count_chars_push(s: Seq<char>, c: char)
    ensures
        all_count_chars(s.push(c)) == (all_count_chars(s) && (is_digit(c) || c == ',')),
{
    if all_count_chars(s.push(c)) {
        assert forall|i: int| 0 <= i < s.len() implies is_digit(#[trigger] s[i]) || s[i] == ',' by {
            assert(s.push(c)[i] == s[i]);
        }
        assert(s.push(c)[s.len() as int] == c);
    }
}

/// A tag name without a trailing count annotation like ` (12,345)`.
pub open spec fn strip_tag_count_spec(s: Seq<char>) -> Seq<char> {
    let t = trim(s);
    if ends_with(t, ")"@) {
        match rfind_char(t, '(') {
            Some(p) => if all_count_chars(t.subrange(p + 1, t.len() - 1)) {
                trim_end(t.take(p))
            } else {
                t
            },
            None => t,
        }
    } else {
        t
    }
}

/// A tag name without a trailing count annotation like ` (12,345)`.
pub fn strip_tag_count(s: &str) -> (r: String)
    ensures
        r@ == strip_tag_count_spec(s@),
{
    let t = trim_str(s);
    let close = chars_of(")");
    if crate::text::ends_with_exec(&t, &close) {
        if let Some(p) = rfind_char_exec(&t, '(') {
            proof {
                crate::text::lemma_rfind_char(t@, '(');
                reveal_strlit(")");
                assert(close@.len() == 1);
                assert(close@[0] == ')');
                assert(t@.skip(t@.len() - 1)[0] == t@[t@.len() - 1]);
                assert(t@[t@.len() - 1] == ')');
            }
            let n = t.len();
            assert(p + 1 < n);
            let mut ok = true;
            let mut i = p + 1;
            while i < t.len() - 1
                invariant
                    p < t.len() - 1,
                    p + 1 <= i <= t.len() - 1,
                    ok == all_count_chars(t@.subrange(p + 1, i as int)),
                decreases t.len() - 1 - i,
            {
                let c = t[i];
                let ghost before = t@.subrange(p + 1, i as int);
                assert(t@.subrange(p + 1, i + 1) =~= before.push(c));
                proof {
                    lemma_count_chars_push(before, c);
                }
                ok = ok && (('0' <= c && c <= '9') || c == ',');
                i = i + 1;
            }
            if ok {
                let head = slice_chars(&t, 0, p);
                assert(head@ =~= t@.take(p as int));
                let r = trim_end_exec(&head);
                return string_of(&r);
            }
        }
    }
    string_of(&t)
}

/// The tag names with their counts removed.
pub fn strip_tag_counts(tags: &Vec<String>) -> (r: Vec<String>)
    ensures
        r.len() == tags.len(),
        forall|i: int|
            0 <= i < r.len() ==> (#[trigger] r@[i])@ == strip_tag_count_spec(tags@[i]@),
{
    let mut r: Vec<String> = Vec::new();
    for i in 0..tags.len()
        invariant
            r.len() == i,
            forall|j: int|
                0 <= j < i ==> (#[trigger] r@[j])@ == strip_tag_count_spec(tags@[j]@),
    {
        r.push(strip_tag_count(tags[i].as_str()));
    }
    r
}

/// `combined` with each name of `more` that it lacks appended, in order.
pub open spec fn merge_names(combined: Seq<Seq<char>>, more: Seq<Seq<char>>) -> Seq<Seq<char>>
    decreases more.len(),
{
    if more.len() == 0 {
        combined
    } else {
        let c = merge_names(combined, more.drop_last());
        if c.contains(more.last()) {
            c
        } else {
            c.push(more.last())
        }
    }
}

fn contains_string(v: &Vec<String>, s: &String) -> (r: bool)
    ensures
        r == strings_view(v@).contains(s@),
{
    for i in 0..v.len()
        invariant
            forall|j: int| 0 <= j < i ==> v@[j]@ != s@,
    {
        if str_eq(v[i].as_str(), s.as_str()) {
            assert(strings_view(v@)[i as int] == s@);
            return true;
        }
    }
    false
}

/// The authors of a gallery followed by its artists that are not already
/// among them.
pub fn combine_authors(authors: &Vec<String>, artists: &Vec<String>) -> (r: Vec<String>)
    ensures
        strings_view(r@) == merge_names(strings_view(authors@), strings_view(artists@)),
{
    let mut combined = crate::text::clone_strings(authors);
    let ghost av = strings_view(artists@);
    for i in 0..artists.len()
        invariant
            av == strings_view(artists@),
            strings_view(combined@) == merge_names(strings_view(authors@), av.take(i as int)),
    {
        assert(av.take(i + 1).drop_last() =~= av.take(i as int));
        let a = &artists[i];
        if !contains_string(&combined, a) {
            proof {
                lemma_strings_view_push(combined@, *a);
            }
            combined.push(a.clone());
        }
    }
    assert(av.take(artists.len() as int) =~= av);
    combined
}

/// What the details table shows in the row of one metadata key.
pub struct MetaCell {
    /// The text of the cell.
    pub text: Option<String>,
    /// The text of the first link in the cell.
    pub link_text: Option<String>,
}

/// The metadata keys shown in the description, in order.
pub open spec fn meta_keys() -> Seq<Seq<char>> {
    seq![
        "Circle"@,
        "Event"@,
        "Magazine"@,
        "Parody"@,
        "Publisher"@,
        "Pages"@,
        "Favorites"@,
    ]
}

/// The text shown for a cell: its own text unless empty, else its link's.
pub open spec fn cell_text(c: MetaCell) -> Option<Seq<char>> {
    match c.text {
        Some(t) => if t@.len() > 0 {
            Some(t@)
        } else {
            opt_view(c.link_text)
        },
        None => opt_view(c.link_text),
    }
}

/// The description lines of the first `n` metadata rows.
pub open spec fn meta_lines(cells: Seq<Option<MetaCell>>, n: nat) -> Seq<Seq<char>>
    decreases n,
{
    if n == 0 {
        Seq::<Seq<char>>::empty()
    } else {
        let rest = meta_lines(cells, (n - 1) as nat);
        let i = n - 1;
        if i < cells.len() {
            match cells[i] {
                Some(c) => match cell_text(c) {
                    Some(t) => rest.push(meta_keys()[i] + ": "@ + t),
                    None => rest,
                },
                None => rest,
            }
        } else {
            rest
        }
    }
}

/// The description of a gallery: one line per metadata row shown, then a
/// blank line and the description text when there is one.
pub open spec fn description_spec(cells: Seq<Option<MetaCell>>, text: Option<Seq<char>>) -> Option<
    Seq<char>,
> {
    let lines = meta_lines(cells, 7);
    let all = match text {
        Some(t) => lines.push(Seq::<char>::empty()).push(t),
        None => lines,
    };
    if all.len() == 0 {
        None
    } else {
        Some(join(all, "\n"@))
    }
}

fn meta_key(i: usize) -> (r: &'static str)
    requires
        i < 7,
    ensures
        r@ == meta_keys()[i as int],
{
    if i == 0 {
        "Circle"
    } else if i == 1 {
        "Event"
    } else if i == 2 {
        "Magazine"
    } else if i == 3 {
        "Parody"
    } else if i == 4 {
        "Publisher"
    } else if i == 5 {
        "Pages"
    } else {
        "Favorites"
    }
}

fn cell_text_exec(c: &MetaCell) -> (r: Option<Vec<char>>)
    ensures
        match r {
            Some(v) => cell_text(*c) == Some(v@),
            None => cell_text(*c) is None,
        },
{
    if let Some(t) = &c.text {
        if !t.as_str().is_empty() {
            return Some(chars_of(t.as_str()));
        }
    }
    match &c.link_text {
        Some(l) => Some(chars_of(l.as_str())),
        None => None,
    }
}

/// The description of a gallery from its metadata rows (`cells[i]` is the
/// row of the `i`-th metadata key, if the table has it) and its description text.
pub fn gallery_description(cells: &Vec<Option<MetaCell>>, text: Option<String>) -> (r: Option<
    String,
>)
    ensures
        opt_view(r) == description_spec(cells@, opt_view(text)),
{
    let mut lines: Vec<Vec<char>> = Vec::new();
    for i in 0..7usize
        invariant
            views(lines@) == meta_lines(cells@, i as nat),
    {
        if i < cells.len() {
            if let Some(c) = &cells[i] {
                if let Some(t) = cell_text_exec(c) {
                    let mut line: Vec<char> = Vec::new();
                    extend_str(&mut line, meta_key(i));
                    extend_str(&mut line, ": ");
                    extend_chars(&mut line, &t);
                    let ghost prev = lines@;
                    lines.push(line);
                    assert(views(lines@) =~= views(prev).push(line@));
                }
            }
        }
    }
    let ghost ml = views(lines@);
    if let Some(t) = text {
        lines.push(Vec::new());
        lines.push(chars_of(t.as_str()));
        assert(views(lines@) =~= ml.push(Seq::<char>::empty()).push(t@));
    }
    if lines.len() == 0 {
        return None;
    }
    let j = join_exec(&lines, "\n");
    Some(string_of(&j))
}

/// What the details table of a gallery page shows.
pub struct DetailsTable {
    pub artists: Vec<String>,
    pub authors: Vec<String>,
    /// The raw tag names, when the table lists tags.
    pub tags: Option<Vec<String>>,
    /// The row of each metadata key, in the order of `meta_keys`.
    pub meta: Vec<Option<MetaCell>>,
    /// The description text, when the table has a description row.
    pub description: Option<String>,
}

/// The tag names without counts.
pub open spec fn stripped_tags(tags: Option<Vec<String>>) -> Option<Seq<Seq<char>>> {
    match tags {
        Some(t) => Some(Seq::new(t.len() as nat, |i: int| strip_tag_count_spec(t@[i]@))),
        None => None,
    }
}

/// The series `manga` with the details read from its gallery page: the
/// heading `title` (the old title when missing), the `cover`, and what the
/// details `table` holds (authors, artists, tags and description stay as
/// they were when the page has no table).
pub fn apply_details(
    manga: Manga,
    title: Option<String>,
    cover: Option<String>,
    table: Option<DetailsTable>,
) -> (m: Manga)
    ensures
        m.key == manga.key,
        m.url == manga.url,
        m.title == match title {
            Some(t) => t,
            None => manga.title,
        },
        m.cover == cover,
        gallery_kind(m),
        table is None ==> m.authors == manga.authors && m.artists == manga.artists && m.tags
            == manga.tags && m.description == manga.description,
        table matches Some(t) ==> {
            &&& opt_list_view(m.authors) == (if merge_names(
                strings_view(t.authors@),
                strings_view(t.artists@),
            ).len() > 0 {
                Some(merge_names(strings_view(t.authors@), strings_view(t.artists@)))
            } else {
                opt_list_view(manga.authors)
            })
            &&& opt_list_view(m.artists) == (if t.artists.len() > 0 {
                Some(strings_view(t.artists@))
            } else {
                opt_list_view(manga.artists)
            })
            &&& opt_list_view(m.tags) == stripped_tags(t.tags)
            &&& opt_view(m.description) == (if description_spec(
                t.meta@,
                opt_view(t.description),
            ) is Some {
                description_spec(t.meta@, opt_view(t.description))
            } else {
                opt_view(manga.description)
            })
        },
{
    let mut m = manga;
    if let Some(t) = title {
        m.title = t;
    }
    m.cover = cover;
    if let Some(t) = table {
        let combined = combine_authors(&t.authors, &t.artists);
        if combined.len() > 0 {
            m.authors = Some(combined);
        }
        if t.artists.len() > 0 {
            m.artists = Some(t.artists);
        }
        m.tags = match &t.tags {
            Some(raw) => {
                let s = strip_tag_counts(raw);
                assert(strings_view(s@) =~= Seq::new(
                    raw.len() as nat,
                    |i: int| strip_tag_count_spec(raw@[i]@),
                ));
                Some(s)
            },
            None => None,
        };
        if let Some(d) = gallery_description(&t.meta, t.description) {
            m.description = Some(d);
        }
    }
    m.status = MangaStatus::Completed;
    m.content_rating = ContentRating::NSFW;
    m.viewer = Viewer::RightToLeft;
    m.update_strategy = UpdateStrategy::Never;
    m
}

/// The single chapter of a gallery.
pub fn gallery_chapter(key: &str, date_uploaded: Option<i64>) -> (c: Chapter)
    ensures
        c.key@ == key@,
        opt_view(c.title) == Some("Chapter"@),
        c.number == Some(1u32),
        c.date_uploaded == date_uploaded,
        opt_view(c.url) == Some("https://hentainexus.com/read/"@ + key@),
{
    let mut k = String::new();
    push_str(&mut k, key);
    let mut title = String::new();
    push_str(&mut title, "Chapter");
    Chapter { key: k, title: Some(title), number: Some(1), date_uploaded, url: Some(read_url(key)) }
}

// ---------------------------------------------------------------------------
// Reader
// ---------------------------------------------------------------------------

/// The base64 argument of `initReader("...", ...)` in a script, when the
/// script calls it: what follows the opening quote, up to `",` or the end.
pub open spec fn reader_payload_spec(script: Seq<char>) -> Option<Seq<char>> {
    if !contains(script, "initReader"@) {
        None
    } else {
        match find(script, "initReader(\""@) {
            None => None,
            Some(i) => {
                let rest = script.skip(i + "initReader(\""@.len());
                let end = match find(rest, "\","@) {
                    Some(e) => e,
                    None => rest.len() as int,
                };
                Some(rest.take(end))
            },
        }
    }
}

/// The base64 argument of `initReader("...", ...)` in a script.
pub fn reader_payload(script: &str) -> (r: Option<String>)
    ensures
        opt_view(r) == reader_payload_spec(script@),
{
    let v = chars_of(script);
    if !contains_exec(&v, "initReader") {
        return None;
    }
    let marker = chars_of("initReader(\"");
    match find_exec(&v, &marker) {
        None => None,
        Some(i) => {
            proof {
                crate::text::lemma_find_from(v@, marker@, 0);
            }
            let n = v.len();
            assert(i + marker.len() <= n);
            let rest = slice_chars(&v, i + marker.len(), v.len());
            assert(rest@ =~= v@.skip(i + marker@.len()));
            let close = chars_of("\",");
            let end = match find_exec(&rest, &close) {
                Some(e) => {
                    proof {
                        crate::text::lemma_find_from(rest@, close@, 0);
                    }
                    e
                },
                None => rest.len(),
            };
            let p = slice_chars(&rest, 0, end);
            assert(p@ =~= rest@.take(end as int));
            Some(string_of(&p))
        },
    }
}

/// One entry of the deciphered page list.
pub struct ReaderPage {
    pub entry_type: String,
    pub image: Option<String>,
}

/// Whether an entry of the page list is an image with an address.
pub open spec fn is_image_page(p: ReaderPage) -> bool {
    p.entry_type@ == "image"@ && p.image is Some
}

/// The image addresses of the image entries, in order.
pub open spec fn image_urls_spec(items: Seq<ReaderPage>) -> Seq<Seq<char>>
    decreases items.len(),
{
    if items.len() == 0 {
        Seq::<Seq<char>>::empty()
    } else {
        let rest = image_urls_spec(items.drop_last());
        let p = items.last();
        if is_image_page(p) {
            rest.push(p.image->0@)
        } else {
            rest
        }
    }
}

/// The image addresses of the image entries of a page list.
pub fn image_pages(items: &Vec<ReaderPage>) -> (r: Vec<String>)
    ensures
        strings_view(r@) == image_urls_spec(items@),
{
    let mut r: Vec<String> = Vec::new();
    assert(strings_view(r@) =~= Seq::<Seq<char>>::empty());
    for i in 0..items.len()
        invariant
            strings_view(r@) == image_urls_spec(items@.take(i as int)),
    {
        assert(items@.take(i + 1).drop_last() =~= items@.take(i as int));
        let p = &items[i];
        if str_eq(p.entry_type.as_str(), "image") {
            if let Some(u) = &p.image {
                proof {
                    lemma_strings_view_push(r@, *u);
                }
                r.push(u.clone());
            }
        }
    }
    assert(items@.take(items.len() as int) =~= items@);
    r
}

// ---------------------------------------------------------------------------
// Deep links
// ---------------------------------------------------------------------------

/// The gallery key named by a link `.../view/{key}[/...]`, when not empty.
pub open spec fn deep_link_spec(url: Seq<char>) -> Option<Seq<char>> {
    match find(url, "/view/"@) {
        Some(i) => {
            let id = split(url.skip(i + 6), '/')[0];
            if id.len() > 0 {
                Some(id)
            } else {
                None
            }
        },
        None => None,
    }
}

/// The gallery key named by a link to a gallery page, if it is one.
pub fn handle_deep_link(url: &str) -> (r: Option<String>)
    ensures
        opt_view(r) == deep_link_spec(url@),
{
    let v = chars_of(url);
    let marker = chars_of("/view/");
    proof {
        reveal_strlit("/view/");
    }
    match find_exec(&v, &marker) {
        Some(i) => {
            proof {
                crate::text::lemma_find_from(v@, marker@, 0);
            }
            let n = v.len();
            assert(i + 6 <= n);
            let rest = slice_chars(&v, i + 6, v.len());
            assert(rest@ =~= v@.skip(i + 6));
            let id = first_piece(&rest, '/');
            if id.len() > 0 {
                Some(string_of(&id))
            } else {
                None
            }
        },
        None => None,
    }
}

} // verus!
