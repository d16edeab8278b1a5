//! SchaleNetwork: search and list requests, book updates, page lists and
//! deep links.
use vstd::prelude::*;

use crate::manga::{
    chars_of_all, lemma_strings_view_push, opt_list_view, opt_view, strings_view,
    Chapter, ContentRating, Filter, Manga, MangaStatus, UpdateStrategy, Viewer,
};
use crate::num::{decimal, decimal_i64};
use crate::schale_models::{
    book_key, shorten_title_spec, manga_from_entry, Books, DataKey, Entry,
    ImagesInfo, MangaDetail,
};
use crate::text::{
    chars_of, extend_chars, extend_str, find, find_exec, join, join_exec, push_str,
    slice_chars, split, split_exec, str_eq, string_of, tokens, tokens_exec, views,
};

verus! {

// ---------------------------------------------------------------------------
// Filters
// ---------------------------------------------------------------------------

/// The API sort id for a position in the sort list.
pub open spec fn sort_for_index(index: i32) -> i32 {
    if index == 0 {
        4
    } else if index == 1 {
        2
    } else if index == 2 {
        3
    } else if index == 3 {
        8
    } else if index == 4 {
        9
    } else {
        4
    }
}

/// The API sort id for a list.
pub open spec fn sort_for_listing(id: Seq<char>) -> i32 {
    if id == "recently-posted"@ {
        4
    } else if id == "most-viewed"@ {
        8
    } else if id == "most-favorited"@ {
        9
    } else {
        4
    }
}

/// The category bit of a category name.
pub open spec fn category_bit(name: Seq<char>) -> u32 {
    if name == "Manga"@ {
        2
    } else if name == "Doujinshi"@ {
        4
    } else if name == "Illustration"@ {
        8
    } else {
        0
    }
}

/// The tag namespace searched by a text filter.
pub open spec fn namespace_of(id: Seq<char>) -> Option<Seq<char>> {
    if id == "artist"@ || id == "circle"@ || id == "parody"@ || id == "magazine"@ || id
        == "character"@ || id == "cosplayer"@ || id == "pages"@ {
        Some(id)
    } else {
        None
    }
}

/// A token asks to exclude when it begins with `-`.
pub open spec fn is_exclusion(t: Seq<char>) -> bool {
    t.len() > 0 && t[0] == '-'
}

/// The search term for a token of namespace `ns`.
pub open spec fn token_term(ns: Seq<char>, t: Seq<char>) -> Seq<char> {
    let body = if is_exclusion(t) {
        t.skip(1)
    } else {
        t
    };
    ns + ":\"^"@ + body + "$\""@
}

/// The terms of the tokens that exclude, or of those that do not.
pub open spec fn text_terms(ns: Seq<char>, toks: Seq<Seq<char>>, exclude: bool) -> Seq<Seq<char>>
    decreases toks.len(),
{
    if toks.len() == 0 {
        Seq::<Seq<char>>::empty()
    } else {
        let rest = text_terms(ns, toks.drop_last(), exclude);
        if is_exclusion(toks.last()) == exclude {
            rest.push(token_term(ns, toks.last()))
        } else {
            rest
        }
    }
}

pub open spec fn filter_terms(f: Filter, exclude: bool) -> Seq<Seq<char>> {
    match f {
        Filter::Text { id, value } => match namespace_of(id@) {
            Some(ns) => text_terms(ns, tokens(value@), exclude),
            None => Seq::<Seq<char>>::empty(),
        },
        _ => Seq::<Seq<char>>::empty(),
    }
}

/// The terms of all text filters, in order.
pub open spec fn all_terms(fs: Seq<Filter>, exclude: bool) -> Seq<Seq<char>>
    decreases fs.len(),
{
    if fs.len() == 0 {
        Seq::<Seq<char>>::empty()
    } else {
        all_terms(fs.drop_last(), exclude) + filter_terms(fs.last(), exclude)
    }
}

/// The sort chosen by the last sort filter (recently posted by default).
pub open spec fn sort_of(fs: Seq<Filter>) -> i32
    decreases fs.len(),
{
    if fs.len() == 0 {
        4
    } else {
        match fs.last() {
            Filter::Sort { index } => sort_for_index(index),
            _ => sort_of(fs.drop_last()),
        }
    }
}

pub open spec fn names_mask(names: Seq<Seq<char>>) -> u32
    decreases names.len(),
{
    if names.len() == 0 {
        0
    } else {
        names_mask(names.drop_last()) | category_bit(names.last())
    }
}

/// The categories included by the multi-select filters, as a bit mask.
pub open spec fn categories_of(fs: Seq<Filter>) -> u32
    decreases fs.len(),
{
    if fs.len() == 0 {
        0
    } else {
        let m = categories_of(fs.drop_last());
        match fs.last() {
            Filter::MultiSelect { included, .. } => m | names_mask(strings_view(included@)),
            _ => m,
        }
    }
}

/// The query text as a search part, when it is not empty.
pub open spec fn query_part(query: Option<String>) -> Seq<Seq<char>> {
    match query {
        Some(q) => if q@.len() > 0 {
            seq![q@]
        } else {
            Seq::<Seq<char>>::empty()
        },
        None => Seq::<Seq<char>>::empty(),
    }
}

/// What a search asks of the book list.
pub struct BooksQuery {
    pub sort: i32,
    pub categories: u32,
    /// The parts of the search text: the query, then the included terms.
    pub search: Vec<String>,
    /// The excluded terms.
    pub exclude: Vec<String>,
}

pub fn sort_for_index_exec(index: i32) -> (r: i32)
    ensures
        r == sort_for_index(index),
{
    if index == 0 {
        4
    } else if index == 1 {
        2
    } else if index == 2 {
        3
    } else if index == 3 {
        8
    } else if index == 4 {
        9
    } else {
        4
    }
}

/// The API sort id for a list.
pub fn listing_sort(id: &str) -> (r: i32)
    ensures
        r == sort_for_listing(id@),
{
    if str_eq(id, "recently-posted") {
        4
    } else if str_eq(id, "most-viewed") {
        8
    } else if str_eq(id, "most-favorited") {
        9
    } else {
        4
    }
}

pub fn category_bit_exec(name: &str) -> (r: u32)
    ensures
        r == category_bit(name@),
{
    if str_eq(name, "Manga") {
        2
    } else if str_eq(name, "Doujinshi") {
        4
    } else if str_eq(name, "Illustration") {
        8
    } else {
        0
    }
}

/// The tag namespace searched by a text filter.
pub fn filter_id_to_namespace(id: &str) -> (r: Option<&'static str>)
    ensures
        r matches Some(n) ==> namespace_of(id@) == Some(n@),
        r is None ==> namespace_of(id@) is None,
{
    if str_eq(id, "artist") {
        Some("artist")
    } else if str_eq(id, "circle") {
        Some("circle")
    } else if str_eq(id, "parody") {
        Some("parody")
    } else if str_eq(id, "magazine") {
        Some("magazine")
    } else if str_eq(id, "character") {
        Some("character")
    } else if str_eq(id, "cosplayer") {
        Some("cosplayer")
    } else if str_eq(id, "pages") {
        Some("pages")
    } else {
        None
    }
}

fn token_term_exec(ns: &str, t: &Vec<char>) -> (r: String)
    ensures
        r@ == token_term(ns@, t@),
{
    let mut v: Vec<char> = Vec::new();
    extend_str(&mut v, ns);
    extend_str(&mut v, ":\"^");
    if t.len() > 0 && t[0] == '-' {
        let body = slice_chars(t, 1, t.len());
        assert(body@ =~= t@.skip(1));
        extend_chars(&mut v, &body);
    } else {
        extend_chars(&mut v, t);
    }
    extend_str(&mut v, "$\"");
    string_of(&v)
}

/// Collects the terms of one filter into the included and excluded lists.
fn collect_terms(f: &Filter, incl: &mut Vec<String>, excl: &mut Vec<String>)
    ensures
        strings_view(final(incl)@) == strings_view(old(incl)@) + filter_terms(*f, false),
        strings_view(final(excl)@) == strings_view(old(excl)@) + filter_terms(*f, true),
{
    if let Filter::Text { id, value } = f {
        if let Some(ns) = filter_id_to_namespace(id.as_str()) {
            let toks = tokens_exec(value.as_str());
            let ghost tv = views(toks@);
            let ghost inc0 = strings_view(incl@);
            let ghost exc0 = strings_view(excl@);
            for i in 0..toks.len()
                invariant
                    tv == views(toks@),
                    namespace_of(id@) == Some(ns@),
                    strings_view(incl@) == inc0 + text_terms(ns@, tv.take(i as int), false),
                    strings_view(excl@) == exc0 + text_terms(ns@, tv.take(i as int), true),
            {
                assert(tv.take(i + 1).drop_last() =~= tv.take(i as int));
                let t = &toks[i];
                let term = token_term_exec(ns, t);
                if t.len() > 0 && t[0] == '-' {
                    proof {
                        lemma_strings_view_push(excl@, term);
                    }
                    excl.push(term);
                } else {
                    proof {
                        lemma_strings_view_push(incl@, term);
                    }
                    incl.push(term);
                }
            }
            assert(tv.take(toks.len() as int) =~= tv);
            return;
        }
    }
    assert(strings_view(incl@) + filter_terms(*f, false) =~= strings_view(incl@));
    assert(strings_view(excl@) + filter_terms(*f, true) =~= strings_view(excl@));
}

fn names_mask_exec(names: &Vec<String>) -> (r: u32)
    ensures
        r == names_mask(strings_view(names@)),
{
    let mut m: u32 = 0;
    for i in 0..names.len()
        invariant
            m == names_mask(strings_view(names@).take(i as int)),
    {
        assert(strings_view(names@).take(i + 1).drop_last() =~= strings_view(names@).take(
            i as int,
        ));
        m = m | category_bit_exec(names[i].as_str());
    }
    assert(strings_view(names@).take(names.len() as int) =~= strings_view(names@));
    m
}

/// What a search with text `query` and filters `filters` asks of the book list.
pub fn books_query(query: Option<String>, filters: &Vec<Filter>) -> (q: BooksQuery)
    ensures
        q.sort == sort_of(filters@),
        q.categories == categories_of(filters@),
        strings_view(q.search@) == query_part(query) + all_terms(filters@, false),
        strings_view(q.exclude@) == all_terms(filters@, true),
{
    let mut sort: i32 = 4;
    let mut cats: u32 = 0;
    let mut incl: Vec<String> = Vec::new();
    let mut exclude: Vec<String> = Vec::new();
    assert(strings_view(incl@) =~= Seq::<Seq<char>>::empty());
    for i in 0..filters.len()
        invariant
            sort == sort_of(filters@.take(i as int)),
            cats == categories_of(filters@.take(i as int)),
            strings_view(incl@) == all_terms(filters@.take(i as int), false),
            strings_view(exclude@) == all_terms(filters@.take(i as int), true),
    {
        assert(filters@.take(i + 1).drop_last() =~= filters@.take(i as int));
        let f = &filters[i];
        match f {
            Filter::Sort { index } => {
                sort = sort_for_index_exec(*index);
            },
            Filter::MultiSelect { included, .. } => {
                cats = cats | names_mask_exec(included);
            },
            _ => {},
        }
        collect_terms(f, &mut incl, &mut exclude);
    }
    assert(filters@.take(filters.len() as int) =~= filters@);
    let mut search: Vec<String> = Vec::new();
    if let Some(q) = query {
        if !q.as_str().is_empty() {
            search.push(q);
        }
    }
    assert(strings_view(search@) =~= query_part(query));
    let ghost s0 = search@;
    crate::manga::append_strings(&mut search, &incl);
    proof {
        crate::manga::lemma_strings_view_add(s0, incl@);
    }
    BooksQuery { sort, categories: cats, search, exclude }
}

/// The terms joined by spaces, or `None` when there is none.
pub fn join_terms(terms: &Vec<String>) -> (r: Option<String>)
    ensures
        r matches Some(s) ==> terms.len() > 0 && s@ == join(strings_view(terms@), seq![' ']),
        r is None ==> terms.len() == 0,
{
    if terms.len() == 0 {
        return None;
    }
    let v = chars_of_all(terms);
    let j = join_exec(&v, " ");
    proof {
        reveal_strlit(" ");
        assert(" "@ =~= seq![' ']);
    }
    Some(string_of(&j))
}

// ---------------------------------------------------------------------------
// Request URLs
// ---------------------------------------------------------------------------

pub open spec fn opt_param(name: Seq<char>, value: Option<Seq<char>>) -> Seq<char> {
    match value {
        Some(v) => name + v,
        None => Seq::<char>::empty(),
    }
}

pub open spec fn str_opt_view(o: Option<&str>) -> Option<Seq<char>> {
    match o {
        Some(s) => Some(s@),
        None => None,
    }
}

/// The book list request; `search`, `exclude` and `language` are already
/// URI-encoded.
pub open spec fn books_url_spec(
    page: i32,
    sort: i32,
    search: Option<Seq<char>>,
    exclude: Option<Seq<char>>,
    categories: u32,
    language: Option<Seq<char>>,
) -> Seq<char> {
    "https://api.schale.network/books?page="@ + decimal(page as int) + "&sort="@ + decimal(
        sort as int,
    ) + "&limit=25"@ + opt_param("&s="@, search) + opt_param("&exclude="@, exclude) + (if categories
        != 0 {
        "&cat="@ + decimal(categories as int)
    } else {
        Seq::<char>::empty()
    }) + opt_param("&s="@, language)
}

fn extend_opt_param(v: &mut Vec<char>, name: &str, value: Option<&str>)
    ensures
        final(v)@ == old(v)@ + opt_param(name@, str_opt_view(value)),
{
    if let Some(x) = value {
        extend_str(v, name);
        extend_str(v, x);
    } else {
        assert(old(v)@ + opt_param(name@, str_opt_view(value)) =~= old(v)@);
    }
}

/// The book list request; `search`, `exclude` and `language` are already
/// URI-encoded.
pub fn books_url(
    page: i32,
    sort: i32,
    search: Option<&str>,
    exclude: Option<&str>,
    categories: u32,
    language: Option<&str>,
) -> (r: String)
    ensures
        r@ == books_url_spec(
            page,
            sort,
            str_opt_view(search),
            str_opt_view(exclude),
            categories,
            str_opt_view(language),
        ),
{
    let mut v: Vec<char> = Vec::new();
    extend_str(&mut v, "https://api.schale.network/books?page=");
    let p = decimal_i64(page as i64);
    extend_chars(&mut v, &p);
    extend_str(&mut v, "&sort=");
    let s = decimal_i64(sort as i64);
    extend_chars(&mut v, &s);
    extend_str(&mut v, "&limit=25");
    extend_opt_param(&mut v, "&s=", search);
    extend_opt_param(&mut v, "&exclude=", exclude);
    let ghost before_cat = v@;
    if categories != 0 {
        extend_str(&mut v, "&cat=");
        let c = decimal_i64(categories as i64);
        extend_chars(&mut v, &c);
    } else {
        assert(v@ =~= before_cat + Seq::<char>::empty());
    }
    extend_opt_param(&mut v, "&s=", language);
    string_of(&v)
}

/// What `str::to_lowercase` gives for a text.
pub uninterp spec fn str_to_lowercase(s: Seq<char>) -> Seq<char>;

/// Calls `str::to_lowercase`, whose text `str_to_lowercase` names.
#[verifier::external_body]
fn to_lowercase(s: &str) -> (r: String)
    ensures
        r@ == str_to_lowercase(s@),
{
    s.to_lowercase()
}

pub open spec fn language_term_spec(lang: Option<Seq<char>>) -> Option<Seq<char>> {
    match lang {
        Some(l) => if l != "All"@ && l.len() > 0 {
            Some("language:\"^"@ + str_to_lowercase(l) + "$\""@)
        } else {
            None
        },
        None => None,
    }
}

/// The search term for a language, given its lower-case name.
pub fn language_term_for(lowercase: &str) -> (r: String)
    ensures
        r@ == "language:\"^"@ + lowercase@ + "$\""@,
{
    let mut t = String::new();
    push_str(&mut t, "language:\"^");
    push_str(&mut t, lowercase);
    push_str(&mut t, "$\"");
    t
}

/// The search term for the chosen language, unless it is all languages.
pub fn language_term(lang: Option<String>) -> (r: Option<String>)
    ensures
        opt_view(r) == language_term_spec(opt_view(lang)),
{
    match lang {
        Some(l) => {
            if !str_eq(l.as_str(), "All") && !l.as_str().is_empty() {
                let low = to_lowercase(l.as_str());
                Some(language_term_for(low.as_str()))
            } else {
                None
            }
        },
        None => None,
    }
}

// ---------------------------------------------------------------------------
// Book list pages
// ---------------------------------------------------------------------------

/// A title without bracketed parts, its words separated by single spaces
/// (as `shorten_title` makes it; the list pages use this one).
pub fn shorten_title_if(title: &str) -> (r: String)
    ensures
        r@ == shorten_title_spec(title@),
{
    let s = chars_of(title);
    let mut out: Vec<char> = Vec::new();
    let mut depth: usize = 0;
    let mut i: usize = 0;
    while i < s.len()
        invariant
            i <= s.len(),
            depth <= i,
            depth == crate::schale_models::bracket_depth(s@.take(i as int)),
            out@ == crate::schale_models::strip_brackets(s@.take(i as int)),
        decreases s.len() - i,
    {
        let c = s[i];
        assert(s@.take(i + 1).drop_last() =~= s@.take(i as int));
        if c == '[' || c == '(' || c == '{' {
            depth = depth + 1;
        } else if c == ']' || c == ')' || c == '}' {
            if depth > 0 {
                depth = depth - 1;
            }
        } else if depth == 0 {
            out.push(c);
        }
        i = i + 1;
    }
    assert(s@.take(s.len() as int) =~= s@);
    let r = crate::text::squeeze_ws_exec(&out);
    string_of(&r)
}

/// A series made from an entry of the list, as `manga_from_entry` makes it,
/// its title shortened when `remove_brackets` holds.
pub open spec fn listed_manga(m: Manga, e: Entry, remove_brackets: bool) -> bool {
    &&& m.key@ == book_key(e.id, e.key@)
    &&& m.title@ == (if remove_brackets {
        shorten_title_spec(e.title@)
    } else {
        e.title@
    })
    &&& opt_view(m.cover) == Some(e.thumbnail.path@)
    &&& opt_view(m.url) == Some("https://niyaniya.moe/g/"@ + book_key(e.id, e.key@))
    &&& m.artists is None
    &&& m.authors is None
    &&& m.description is None
    &&& m.tags is None
    &&& m.status == MangaStatus::Completed
    &&& m.content_rating == ContentRating::NSFW
    &&& m.viewer == Viewer::Unknown
    &&& m.update_strategy == UpdateStrategy::Never
}

/// Whether another page follows the page `page` of `limit` books out of `total`.
pub fn has_next_page(page: i32, limit: i32, total: i32) -> (r: bool)
    ensures
        r == (page * limit < total),
{
    assert(-2147483648 <= page <= 2147483647 && -2147483648 <= limit <= 2147483647 ==> -4611686018427387904 <= page * limit <= 4611686018427387904) by (nonlinear_arith);
    (page as i64) * (limit as i64) < total as i64
}

/// The series of a page of the book list, and whether another page follows.
pub fn books_page(books: Books, remove_brackets: bool) -> (r: (Vec<Manga>, bool))
    ensures
        r.1 == (books.page * books.limit < books.total),
        r.0.len() == books.entries.len(),
        forall|i: int|
            0 <= i < r.0.len() ==> listed_manga(#[trigger] r.0@[i], books.entries@[i], remove_brackets),
{
    let next = has_next_page(books.page, books.limit, books.total);
    let ghost es = books.entries@;
    let mut entries = books.entries;
    let mut out: Vec<Manga> = Vec::new();
    let mut rev: Vec<Entry> = Vec::new();
    while entries.len() > 0
        invariant
            es == entries@ + rev@.reverse(),
        decreases entries.len(),
    {
        let e = entries.pop().unwrap();
        let ghost before = rev@;
        rev.push(e);
        assert(rev@.reverse() =~= seq![e] + before.reverse());
        assert(es =~= entries@ + rev@.reverse());
    }
    let ghost rs = rev@;
    assert(es =~= rs.reverse());
    while rev.len() > 0
        invariant
            es == rs.reverse(),
            rev@ == rs.take(rev.len() as int),
            out.len() + rev.len() == es.len(),
            forall|i: int| 0 <= i < out.len() ==> listed_manga(#[trigger] out@[i], es[i], remove_brackets),
        decreases rev.len(),
    {
        let e = rev.pop().unwrap();
        assert(e == es[out.len() as int]);
        let mut m = manga_from_entry(e);
        if remove_brackets {
            m.title = shorten_title_if(m.title.as_str());
        }
        out.push(m);
        assert(rs.take(rev.len() as int) =~= rs.take(rev.len() + 1).drop_last());
    }
    (out, next)
}

// ---------------------------------------------------------------------------
// Keys, updates and pages
// ---------------------------------------------------------------------------

/// Why a stored book key cannot be used.
#[derive(Debug, Clone, Copy, PartialEq, Eq, Structural)]
pub enum KeyError {
    /// The key has no `/` separating the id from the book key.
    MissingKey,
}

/// The id and key parts of a book key `{id}/{key}`, split at the first `/`.
pub open spec fn split_key_spec(k: Seq<char>) -> Result<(Seq<char>, Seq<char>), KeyError> {
    match find(k, seq!['/']) {
        Some(i) => Ok((k.take(i), k.skip(i + 1))),
        None => Err(KeyError::MissingKey),
    }
}

/// Splits a book key like `12345/abc123` into its id and key.
pub fn split_key(key: &str) -> (r: Result<(String, String), KeyError>)
    ensures
        match r {
            Ok((a, b)) => split_key_spec(key@) == Ok::<(Seq<char>, Seq<char>), KeyError>((a@, b@)),
            Err(e) => split_key_spec(key@) == Err::<(Seq<char>, Seq<char>), KeyError>(e),
        },
{
    let v = chars_of(key);
    let mut slash: Vec<char> = Vec::new();
    slash.push('/');
    assert(slash@ =~= seq!['/']);
    match find_exec(&v, &slash) {
        Some(i) => {
            proof {
                crate::text::lemma_find_from(v@, slash@, 0);
                assert(crate::text::matches_at(v@, slash@, i as int));
                assert(i + 1 <= v@.len());
            }
            let n = v.len();
            assert(i + 1 <= n);
            let a = slice_chars(&v, 0, i);
            let b = slice_chars(&v, i + 1, v.len());
            assert(a@ =~= v@.take(i as int));
            assert(b@ =~= v@.skip(i + 1));
            Ok((string_of(&a), string_of(&b)))
        },
        None => Err(KeyError::MissingKey),
    }
}

/// The detail request of a book (the same address serves its page data).
pub fn detail_url(id: &str, key: &str) -> (r: String)
    ensures
        r@ == "https://api.schale.network/books/detail/"@ + id@ + "/"@ + key@,
{
    let mut s = String::new();
    push_str(&mut s, "https://api.schale.network/books/detail/");
    push_str(&mut s, id);
    push_str(&mut s, "/");
    push_str(&mut s, key);
    s
}

/// The series `manga` refreshed from its detail, and its single chapter.
/// With `needs_details` the shown fields come from `MangaDetail::to_manga`;
/// the key and address of `manga` stay.
pub fn manga_update(
    manga: Manga,
    detail: &MangaDetail,
    id: &str,
    key: &str,
    needs_details: bool,
    needs_chapters: bool,
    remove_brackets: bool,
) -> (r: (Manga, Option<Vec<Chapter>>))
    ensures
        r.0.key == manga.key,
        r.0.url == manga.url,
        !needs_details ==> r.0 == manga,
        needs_details ==> {
            &&& r.0.title@ == (if remove_brackets {
                shorten_title_spec(detail.title@)
            } else {
                detail.title@
            })
            &&& opt_view(r.0.cover) == Some(detail.thumbnails.base@ + detail.thumbnails.main.path@)
            &&& opt_view(r.0.description) == Some(
                crate::schale_models::description_spec(
                    detail.tags@,
                    detail.thumbnails.entries.len() as nat,
                ),
            )
            &&& opt_list_view(r.0.authors) == crate::schale_models::nonempty_list(
                crate::schale_models::author_names(detail.tags@),
            )
            &&& opt_list_view(r.0.artists) == crate::schale_models::nonempty_list(
                crate::schale_models::bucket(detail.tags@, 1),
            )
            &&& opt_list_view(r.0.tags) == crate::schale_models::nonempty_list(
                crate::schale_models::all_tags(detail.tags@),
            )
            &&& r.0.status == MangaStatus::Completed
            &&& r.0.content_rating == ContentRating::NSFW
            &&& r.0.viewer == Viewer::RightToLeft
            &&& r.0.update_strategy == UpdateStrategy::Never
        },
        !needs_chapters ==> r.1 is None,
        needs_chapters ==> (r.1 matches Some(cs) && cs.len() == 1 && {
            let c = cs@[0];
            &&& c.key == manga.key
            &&& opt_view(c.title) == Some("Chapter"@)
            &&& c.number == Some(1u32)
            &&& c.date_uploaded == Some(
                match detail.updated_at {
                    Some(t) => t,
                    None => detail.created_at,
                },
            )
            &&& opt_view(c.url) == Some("https://schale.network/g/"@ + id@ + "/"@ + key@)
        }),
{
    let mut manga = manga;
    if needs_details {
        let updated = detail.to_manga(remove_brackets);
        manga.title = updated.title;
        manga.cover = updated.cover;
        manga.description = updated.description;
        manga.authors = updated.authors;
        manga.artists = updated.artists;
        manga.tags = updated.tags;
        manga.status = updated.status;
        manga.content_rating = updated.content_rating;
        manga.viewer = updated.viewer;
        manga.update_strategy = updated.update_strategy;
    }
    let chapters = if needs_chapters {
        let mut url = String::new();
        push_str(&mut url, "https://schale.network/g/");
        push_str(&mut url, id);
        push_str(&mut url, "/");
        push_str(&mut url, key);
        let mut title = String::new();
        push_str(&mut title, "Chapter");
        let c = Chapter {
            key: manga.key.clone(),
            title: Some(title),
            number: Some(1),
            date_uploaded: Some(detail.date()),
            url: Some(url),
        };
        let mut cs: Vec<Chapter> = Vec::new();
        cs.push(c);
        Some(cs)
    } else {
        None
    };
    (manga, chapters)
}

/// Why the page list of a book cannot be requested.
#[derive(Debug, Clone, Copy, PartialEq, Eq, Structural)]
pub enum PageError {
    MissingImageId,
    MissingImageKey,
}

/// The id and key of the chosen image set.
pub fn image_set_parts(k: &DataKey) -> (r: Result<(i32, String), PageError>)
    ensures
        match r {
            Ok((id, key)) => k.id == Some(id) && opt_view(k.key) == Some(key@),
            Err(PageError::MissingImageId) => k.id is None,
            Err(PageError::MissingImageKey) => k.id is Some && k.key is None,
        },
{
    match k.id {
        None => Err(PageError::MissingImageId),
        Some(id) => match &k.key {
            None => Err(PageError::MissingImageKey),
            Some(key) => Ok((id, key.clone())),
        },
    }
}

/// The image list request of a book for an image set of width `label`,
/// with the clearance token when there is one.
pub fn images_url(
    id: &str,
    key: &str,
    img_id: i32,
    img_key: &str,
    label: &str,
    clearance: Option<String>,
) -> (r: String)
    ensures
        r@ == "https://api.schale.network/books/data/"@ + id@ + "/"@ + key@ + "/"@ + decimal(
            img_id as int,
        ) + "/"@ + img_key@ + "/"@ + label@ + opt_param("?crt="@, opt_view(clearance)),
{
    let mut v: Vec<char> = Vec::new();
    extend_str(&mut v, "https://api.schale.network/books/data/");
    extend_str(&mut v, id);
    extend_str(&mut v, "/");
    extend_str(&mut v, key);
    extend_str(&mut v, "/");
    let d = decimal_i64(img_id as i64);
    extend_chars(&mut v, &d);
    extend_str(&mut v, "/");
    extend_str(&mut v, img_key);
    extend_str(&mut v, "/");
    extend_str(&mut v, label);
    match clearance {
        Some(c) => {
            extend_str(&mut v, "?crt=");
            extend_str(&mut v, c.as_str());
        },
        None => {},
    }
    string_of(&v)
}

/// The address of one image: the base and path, with the width asked for
/// unless the set is the original one (`0`) or no width is given.
pub open spec fn image_url_spec(base: Seq<char>, path: Seq<char>, label: Seq<char>) -> Seq<char> {
    if label == "0"@ || label.len() == 0 {
        base + path
    } else {
        base + path + "?w="@ + label
    }
}

/// The addresses of the pages of a book.
pub fn page_urls(images: &ImagesInfo, label: &str) -> (r: Vec<String>)
    ensures
        r.len() == images.entries.len(),
        forall|i: int|
            0 <= i < r.len() ==> (#[trigger] r@[i])@ == image_url_spec(
                images.base@,
                images.entries@[i].path@,
                label@,
            ),
{
    let original = str_eq(label, "0") || label.is_empty();
    let mut r: Vec<String> = Vec::new();
    for i in 0..images.entries.len()
        invariant
            original == (label@ == "0"@ || label@.len() == 0),
            r.len() == i,
            forall|j: int|
                0 <= j < i ==> (#[trigger] r@[j])@ == image_url_spec(
                    images.base@,
                    images.entries@[j].path@,
                    label@,
                ),
    {
        let mut u = String::new();
        push_str(&mut u, images.base.as_str());
        push_str(&mut u, images.entries[i].path.as_str());
        if !original {
            push_str(&mut u, "?w=");
            push_str(&mut u, label);
        }
        r.push(u);
    }
    r
}

// ---------------------------------------------------------------------------
// Deep links
// ---------------------------------------------------------------------------

/// The book key named by a link `.../g/{id}/{key}...`.
pub open spec fn deep_link_spec(url: Seq<char>) -> Option<Seq<char>> {
    match find(url, "/g/"@) {
        Some(i) => {
            let parts = split(url.skip(i + 3), '/');
            if parts.len() >= 2 && parts[0].len() > 0 && parts[1].len() > 0 {
                Some(parts[0] + seq!['/'] + parts[1])
            } else {
                None
            }
        },
        None => None,
    }
}

/// The book key named by a link to a book page, if it is one.
pub fn handle_deep_link(url: &str) -> (r: Option<String>)
    ensures
        opt_view(r) == deep_link_spec(url@),
{
    let v = chars_of(url);
    let marker = chars_of("/g/");
    proof {
        reveal_strlit("/g/");
    }
    match find_exec(&v, &marker) {
        Some(i) => {
            proof {
                crate::text::lemma_find_from(v@, marker@, 0);
                assert(crate::text::matches_at(v@, marker@, i as int));
                assert(marker@.len() == 3);
            }
            let n = v.len();
            assert(i + 3 <= n);
            let rest = slice_chars(&v, i + 3, v.len());
            assert(rest@ =~= v@.skip(i + 3));
            let parts = split_exec(&rest, '/');
            if parts.len() >= 2 && parts[0].len() > 0 && parts[1].len() > 0 {
                let mut k: Vec<char> = Vec::new();
                extend_chars(&mut k, &parts[0]);
                k.push('/');
                extend_chars(&mut k, &parts[1]);
                assert(k@ =~= parts@[0]@ + seq!['/'] + parts@[1]@);
                Some(string_of(&k))
            } else {
                None
            }
        },
        None => None,
    }
}

} // verus!
