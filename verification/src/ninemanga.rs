//! NineManga: search and list requests, series details, chapters and pages.
use vstd::prelude::*;

use crate::manga::{
    params_view, strings_view, Filter, MangaStatus, Param,
};
use crate::num::{decimal, decimal_i64};
use crate::text::{
    chars_of, contains, contains_exec, extend_chars, extend_str, join, join_exec, push_str,
    replace, replace_exec, str_eq, string_of, strip_prefix, strip_prefix_exec, trim_end_matches,
    trim_end_matches_exec,
};

verus! {

// ---------------------------------------------------------------------------
// Search and lists
// ---------------------------------------------------------------------------

/// The search request for a text query (already URI-encoded).
pub fn query_search_url(encoded_query: &str, page: i32) -> (r: String)
    ensures
        r@ == "https://www.ninemanga.com/search/?wd="@ + encoded_query@ + "&page="@ + decimal(
            page as int,
        ) + "&type=high"@,
{
    let mut v: Vec<char> = Vec::new();
    extend_str(&mut v, "https://www.ninemanga.com/search/?wd=");
    extend_str(&mut v, encoded_query);
    extend_str(&mut v, "&page=");
    let d = decimal_i64(page as i64);
    extend_chars(&mut v, &d);
    extend_str(&mut v, "&type=high");
    string_of(&v)
}

/// The value of a genre parameter: the ids joined by commas, with a
/// trailing comma.
pub open spec fn ids_value(ids: Seq<Seq<char>>) -> Seq<char> {
    join(ids, seq![',']) + seq![',']
}

/// The parameters of one filter, their values not yet encoded.
pub open spec fn one_filter_params(f: Filter) -> Seq<(Seq<char>, Seq<char>)> {
    match f {
        Filter::Select { id, value } => seq![(id@, value@)],
        Filter::MultiSelect { included, excluded, .. } => {
            let inc = strings_view(included@);
            let exc = strings_view(excluded@);
            (if inc.len() > 0 {
                seq![("category_id"@, ids_value(inc))]
            } else {
                Seq::<(Seq<char>, Seq<char>)>::empty()
            }) + (if exc.len() > 0 {
                seq![("out_category_id"@, ids_value(exc))]
            } else {
                Seq::<(Seq<char>, Seq<char>)>::empty()
            })
        },
        _ => Seq::<(Seq<char>, Seq<char>)>::empty(),
    }
}

/// The parameters of all filters, in order.
pub open spec fn filter_params_spec(fs: Seq<Filter>) -> Seq<(Seq<char>, Seq<char>)>
    decreases fs.len(),
{
    if fs.len() == 0 {
        Seq::<(Seq<char>, Seq<char>)>::empty()
    } else {
        filter_params_spec(fs.drop_last()) + one_filter_params(fs.last())
    }
}

fn ids_value_exec(ids: &Vec<String>) -> (r: String)
    ensures
        r@ == ids_value(strings_view(ids@)),
{
    let v = crate::manga::chars_of_all(ids);
    let mut j = join_exec(&v, ",");
    j.push(',');
    proof {
        reveal_strlit(",");
        assert(","@ =~= seq![',']);
    }
    string_of(&j)
}

fn push_param(ps: &mut Vec<Param>, name: String, value: String)
    ensures
        params_view(final(ps)@) == params_view(old(ps)@).push((name@, value@)),
{
    let ghost prev = ps@;
    ps.push(Param { name, value });
    assert(params_view(ps@) =~= params_view(prev).push((name@, value@)));
}

/// The parameters set by the filters of a browse search, their values not
/// yet encoded.
pub fn filter_params(filters: &Vec<Filter>) -> (r: Vec<Param>)
    ensures
        params_view(r@) == filter_params_spec(filters@),
{
    let mut ps: Vec<Param> = Vec::new();
    assert(params_view(ps@) =~= Seq::<(Seq<char>, Seq<char>)>::empty());
    for i in 0..filters.len()
        invariant
            params_view(ps@) == filter_params_spec(filters@.take(i as int)),
    {
        assert(filters@.take(i + 1).drop_last() =~= filters@.take(i as int));
        let ghost before = params_view(ps@);
        match &filters[i] {
            Filter::Select { id, value } => {
                push_param(&mut ps, id.clone(), value.clone());
                assert(params_view(ps@) =~= before + one_filter_params(filters@[i as int]));
            },
            Filter::MultiSelect { included, excluded, .. } => {
                if included.len() > 0 {
                    let mut n = String::new();
                    push_str(&mut n, "category_id");
                    push_param(&mut ps, n, ids_value_exec(included));
                }
                let ghost mid = params_view(ps@);
                if excluded.len() > 0 {
                    let mut n = String::new();
                    push_str(&mut n, "out_category_id");
                    push_param(&mut ps, n, ids_value_exec(excluded));
                }
                assert(params_view(ps@) =~= before + one_filter_params(filters@[i as int]));
            },
            _ => {
                assert(params_view(ps@) =~= before + one_filter_params(filters@[i as int]));
            },
        }
    }
    assert(filters@.take(filters.len() as int) =~= filters@);
    ps
}

pub open spec fn params_text(ps: Seq<(Seq<char>, Seq<char>)>) -> Seq<char>
    decreases ps.len(),
{
    if ps.len() == 0 {
        Seq::<char>::empty()
    } else {
        params_text(ps.drop_last()) + "&"@ + ps.last().0 + "="@ + ps.last().1
    }
}

/// The browse search request for page `page` with the filter parameters
/// `params` (their values already URI-encoded).
pub fn browse_search_url(page: i32, params: &Vec<Param>) -> (r: String)
    ensures
        r@ == "https://www.ninemanga.com/search/?page="@ + decimal(page as int) + "&type=high"@
            + params_text(params_view(params@)),
{
    let mut v: Vec<char> = Vec::new();
    extend_str(&mut v, "https://www.ninemanga.com/search/?page=");
    let d = decimal_i64(page as i64);
    extend_chars(&mut v, &d);
    extend_str(&mut v, "&type=high");
    let ghost head = v@;
    let ghost pv = params_view(params@);
    for i in 0..params.len()
        invariant
            pv == params_view(params@),
            v@ == head + params_text(pv.take(i as int)),
    {
        assert(pv.take(i + 1).drop_last() =~= pv.take(i as int));
        extend_str(&mut v, "&");
        extend_str(&mut v, params[i].name.as_str());
        extend_str(&mut v, "=");
        extend_str(&mut v, params[i].value.as_str());
    }
    assert(pv.take(params.len() as int) =~= pv);
    string_of(&v)
}

/// The request for a list.
pub open spec fn listing_url_spec(id: Seq<char>, page: i32) -> Seq<char> {
    if id == "latest"@ {
        "https://www.ninemanga.com/list/New-Update/"@
    } else if id == "hot"@ {
        "https://www.ninemanga.com/list/Hot-Book/"@
    } else if id == "new"@ {
        "https://www.ninemanga.com/list/New-Book/"@
    } else {
        "https://www.ninemanga.com/category/index_"@ + decimal(page as int) + ".html"@
    }
}

/// The request for a list.
pub fn listing_url(id: &str, page: i32) -> (r: String)
    ensures
        r@ == listing_url_spec(id@, page),
{
    let mut s = String::new();
    if str_eq(id, "latest") {
        push_str(&mut s, "https://www.ninemanga.com/list/New-Update/");
    } else if str_eq(id, "hot") {
        push_str(&mut s, "https://www.ninemanga.com/list/Hot-Book/");
    } else if str_eq(id, "new") {
        push_str(&mut s, "https://www.ninemanga.com/list/New-Book/");
    } else {
        push_str(&mut s, "https://www.ninemanga.com/category/index_");
        let d = decimal_i64(page as i64);
        crate::text::push_chars(&mut s, &d);
        push_str(&mut s, ".html");
    }
    s
}

/// The key of a series from its link: the path after the site address, or
/// the whole link when it points elsewhere.
pub open spec fn series_key_spec(href: Seq<char>) -> Seq<char> {
    match strip_prefix(href, "https://www.ninemanga.com"@) {
        Some(p) => p,
        None => href,
    }
}

/// The key of a series from its link.
pub fn series_key(href: &str) -> (r: String)
    ensures
        r@ == series_key_spec(href@),
{
    let v = chars_of(href);
    match strip_prefix_exec(&v, "https://www.ninemanga.com") {
        Some(p) => string_of(&p),
        None => string_of(&v),
    }
}

// ---------------------------------------------------------------------------
// Series details and chapters
// ---------------------------------------------------------------------------

/// The series page request; `?waring=1` skips the adult-content warning.
pub fn series_page_url(key: &str) -> (r: String)
    ensures
        r@ == "https://www.ninemanga.com"@ + key@ + "?waring=1"@,
{
    let mut s = String::new();
    push_str(&mut s, "https://www.ninemanga.com");
    push_str(&mut s, key);
    push_str(&mut s, "?waring=1");
    s
}

/// The address of a series or chapter page.
pub fn site_url(key: &str) -> (r: String)
    ensures
        r@ == "https://www.ninemanga.com"@ + key@,
{
    let mut s = String::new();
    push_str(&mut s, "https://www.ninemanga.com");
    push_str(&mut s, key);
    s
}

/// A series title without trailing ` Manga` suffixes.
pub fn series_title(s: &str) -> (r: String)
    ensures
        r@ == trim_end_matches(s@, " Manga"@),
{
    let v = chars_of(s);
    let t = trim_end_matches_exec(&v, " Manga");
    string_of(&t)
}

/// The status a status text names.
pub open spec fn parse_status_spec(s: Seq<char>) -> MangaStatus {
    if contains(s, "Ongoing"@) {
        MangaStatus::Ongoing
    } else if contains(s, "Completed"@) {
        MangaStatus::Completed
    } else {
        MangaStatus::Unknown
    }
}

/// The status a status text names.
pub fn parse_status(s: &str) -> (r: MangaStatus)
    ensures
        r == parse_status_spec(s@),
{
    let v = chars_of(s);
    if contains_exec(&v, "Ongoing") {
        MangaStatus::Ongoing
    } else if contains_exec(&v, "Completed") {
        MangaStatus::Completed
    } else {
        MangaStatus::Unknown
    }
}

/// The key of a chapter from its link: the path after the site address
/// (or the whole link), with `%20` turned back into spaces.
pub open spec fn chapter_key_spec(href: Seq<char>) -> Seq<char> {
    replace(series_key_spec(href), "%20"@, " "@)
}

/// The key of a chapter from its link.
pub fn chapter_key(href: &str) -> (r: String)
    ensures
        r@ == chapter_key_spec(href@),
{
    let v = chars_of(href);
    let p = match strip_prefix_exec(&v, "https://www.ninemanga.com") {
        Some(p) => p,
        None => v,
    };
    proof {
        reveal_strlit("%20");
    }
    let k = replace_exec(&p, "%20", " ");
    string_of(&k)
}

// ---------------------------------------------------------------------------
// Pages
// ---------------------------------------------------------------------------

/// Why a chapter has no page list.
#[derive(Debug, Clone, Copy, PartialEq, Eq, Structural)]
pub enum PagesError {
    /// The chapter page offers no page.
    NoPages,
}

/// The addresses of the pages of a chapter from the values of its page
/// selector; an error when there is none.
pub fn page_urls(values: &Vec<String>) -> (r: Result<Vec<String>, PagesError>)
    ensures
        values.len() == 0 ==> r == Err::<Vec<String>, PagesError>(PagesError::NoPages),
        values.len() > 0 ==> (r matches Ok(us) && us.len() == values.len() && forall|i: int|
            0 <= i < us.len() ==> (#[trigger] us@[i])@ == "https://www.ninemanga.com"@
                + values@[i]@),
{
    if values.len() == 0 {
        return Err(PagesError::NoPages);
    }
    let mut us: Vec<String> = Vec::new();
    for i in 0..values.len()
        invariant
            us.len() == i,
            forall|j: int|
                0 <= j < i ==> (#[trigger] us@[j])@ == "https://www.ninemanga.com"@
                    + values@[j]@,
    {
        us.push(site_url(values[i].as_str()));
    }
    Ok(us)
}

} // verus!
