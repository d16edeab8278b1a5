//! Properties of the search requests and descriptions that the sources
//! build: which sort a search asks for, what a genre path looks like, and
//! which line of a description carries which list.
use vstd::prelude::*;

use crate::manga::Filter;
use crate::text::{join, matches_at, replace, replace_from};

verus! {

// ---------------------------------------------------------------------------
// SchaleNetwork: the sort of a search
// ---------------------------------------------------------------------------

/// The sort of a SchaleNetwork search (`books_query`) is read from a fixed
/// table by the position of the last sort filter: 0 recently posted (4),
/// 1 title (2), 2 pages (3), 3 most viewed (8), 4 most favourited (9), and
/// recently posted (4) for any other position. Filters after it that are not
/// sort filters change nothing.
pub proof fn law_schale_sort_table(before: Seq<Filter>, index: i32, after: Seq<Filter>)
    requires
        forall|k: int| 0 <= k < after.len() ==> !(after[k] is Sort),
    ensures
        crate::schale::sort_of(before.push(Filter::Sort { index }) + after) == (if 0 <= index
            <= 4 {
            seq![4i32, 2, 3, 8, 9][index as int]
        } else {
            4i32
        }),
    decreases after.len(),
{
    let head = before.push(Filter::Sort { index });
    if after.len() == 0 {
        assert(head + after =~= head);
        assert(head.drop_last() =~= before);
    } else {
        let fs = head + after;
        assert(fs.drop_last() =~= head + after.drop_last());
        assert(fs.last() == after.last());
        assert(!(after[after.len() - 1] is Sort));
        law_schale_sort_table(before, index, after.drop_last());
    }
}

/// A SchaleNetwork search without any sort filter sorts by recently posted (4).
pub proof fn law_schale_sort_default(fs: Seq<Filter>)
    requires
        forall|k: int| 0 <= k < fs.len() ==> !(fs[k] is Sort),
    ensures
        crate::schale::sort_of(fs) == 4,
    decreases fs.len(),
{
    if fs.len() > 0 {
        assert(!(fs[fs.len() - 1] is Sort));
        let d = fs.drop_last();
        assert forall|k: int| 0 <= k < d.len() implies !(d[k] is Sort) by {
            assert(d[k] == fs[k]);
        }
        law_schale_sort_default(d);
    }
}

// ---------------------------------------------------------------------------
// ReadComicOnline: the genre path segment
// ---------------------------------------------------------------------------

/// Replacing every space by a dash leaves no space.
proof fn lemma_replace_spaces_leaves_none(s: Seq<char>, i: int)
    requires
        0 <= i,
    ensures
        forall|k: int|
            0 <= k < replace_from(s, " "@, "-"@, i).len() ==> replace_from(s, " "@, "-"@, i)[k]
                != ' ',
    decreases s.len() - i,
{
    reveal_strlit(" ");
    reveal_strlit("-");
    let r = replace_from(s, " "@, "-"@, i);
    if i >= s.len() {
    } else if matches_at(s, " "@, i) {
        lemma_replace_spaces_leaves_none(s, i + 1);
        let rest = replace_from(s, " "@, "-"@, i + 1);
        assert(r == "-"@ + rest);
        assert forall|k: int| 0 <= k < r.len() implies r[k] != ' ' by {
            if k > 0 {
                assert(r[k] == rest[k - 1]);
            }
        }
    } else {
        lemma_replace_spaces_leaves_none(s, i + 1);
        let rest = replace_from(s, " "@, "-"@, i + 1);
        assert(r == seq![s[i]] + rest);
        if s[i] == ' ' {
            assert(s.subrange(i, i + 1) =~= " "@);
        }
        assert forall|k: int| 0 <= k < r.len() implies r[k] != ' ' by {
            if k > 0 {
                assert(r[k] == rest[k - 1]);
            }
        }
    }
}

/// Replacing a pattern that does not occur changes nothing.
proof fn lemma_replace_absent(s: Seq<char>, from: Seq<char>, to: Seq<char>, i: int)
    requires
        0 <= i <= s.len(),
        from.len() > 0,
        forall|k: int| i <= k < s.len() ==> !matches_at(s, from, k),
    ensures
        replace_from(s, from, to, i) == s.skip(i),
    decreases s.len() - i,
{
    if i < s.len() {
        lemma_replace_absent(s, from, to, i + 1);
        assert(seq![s[i]] + s.skip(i + 1) =~= s.skip(i));
    } else {
        assert(s.skip(i) =~= Seq::<char>::empty());
    }
}

/// A name without spaces is not changed by the dash replacements of a genre.
proof fn lemma_genre_segment_of_spaceless(g: Seq<char>)
    requires
        forall|k: int| 0 <= k < g.len() ==> g[k] != ' ',
    ensures
        crate::readcomiconline::genre_segment(g) == g,
{
    reveal_strlit(" ");
    reveal_strlit(" & ");
    assert forall|k: int| 0 <= k < g.len() implies !matches_at(g, " & "@, k) by {
        if matches_at(g, " & "@, k) {
            assert(g.subrange(k, k + 3)[0] == g[k]);
        }
    }
    lemma_replace_absent(g, " & "@, "-"@, 0);
    assert(g.skip(0) =~= g);
    assert forall|k: int| 0 <= k < g.len() implies !matches_at(g, " "@, k) by {
        if matches_at(g, " "@, k) {
            assert(g.subrange(k, k + 1)[0] == g[k]);
        }
    }
    lemma_replace_absent(g, " "@, "-"@, 0);
}

/// Browsing a genre on ReadComicOnline (`comic_list_target`): when the last
/// filter is a genre filter with a first included genre `g`, the list is
/// that genre's, its path segment is `g` with each ` & ` and then each
/// remaining space replaced by `-`, so it holds no space, and a genre name
/// without spaces is used as it is.
pub proof fn law_genre_path_has_no_space(before: Seq<Filter>, f: Filter)
    requires
        f is MultiSelect,
        f->included@.len() > 0,
    ensures
        crate::readcomiconline::list_of(before.push(f)).0 == crate::readcomiconline::ListKind::Genre,
        forall|k: int|
            0 <= k < crate::readcomiconline::list_of(before.push(f)).1.len()
                ==> crate::readcomiconline::list_of(before.push(f)).1[k] != ' ',
        (forall|k: int| 0 <= k < f->included@[0]@.len() ==> f->included@[0]@[k] != ' ')
            ==> crate::readcomiconline::list_of(before.push(f)).1 == f->included@[0]@,
        crate::readcomiconline::list_of(before.push(f)).1 == replace(
            replace(f->included@[0]@, " & "@, "-"@),
            " "@,
            "-"@,
        ),
{
    let g = f->included@[0]@;
    assert(before.push(f).last() == f);
    lemma_replace_spaces_leaves_none(replace(g, " & "@, "-"@), 0);
    if forall|k: int| 0 <= k < g.len() ==> g[k] != ' ' {
        lemma_genre_segment_of_spaceless(g);
    }
}

/// Browsing on ReadComicOnline (`comic_list_target`, `comic_list_url`):
/// without filters, the comic list by popularity; a last writer (`author`)
/// or artist filter browses that person, spaces turned into `-`; a last sort
/// filter picks `MostPopular` (1), `LatestUpdate` (2), `Newest` (3) or no
/// sort segment; and the genre list lives under `Genre/`.
pub proof fn law_comic_list_choices(before: Seq<Filter>, f: Filter)
    ensures
        crate::readcomiconline::list_of(Seq::<Filter>::empty()) == (
        crate::readcomiconline::ListKind::ComicList,
        Seq::<char>::empty(),
        ),
        crate::readcomiconline::list_sort_of(Seq::<Filter>::empty()) == "MostPopular"@,
        f is Text && f->Text_id@ == "author"@ ==> crate::readcomiconline::list_of(before.push(f))
            == (crate::readcomiconline::ListKind::Writer, replace(f->Text_value@, " "@, "-"@)),
        f is Text && f->Text_id@ == "artist"@ ==> crate::readcomiconline::list_of(before.push(f))
            == (crate::readcomiconline::ListKind::Artist, replace(f->Text_value@, " "@, "-"@)),
        f is Sort ==> crate::readcomiconline::list_sort_of(before.push(f)) == (if f->index == 1 {
            "MostPopular"@
        } else if f->index == 2 {
            "LatestUpdate"@
        } else if f->index == 3 {
            "Newest"@
        } else {
            ""@
        }),
        forall|name: Seq<char>, encoded: Seq<char>|
            crate::readcomiconline::list_path(
                crate::readcomiconline::ListKind::Genre,
                name,
                encoded,
            ) == "Genre/"@ + name,
{
    reveal_strlit("author");
    reveal_strlit("artist");
    assert("author"@.len() == 6 && "artist"@.len() == 6);
    assert("author"@[0] == 'a' && "author"@[1] == 'u' && "artist"@[1] == 'r');
    assert(before.push(f).last() == f);
}

// ---------------------------------------------------------------------------
// Lines of a description
// ---------------------------------------------------------------------------

/// `line` stands as a whole line of `text`: it starts the text or follows a
/// line break, and it ends the text or is followed by one.
pub open spec fn is_line_of(text: Seq<char>, line: Seq<char>) -> bool {
    exists|p: int|
        #![trigger matches_at(text, line, p)]
        matches_at(text, line, p) && (p == 0 || text[p - 1] == '\n') && (p + line.len()
            == text.len() || text[p + line.len()] == '\n')
}

/// Each string of a list joined by line breaks stands as a line of the result.
proof fn lemma_join_line(l: Seq<Seq<char>>, k: int)
    requires
        0 <= k < l.len(),
    ensures
        is_line_of(join(l, "\n"@), l[k]),
    decreases l.len(),
{
    reveal_strlit("\n");
    let t = join(l, "\n"@);
    if l.len() == 1 {
        assert(t.subrange(0, l[0].len() as int) =~= l[0]);
        assert(matches_at(t, l[k], 0));
    } else {
        let front = join(l.drop_last(), "\n"@);
        assert(t == front + "\n"@ + l.last());
        if k == l.len() - 1 {
            let p: int = front.len() + 1int;
            assert(t.subrange(p, p + l[k].len()) =~= l[k]);
            assert(t[p - 1] == '\n');
            assert(matches_at(t, l[k], p));
        } else {
            lemma_join_line(l.drop_last(), k);
            assert(l.drop_last()[k] == l[k]);
            let p = choose|p: int|
                #![trigger matches_at(front, l[k], p)]
                matches_at(front, l[k], p) && (p == 0 || front[p - 1] == '\n') && (p + l[k].len()
                    == front.len() || front[p + l[k].len()] == '\n');
            assert(t.subrange(p, p + l[k].len()) =~= front.subrange(p, p + l[k].len()));
            assert(matches_at(t, l[k], p));
            if p > 0 {
                assert(t[p - 1] == front[p - 1]);
            }
            if p + l[k].len() == front.len() {
                assert(t[p + l[k].len()] == '\n');
            } else {
                assert(t[p + l[k].len()] == front[p + l[k].len()]);
            }
        }
    }
}

/// The line of metadata row `i` is among the lines of the first `n > i` rows.
proof fn lemma_meta_line_kept(
    cells: Seq<Option<crate::hentainexus::MetaCell>>,
    i: int,
    n: nat,
    c: crate::hentainexus::MetaCell,
    t: Seq<char>,
)
    requires
        0 <= i < n,
        i < cells.len(),
        cells[i] == Some(c),
        crate::hentainexus::cell_text(c) == Some(t),
    ensures
        crate::hentainexus::meta_lines(cells, n).contains(
            crate::hentainexus::meta_keys()[i] + ": "@ + t,
        ),
    decreases n,
{
    let line = crate::hentainexus::meta_keys()[i] + ": "@ + t;
    let l = crate::hentainexus::meta_lines(cells, n);
    if n == i + 1 {
        assert(l == crate::hentainexus::meta_lines(cells, i as nat).push(line));
        assert(l[l.len() - 1] == line);
    } else {
        lemma_meta_line_kept(cells, i, (n - 1) as nat, c, t);
        let prev = crate::hentainexus::meta_lines(cells, (n - 1) as nat);
        let j = choose|j: int| 0 <= j < prev.len() && prev[j] == line;
        assert(l == prev || exists|x: Seq<char>| l == prev.push(x));
        if l != prev {
            let x = choose|x: Seq<char>| l == prev.push(x);
            assert(l[j] == line);
        }
    }
}

/// What a row of a HentaiNexus gallery table shows (`gallery_description`):
/// its own text when that is not empty, else the text of its link, else
/// nothing.
pub proof fn law_gallery_cell_text(c: crate::hentainexus::MetaCell)
    ensures
        crate::hentainexus::cell_text(c) == (if c.text is Some && c.text.unwrap()@.len() > 0 {
            Some(c.text.unwrap()@)
        } else if c.link_text is Some {
            Some(c.link_text.unwrap()@)
        } else {
            None::<Seq<char>>
        }),
{
}

/// Each line of a HentaiNexus gallery description (`gallery_description`)
/// carries the name of the row it was read from: when row `i` of the table
/// (in the order Circle, Event, Magazine, Parody, Publisher, Pages,
/// Favorites) shows text `t`, the description holds the line
/// `<name of row i>: t`.
pub proof fn law_gallery_rows_keep_their_names(
    cells: Seq<Option<crate::hentainexus::MetaCell>>,
    text: Option<Seq<char>>,
    i: int,
    c: crate::hentainexus::MetaCell,
    t: Seq<char>,
)
    requires
        0 <= i < 7,
        i < cells.len(),
        cells[i] == Some(c),
        crate::hentainexus::cell_text(c) == Some(t),
    ensures
        crate::hentainexus::description_spec(cells, text) matches Some(d) && is_line_of(
            d,
            seq![
                "Circle"@,
                "Event"@,
                "Magazine"@,
                "Parody"@,
                "Publisher"@,
                "Pages"@,
                "Favorites"@,
            ][i] + ": "@ + t,
        ),
{
    let line = crate::hentainexus::meta_keys()[i] + ": "@ + t;
    lemma_meta_line_kept(cells, i, 7, c, t);
    let lines = crate::hentainexus::meta_lines(cells, 7);
    let k = choose|k: int| 0 <= k < lines.len() && lines[k] == line;
    let all = match text {
        Some(x) => lines.push(Seq::<char>::empty()).push(x),
        None => lines,
    };
    assert(all[k] == line);
    lemma_join_line(all, k);
}

/// A list shown as a labelled line: the label, a colon, and the items
/// separated by commas.
pub open spec fn labelled(label: Seq<char>, items: Seq<Seq<char>>) -> Seq<char> {
    label + ": "@ + join(items, ", "@)
}

/// `x` is empty or ends with a line break.
spec fn ends_line(x: Seq<char>) -> bool {
    x.len() == 0 || x[x.len() - 1] == '\n'
}

proof fn lemma_section_ends_line(label: Seq<char>, items: Seq<Seq<char>>)
    ensures
        ends_line(crate::schale_models::section(label, items)),
{
    reveal_strlit("\n");
}

proof fn lemma_ends_line_concat(a: Seq<char>, b: Seq<char>)
    requires
        ends_line(a),
        ends_line(b),
    ensures
        ends_line(a + b),
{
    if b.len() == 0 {
        assert(a + b =~= a);
    }
}

/// Whatever the page count, the description keeps its head: trimming the
/// end stops at the colon of `Pages: `.
proof fn lemma_head_kept(head: Seq<char>, pages: nat)
    ensures
        ({
            let head2 = if head.len() > 0 {
                head.push('\n')
            } else {
                head
            };
            let full = head2 + "Pages: "@ + crate::num::decimal(pages as int) + "\n"@;
            &&& crate::text::trim_end(full).len() > head.len()
            &&& forall|k: int| 0 <= k < head.len() ==> crate::text::trim_end(full)[k] == head[k]
        }),
{
    reveal_strlit("Pages: ");
    let head2 = if head.len() > 0 {
        head.push('\n')
    } else {
        head
    };
    let full = head2 + "Pages: "@ + crate::num::decimal(pages as int) + "\n"@;
    let idx: int = head2.len() + 5int;
    assert(full[idx] == ':');
    assert(!crate::text::is_ws(':'));
    crate::text::lemma_ws_run_start(full, full.len() as int);
    let w = crate::text::ws_run_start(full, full.len() as int);
    if w <= idx {
        assert(crate::text::is_ws(full[idx]));
    }
    assert forall|k: int| 0 <= k < head.len() implies crate::text::trim_end(full)[k] == head[k] by {
        assert(full[k] == head2[k]);
    }
}

/// A labelled section inside the head of a text stands there as a line.
proof fn lemma_line_in_head(
    d: Seq<char>,
    head: Seq<char>,
    a: Seq<char>,
    line: Seq<char>,
    rest: Seq<char>,
)
    requires
        head == a + (line + "\n"@) + rest,
        d.len() > head.len(),
        forall|k: int| 0 <= k < head.len() ==> d[k] == head[k],
        ends_line(a),
    ensures
        is_line_of(d, line),
{
    reveal_strlit("\n");
    let p = a.len() as int;
    assert forall|j: int| 0 <= j < line.len() implies d.subrange(p, p + line.len())[j]
        == line[j] by {
        assert(head[p + j] == line[j]);
        assert(d[p + j] == head[p + j]);
    }
    assert(d.subrange(p, p + line.len()) =~= line);
    assert(matches_at(d, line, p));
    assert(head[p + line.len()] == '\n');
    if p > 0 {
        assert(head[p - 1] == a[p - 1]);
    }
}

/// The description of a SchaleNetwork book starts with its labelled sections
/// and goes on after them.
proof fn lemma_description_keeps_head(tags: Seq<crate::schale_models::Tag>, pages: nat)
    ensures
        ({
            let head = crate::schale_models::section(
                "Circles"@,
                crate::schale_models::bucket(tags, 2),
            ) + crate::schale_models::section("Uploaders"@, crate::schale_models::bucket(tags, 7))
                + crate::schale_models::section("Magazines"@, crate::schale_models::bucket(tags, 4))
                + crate::schale_models::section("Cosplayers"@, crate::schale_models::bucket(tags, 6))
                + crate::schale_models::section("Parodies"@, crate::schale_models::bucket(tags, 3))
                + crate::schale_models::section(
                "Characters"@,
                crate::schale_models::bucket(tags, 5),
            );
            let d = crate::schale_models::description_spec(tags, pages);
            &&& d.len() > head.len()
            &&& forall|k: int| 0 <= k < head.len() ==> d[k] == head[k]
        }),
{
    let head = crate::schale_models::section("Circles"@, crate::schale_models::bucket(tags, 2))
        + crate::schale_models::section("Uploaders"@, crate::schale_models::bucket(tags, 7))
        + crate::schale_models::section("Magazines"@, crate::schale_models::bucket(tags, 4))
        + crate::schale_models::section("Cosplayers"@, crate::schale_models::bucket(tags, 6))
        + crate::schale_models::section("Parodies"@, crate::schale_models::bucket(tags, 3))
        + crate::schale_models::section("Characters"@, crate::schale_models::bucket(tags, 5));
    lemma_head_kept(head, pages);
}

/// Each labelled line of a SchaleNetwork book description
/// (`MangaDetail::to_manga`) lists the tags of its own namespace: when some
/// tag falls in namespace 2, 7, 4, 6, 3 or 5, the description holds the line
/// `Circles: `, `Uploaders: `, `Magazines: `, `Cosplayers: `, `Parodies: ` or
/// `Characters: ` followed by the shown names of exactly those tags, joined
/// by `, `.
#[verifier::spinoff_prover]
#[verifier::rlimit(30)]
pub proof fn law_schale_description_lines(tags: Seq<crate::schale_models::Tag>, pages: nat)
    ensures
        crate::schale_models::bucket(tags, 2).len() > 0 ==> is_line_of(
            crate::schale_models::description_spec(tags, pages),
            labelled("Circles"@, crate::schale_models::bucket(tags, 2)),
        ),
        crate::schale_models::bucket(tags, 7).len() > 0 ==> is_line_of(
            crate::schale_models::description_spec(tags, pages),
            labelled("Uploaders"@, crate::schale_models::bucket(tags, 7)),
        ),
        crate::schale_models::bucket(tags, 4).len() > 0 ==> is_line_of(
            crate::schale_models::description_spec(tags, pages),
            labelled("Magazines"@, crate::schale_models::bucket(tags, 4)),
        ),
        crate::schale_models::bucket(tags, 6).len() > 0 ==> is_line_of(
            crate::schale_models::description_spec(tags, pages),
            labelled("Cosplayers"@, crate::schale_models::bucket(tags, 6)),
        ),
        crate::schale_models::bucket(tags, 3).len() > 0 ==> is_line_of(
            crate::schale_models::description_spec(tags, pages),
            labelled("Parodies"@, crate::schale_models::bucket(tags, 3)),
        ),
        crate::schale_models::bucket(tags, 5).len() > 0 ==> is_line_of(
            crate::schale_models::description_spec(tags, pages),
            labelled("Characters"@, crate::schale_models::bucket(tags, 5)),
        ),
{
    let b2 = crate::schale_models::bucket(tags, 2);
    let b7 = crate::schale_models::bucket(tags, 7);
    let b4 = crate::schale_models::bucket(tags, 4);
    let b6 = crate::schale_models::bucket(tags, 6);
    let b3 = crate::schale_models::bucket(tags, 3);
    let b5 = crate::schale_models::bucket(tags, 5);
    let s1 = crate::schale_models::section("Circles"@, b2);
    let s2 = crate::schale_models::section("Uploaders"@, b7);
    let s3 = crate::schale_models::section("Magazines"@, b4);
    let s4 = crate::schale_models::section("Cosplayers"@, b6);
    let s5 = crate::schale_models::section("Parodies"@, b3);
    let s6 = crate::schale_models::section("Characters"@, b5);
    let head = s1 + s2 + s3 + s4 + s5 + s6;
    let d = crate::schale_models::description_spec(tags, pages);
    lemma_description_keeps_head(tags, pages);
    lemma_section_ends_line("Circles"@, b2);
    lemma_section_ends_line("Uploaders"@, b7);
    lemma_section_ends_line("Magazines"@, b4);
    lemma_section_ends_line("Cosplayers"@, b6);
    lemma_section_ends_line("Parodies"@, b3);
    lemma_ends_line_concat(s1, s2);
    lemma_ends_line_concat(s1 + s2, s3);
    lemma_ends_line_concat(s1 + s2 + s3, s4);
    lemma_ends_line_concat(s1 + s2 + s3 + s4, s5);
    let e = Seq::<char>::empty();
    if b2.len() > 0 {
        assert(is_line_of(d, labelled("Circles"@, b2))) by {
            assert(head =~= e + s1 + (s2 + s3 + s4 + s5 + s6));
            lemma_line_in_head(d, head, e, labelled("Circles"@, b2), s2 + s3 + s4 + s5 + s6);
        }
    }
    if b7.len() > 0 {
        assert(is_line_of(d, labelled("Uploaders"@, b7))) by {
            assert(head =~= s1 + s2 + (s3 + s4 + s5 + s6));
            lemma_line_in_head(d, head, s1, labelled("Uploaders"@, b7), s3 + s4 + s5 + s6);
        }
    }
    if b4.len() > 0 {
        assert(is_line_of(d, labelled("Magazines"@, b4))) by {
            assert(head =~= (s1 + s2) + s3 + (s4 + s5 + s6));
            lemma_line_in_head(d, head, s1 + s2, labelled("Magazines"@, b4), s4 + s5 + s6);
        }
    }
    if b6.len() > 0 {
        assert(is_line_of(d, labelled("Cosplayers"@, b6))) by {
            assert(head =~= (s1 + s2 + s3) + s4 + (s5 + s6));
            lemma_line_in_head(d, head, s1 + s2 + s3, labelled("Cosplayers"@, b6), s5 + s6);
        }
    }
    if b3.len() > 0 {
        assert(is_line_of(d, labelled("Parodies"@, b3))) by {
            lemma_line_in_head(d, head, s1 + s2 + s3 + s4, labelled("Parodies"@, b3), s6);
        }
    }
    if b5.len() > 0 {
        assert(is_line_of(d, labelled("Characters"@, b5))) by {
            assert(head =~= (s1 + s2 + s3 + s4 + s5) + s6 + e);
            lemma_line_in_head(d, head, s1 + s2 + s3 + s4 + s5, labelled("Characters"@, b5), e);
        }
    }
}

/// Listing one more tag of a SchaleNetwork book (`MangaDetail::to_manga`):
/// it joins the end of the list of its own namespace, shown with each word
/// capitalized and marked ` ♂` in namespace 8 or ` ♀` in namespace 9, unless
/// it is the uploader `anonymous`; every other list stays as it was.
pub proof fn law_schale_tag_lists(
    tags: Seq<crate::schale_models::Tag>,
    t: crate::schale_models::Tag,
    ns: i32,
)
    ensures
        crate::schale_models::bucket(tags.push(t), ns) == (if t.namespace == ns && !(ns == 7
            && t.name@ == "anonymous"@) {
            crate::schale_models::bucket(tags, ns).push(
                crate::schale_models::capitalize_each_spec(t.name@) + (if ns == 8 {
                    " ♂"@
                } else if ns == 9 {
                    " ♀"@
                } else {
                    Seq::<char>::empty()
                }),
            )
        } else {
            crate::schale_models::bucket(tags, ns)
        }),
{
    assert(tags.push(t).drop_last() =~= tags);
    let n = crate::schale_models::capitalize_each_spec(t.name@);
    assert(n + Seq::<char>::empty() =~= n);
}

/// The labelled lines of the lists of namespaces `nss[..n]`, in order, each
/// followed by a line break; a namespace without tags gives no line.
pub open spec fn labelled_lines(
    tags: Seq<crate::schale_models::Tag>,
    labels: Seq<Seq<char>>,
    nss: Seq<i32>,
    n: nat,
) -> Seq<char>
    decreases n,
{
    if n == 0 {
        Seq::<char>::empty()
    } else {
        let b = crate::schale_models::bucket(tags, nss[n - 1]);
        labelled_lines(tags, labels, nss, (n - 1) as nat) + (if b.len() > 0 {
            labelled(labels[n - 1], b) + "\n"@
        } else {
            Seq::<char>::empty()
        })
    }
}

/// The whole description of a SchaleNetwork book (`MangaDetail::to_manga`):
/// the lines of Circles (namespace 2), Uploaders (7), Magazines (4),
/// Cosplayers (6), Parodies (3) and Characters (5), in this order, each when
/// its list is not empty; a blank line after them when there is any; then
/// `Pages: ` and the page count.
#[verifier::spinoff_prover]
pub proof fn law_schale_description_exact(tags: Seq<crate::schale_models::Tag>, pages: nat)
    ensures
        crate::schale_models::description_spec(tags, pages) == ({
            let h = labelled_lines(
                tags,
                seq![
                    "Circles"@,
                    "Uploaders"@,
                    "Magazines"@,
                    "Cosplayers"@,
                    "Parodies"@,
                    "Characters"@,
                ],
                seq![2i32, 7, 4, 6, 3, 5],
                6,
            );
            (if h.len() > 0 {
                h + "\n"@
            } else {
                h
            }) + "Pages: "@ + crate::num::decimal(pages as int)
        }),
{
    reveal_strlit("\n");
    let labels = seq!["Circles"@, "Uploaders"@, "Magazines"@, "Cosplayers"@, "Parodies"@, "Characters"@];
    let nss = seq![2i32, 7, 4, 6, 3, 5];
    let s1 = crate::schale_models::section("Circles"@, crate::schale_models::bucket(tags, 2));
    let s2 = crate::schale_models::section("Uploaders"@, crate::schale_models::bucket(tags, 7));
    let s3 = crate::schale_models::section("Magazines"@, crate::schale_models::bucket(tags, 4));
    let s4 = crate::schale_models::section("Cosplayers"@, crate::schale_models::bucket(tags, 6));
    let s5 = crate::schale_models::section("Parodies"@, crate::schale_models::bucket(tags, 3));
    let s6 = crate::schale_models::section("Characters"@, crate::schale_models::bucket(tags, 5));
    let head = s1 + s2 + s3 + s4 + s5 + s6;
    let l0 = labelled_lines(tags, labels, nss, 0);
    let l1 = labelled_lines(tags, labels, nss, 1);
    let l2 = labelled_lines(tags, labels, nss, 2);
    let l3 = labelled_lines(tags, labels, nss, 3);
    let l4 = labelled_lines(tags, labels, nss, 4);
    let l5 = labelled_lines(tags, labels, nss, 5);
    let h = labelled_lines(tags, labels, nss, 6);
    assert(l1 =~= s1);
    assert(l2 == l1 + s2);
    assert(l3 == l2 + s3);
    assert(l4 == l3 + s4);
    assert(l5 == l4 + s5);
    assert(h == l5 + s6);
    assert(h == head);
    let head2 = if head.len() > 0 {
        head.push('\n')
    } else {
        head
    };
    let x = head2 + "Pages: "@ + crate::num::decimal(pages as int);
    let full = x + "\n"@;
    assert(crate::schale_models::description_spec(tags, pages) == crate::text::trim_end(full));
    if h.len() > 0 {
        assert(h + "\n"@ =~= head2);
    }
    crate::num::lemma_decimal(pages as int);
    let dec = crate::num::decimal(pages as int);
    assert(full[full.len() - 1] == '\n');
    assert(full[full.len() - 2] == dec[dec.len() - 1]);
    assert(!crate::text::is_ws(full[full.len() - 2]));
    assert(crate::text::ws_run_start(full, full.len() - 1) == full.len() - 1);
    assert(crate::text::ws_run_start(full, full.len() as int) == full.len() - 1);
    assert(crate::text::trim_end(full) =~= x);
}

/// The lists of namespaces `nss[..n]`, one after the other.
pub open spec fn lists_in_order(tags: Seq<crate::schale_models::Tag>, nss: Seq<i32>, n: nat) -> Seq<
    Seq<char>,
>
    decreases n,
{
    if n == 0 {
        Seq::<Seq<char>>::empty()
    } else {
        lists_in_order(tags, nss, (n - 1) as nat) + crate::schale_models::bucket(tags, nss[n - 1])
    }
}

/// The genres of a SchaleNetwork series (`MangaDetail::to_manga`) are the
/// tag lists of namespaces 1, 2, 3, 4, 5, 6, 0, 9, 8, 10 and 12, one after
/// the other; its authors are the circles (namespace 2), or the artists
/// (namespace 1) when it has no circle.
pub proof fn law_schale_genres_and_authors(tags: Seq<crate::schale_models::Tag>)
    ensures
        crate::schale_models::all_tags(tags) == lists_in_order(
            tags,
            seq![1i32, 2, 3, 4, 5, 6, 0, 9, 8, 10, 12],
            11,
        ),
        crate::schale_models::author_names(tags) == (if crate::schale_models::bucket(tags, 2).len()
            > 0 {
            crate::schale_models::bucket(tags, 2)
        } else {
            crate::schale_models::bucket(tags, 1)
        }),
{
    let nss = seq![1i32, 2, 3, 4, 5, 6, 0, 9, 8, 10, 12];
    reveal_with_fuel(lists_in_order, 12);
    assert(lists_in_order(tags, nss, 1) =~= crate::schale_models::bucket(tags, 1));
    assert(crate::schale_models::all_tags(tags) =~= lists_in_order(tags, nss, 11));
}

/// The description lines of the first `n` rows of a HentaiNexus gallery
/// table, each named after its row.
pub open spec fn named_rows(cells: Seq<Option<crate::hentainexus::MetaCell>>, n: nat) -> Seq<
    Seq<char>,
>
    decreases n,
{
    if n == 0 {
        Seq::<Seq<char>>::empty()
    } else {
        let rest = named_rows(cells, (n - 1) as nat);
        let i = n - 1;
        if i < cells.len() && cells[i] is Some && crate::hentainexus::cell_text(
            cells[i].unwrap(),
        ) is Some {
            rest.push(
                seq![
                    "Circle"@,
                    "Event"@,
                    "Magazine"@,
                    "Parody"@,
                    "Publisher"@,
                    "Pages"@,
                    "Favorites"@,
                ][i] + ": "@ + crate::hentainexus::cell_text(cells[i].unwrap()).unwrap(),
            )
        } else {
            rest
        }
    }
}

proof fn lemma_named_rows(cells: Seq<Option<crate::hentainexus::MetaCell>>, n: nat)
    ensures
        crate::hentainexus::meta_lines(cells, n) == named_rows(cells, n),
    decreases n,
{
    if n > 0 {
        lemma_named_rows(cells, (n - 1) as nat);
    }
}

/// The whole description of a HentaiNexus gallery (`gallery_description`):
/// the lines of the rows Circle, Event, Magazine, Parody, Publisher, Pages
/// and Favorites, in this order, each when the row shows text, then a blank
/// line and the description text when there is one, all joined by line
/// breaks; nothing when there is neither.
pub proof fn law_gallery_description_exact(
    cells: Seq<Option<crate::hentainexus::MetaCell>>,
    text: Option<Seq<char>>,
)
    ensures
        crate::hentainexus::description_spec(cells, text) == ({
            let lines = named_rows(cells, 7);
            let all = match text {
                Some(t) => lines.push(Seq::<char>::empty()).push(t),
                None => lines,
            };
            if all.len() == 0 {
                None
            } else {
                Some(join(all, "\n"@))
            }
        }),
{
    lemma_named_rows(cells, 7);
}

// ---------------------------------------------------------------------------
// SchaleNetwork: the categories of a search
// ---------------------------------------------------------------------------

/// The mask with the bits of Manga (2), Doujinshi (4) and Illustration (8)
/// set as chosen.
pub open spec fn category_mask(manga: bool, doujinshi: bool, illustration: bool) -> u32 {
    (if manga {
        2u32
    } else {
        0u32
    }) | (if doujinshi {
        4u32
    } else {
        0u32
    }) | (if illustration {
        8u32
    } else {
        0u32
    })
}

/// Some name of `names` is `n`.
pub open spec fn names_have(names: Seq<Seq<char>>, n: Seq<char>) -> bool {
    exists|j: int| 0 <= j < names.len() && #[trigger] names[j] == n
}

/// Some multi-select filter of `fs` includes the option `n`.
pub open spec fn picks(fs: Seq<Filter>, n: Seq<char>) -> bool {
    exists|k: int|
        0 <= k < fs.len() && #[trigger] fs[k] is MultiSelect && names_have(
            crate::manga::strings_view(fs[k]->included@),
            n,
        )
}

proof fn lemma_masks_combine(a: bool, b: bool, c: bool, x: bool, y: bool, z: bool)
    ensures
        category_mask(a, b, c) | category_mask(x, y, z) == category_mask(a || x, b || y, c || z),
{
    assert(((if a {
        2u32
    } else {
        0u32
    }) | (if b {
        4u32
    } else {
        0u32
    }) | (if c {
        8u32
    } else {
        0u32
    })) | ((if x {
        2u32
    } else {
        0u32
    }) | (if y {
        4u32
    } else {
        0u32
    }) | (if z {
        8u32
    } else {
        0u32
    })) == (if a || x {
        2u32
    } else {
        0u32
    }) | (if b || y {
        4u32
    } else {
        0u32
    }) | (if c || z {
        8u32
    } else {
        0u32
    })) by (bit_vector);
}

proof fn lemma_category_bit(n: Seq<char>)
    ensures
        crate::schale::category_bit(n) == category_mask(
            n == "Manga"@,
            n == "Doujinshi"@,
            n == "Illustration"@,
        ),
{
    reveal_strlit("Manga");
    reveal_strlit("Doujinshi");
    reveal_strlit("Illustration");
    assert("Manga"@.len() == 5 && "Doujinshi"@.len() == 9 && "Illustration"@.len() == 12);
    assert((0u32 | 0u32) | 0u32 == 0u32) by (bit_vector);
    assert((2u32 | 0u32) | 0u32 == 2u32) by (bit_vector);
    assert((0u32 | 4u32) | 0u32 == 4u32) by (bit_vector);
    assert((0u32 | 0u32) | 8u32 == 8u32) by (bit_vector);
    if n == "Manga"@ {
        assert(category_mask(true, false, false) == 2u32);
    } else if n == "Doujinshi"@ {
        assert(category_mask(false, true, false) == 4u32);
    } else if n == "Illustration"@ {
        assert(category_mask(false, false, true) == 8u32);
    } else {
        assert(category_mask(false, false, false) == 0u32);
    }
}

proof fn lemma_names_mask(names: Seq<Seq<char>>)
    ensures
        crate::schale::names_mask(names) == category_mask(
            names_have(names, "Manga"@),
            names_have(names, "Doujinshi"@),
            names_have(names, "Illustration"@),
        ),
    decreases names.len(),
{
    if names.len() == 0 {
        assert((0u32 | 0u32) | 0u32 == 0u32) by (bit_vector);
    } else {
        let front = names.drop_last();
        let last = names.last();
        lemma_names_mask(front);
        lemma_category_bit(last);
        lemma_masks_combine(
            names_have(front, "Manga"@),
            names_have(front, "Doujinshi"@),
            names_have(front, "Illustration"@),
            last == "Manga"@,
            last == "Doujinshi"@,
            last == "Illustration"@,
        );
        assert forall|n: Seq<char>| names_have(names, n) == (names_have(front, n) || last == n) by {
            if names_have(front, n) {
                let j = choose|j: int| 0 <= j < front.len() && #[trigger] front[j] == n;
                assert(names[j] == n);
            }
            if last == n {
                assert(names[names.len() - 1] == n);
            }
            if names_have(names, n) {
                let j = choose|j: int| 0 <= j < names.len() && #[trigger] names[j] == n;
                if j < names.len() - 1 {
                    assert(front[j] == n);
                }
            }
        }
    }
}

/// The categories of a SchaleNetwork search (`books_query`): the bit of
/// Manga (2), of Doujinshi (4) and of Illustration (8) is set exactly when
/// some multi-select filter includes that category, and no other bit is.
pub proof fn law_schale_categories(fs: Seq<Filter>)
    ensures
        crate::schale::categories_of(fs) == category_mask(
            picks(fs, "Manga"@),
            picks(fs, "Doujinshi"@),
            picks(fs, "Illustration"@),
        ),
    decreases fs.len(),
{
    if fs.len() == 0 {
        assert((0u32 | 0u32) | 0u32 == 0u32) by (bit_vector);
    } else {
        let front = fs.drop_last();
        let last = fs.last();
        law_schale_categories(front);
        let chosen = if last is MultiSelect {
            crate::manga::strings_view(last->included@)
        } else {
            Seq::<Seq<char>>::empty()
        };
        lemma_names_mask(chosen);
        lemma_masks_combine(
            picks(front, "Manga"@),
            picks(front, "Doujinshi"@),
            picks(front, "Illustration"@),
            names_have(chosen, "Manga"@),
            names_have(chosen, "Doujinshi"@),
            names_have(chosen, "Illustration"@),
        );
        if !(last is MultiSelect) {
            assert(crate::schale::names_mask(chosen) == 0);
            let m = crate::schale::categories_of(front);
            assert(m | 0u32 == m) by (bit_vector);
        }
        assert forall|n: Seq<char>| picks(fs, n) == (picks(front, n) || names_have(chosen, n)) by {
            if picks(front, n) {
                let k = choose|k: int|
                    0 <= k < front.len() && #[trigger] front[k] is MultiSelect && names_have(
                        crate::manga::strings_view(front[k]->included@),
                        n,
                    );
                assert(fs[k] == front[k]);
            }
            if names_have(chosen, n) {
                assert(fs[fs.len() - 1] == last);
            }
            if picks(fs, n) {
                let k = choose|k: int|
                    0 <= k < fs.len() && #[trigger] fs[k] is MultiSelect && names_have(
                        crate::manga::strings_view(fs[k]->included@),
                        n,
                    );
                if k < fs.len() - 1 {
                    assert(front[k] == fs[k]);
                }
            }
        }
    }
}

// ---------------------------------------------------------------------------
// SchaleNetwork: the terms of a search
// ---------------------------------------------------------------------------

/// The namespaces a SchaleNetwork text filter can search.
pub open spec fn searched_namespace(id: Seq<char>) -> bool {
    id == "artist"@ || id == "circle"@ || id == "parody"@ || id == "magazine"@ || id
        == "character"@ || id == "cosplayer"@ || id == "pages"@
}

proof fn lemma_text_terms_hold(ns: Seq<char>, toks: Seq<Seq<char>>, exclude: bool, j: int)
    requires
        0 <= j < toks.len(),
        crate::schale::is_exclusion(toks[j]) == exclude,
    ensures
        crate::schale::text_terms(ns, toks, exclude).contains(
            crate::schale::token_term(ns, toks[j]),
        ),
    decreases toks.len(),
{
    let r = crate::schale::text_terms(ns, toks, exclude);
    if j == toks.len() - 1 {
        assert(r[r.len() - 1] == crate::schale::token_term(ns, toks[j]));
    } else {
        lemma_text_terms_hold(ns, toks.drop_last(), exclude, j);
        let prev = crate::schale::text_terms(ns, toks.drop_last(), exclude);
        let k = choose|k: int|
            0 <= k < prev.len() && prev[k] == crate::schale::token_term(ns, toks.drop_last()[j]);
        assert(toks.drop_last()[j] == toks[j]);
        assert(r[k] == prev[k]);
    }
}

/// The terms of a SchaleNetwork search (`books_query`): each token of a
/// text filter on one of the searched namespaces `ns` becomes the term
/// `ns:"^token$"`, among the excluded terms (without its `-`) when it begins
/// with `-` and among the included terms otherwise; a text filter on any
/// other field adds no term.
pub proof fn law_schale_text_terms(fs: Seq<Filter>, f: Filter, j: int)
    requires
        f is Text,
    ensures
        searched_namespace(f->Text_id@) && 0 <= j < crate::text::tokens(f->Text_value@).len() ==> ({
            let t = crate::text::tokens(f->Text_value@)[j];
            if t.len() > 0 && t[0] == '-' {
                crate::schale::all_terms(fs.push(f), true).contains(
                    f->Text_id@ + ":\"^"@ + t.skip(1) + "$\""@,
                )
            } else {
                crate::schale::all_terms(fs.push(f), false).contains(
                    f->Text_id@ + ":\"^"@ + t + "$\""@,
                )
            }
        }),
        !searched_namespace(f->Text_id@) ==> crate::schale::all_terms(fs.push(f), true)
            == crate::schale::all_terms(fs, true) && crate::schale::all_terms(fs.push(f), false)
            == crate::schale::all_terms(fs, false),
{
    let g = fs.push(f);
    assert(g.drop_last() =~= fs);
    assert(g.last() == f);
    let id = f->Text_id@;
    if !searched_namespace(id) {
        assert(crate::schale::all_terms(fs, true) + Seq::<Seq<char>>::empty() =~= crate::schale::all_terms(fs, true));
        assert(crate::schale::all_terms(fs, false) + Seq::<Seq<char>>::empty() =~= crate::schale::all_terms(fs, false));
    } else if 0 <= j < crate::text::tokens(f->Text_value@).len() {
        let toks = crate::text::tokens(f->Text_value@);
        let t = toks[j];
        let e = crate::schale::is_exclusion(t);
        lemma_text_terms_hold(id, toks, e, j);
        let a = crate::schale::all_terms(fs, e);
        let b = crate::schale::text_terms(id, toks, e);
        let k = choose|k: int| 0 <= k < b.len() && b[k] == crate::schale::token_term(id, t);
        assert((a + b)[a.len() + k] == b[k]);
    }
}

} // verus!
