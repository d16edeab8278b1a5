//! Properties that hold across the functions of the library: links that
//! lead back to what they were made from, keys that split back into their
//! parts, and what the title, tag and cipher helpers always produce.
use vstd::prelude::*;

use crate::num::{decimal, lemma_decimal};
use crate::text::{find, find_from, matches_at, split};

verus! {

// ---------------------------------------------------------------------------
// Supporting facts about searching and splitting
// ---------------------------------------------------------------------------

proof fn lemma_find_from_first(s: Seq<char>, p: Seq<char>, i: int, j: int)
    requires
        0 <= i <= j,
        matches_at(s, p, j),
        forall|k: int| i <= k < j ==> !matches_at(s, p, k),
    ensures
        find_from(s, p, i) == Some(j),
    decreases j - i,
{
    if i < j {
        assert(!matches_at(s, p, i));
        lemma_find_from_first(s, p, i + 1, j);
    }
}

/// The first occurrence of `p` is at `j` when it occurs there and nowhere before.
proof fn lemma_find_first(s: Seq<char>, p: Seq<char>, j: int)
    requires
        0 <= j,
        matches_at(s, p, j),
        forall|k: int| 0 <= k < j ==> !matches_at(s, p, k),
    ensures
        find(s, p) == Some(j),
{
    lemma_find_from_first(s, p, 0, j);
}

/// Splitting after appending text free of the separator extends the last piece.
proof fn lemma_split_extend(a: Seq<char>, t: Seq<char>, c: char)
    requires
        forall|i: int| 0 <= i < t.len() ==> t[i] != c,
    ensures
        split(a + t, c) == split(a, c).update(
            split(a, c).len() - 1,
            split(a, c).last() + t,
        ),
    decreases t.len(),
{
    crate::text::lemma_split_nonempty(a, c);
    if t.len() == 0 {
        assert(a + t =~= a);
        assert(split(a, c).last() + t =~= split(a, c).last());
        assert(split(a, c).update(split(a, c).len() - 1, split(a, c).last()) =~= split(a, c));
    } else {
        let t2 = t.drop_last();
        lemma_split_extend(a, t2, c);
        assert((a + t).drop_last() =~= a + t2);
        assert((a + t).last() == t.last());
        let p = split(a, c);
        assert((p.last() + t2).push(t.last()) =~= p.last() + t);
        assert(p.update(p.len() - 1, p.last() + t2).update(p.len() - 1, p.last() + t) =~= p.update(
            p.len() - 1,
            p.last() + t,
        ));
    }
}

/// Splitting a text that ends with the separator adds an empty piece.
proof fn lemma_split_sep(a: Seq<char>, c: char)
    ensures
        split(a.push(c), c) == split(a, c).push(Seq::<char>::empty()),
{
    assert(a.push(c).drop_last() =~= a);
}

/// The pieces of a text free of the separator: the text itself.
proof fn lemma_split_none(t: Seq<char>, c: char)
    requires
        forall|i: int| 0 <= i < t.len() ==> t[i] != c,
    ensures
        split(t, c) == seq![t],
{
    lemma_split_extend(Seq::<char>::empty(), t, c);
    assert(Seq::<char>::empty() + t =~= t);
    assert(Seq::<char>::empty() + t =~= t);
    assert(split(Seq::<char>::empty(), c).update(0, Seq::<char>::empty() + t) =~= seq![t]);
}

/// The pieces of `a c b`, where neither `a` nor `b` holds the separator `c`.
proof fn lemma_split_two(a: Seq<char>, b: Seq<char>, c: char)
    requires
        forall|i: int| 0 <= i < a.len() ==> a[i] != c,
        forall|i: int| 0 <= i < b.len() ==> b[i] != c,
    ensures
        split(a + seq![c] + b, c) == seq![a, b],
{
    lemma_split_none(a, c);
    lemma_split_sep(a, c);
    assert(a + seq![c] =~= a.push(c));
    lemma_split_extend(a.push(c), b, c);
    assert(a + seq![c] + b =~= a.push(c) + b);
    assert(seq![a].push(Seq::<char>::empty()).update(1, Seq::<char>::empty() + b) =~= seq![a, b]);
}

/// Decimal text holds no `/`.
proof fn lemma_decimal_no_slash(n: int)
    ensures
        forall|i: int| 0 <= i < decimal(n).len() ==> decimal(n)[i] != '/',
        decimal(n).len() >= 1,
{
    lemma_decimal(n);
    assert forall|i: int| 0 <= i < decimal(n).len() implies decimal(n)[i] != '/' by {
        assert('0' <= decimal(n)[i] <= '9' || decimal(n)[i] == '-');
    }
}

/// The first `/` of a text is where it is when nothing before it is one.
proof fn lemma_find_slash(a: Seq<char>, b: Seq<char>)
    requires
        forall|i: int| 0 <= i < a.len() ==> a[i] != '/',
    ensures
        find(a + seq!['/'] + b, seq!['/']) == Some(a.len() as int),
{
    let s = a + seq!['/'] + b;
    assert(s.subrange(a.len() as int, a.len() + 1int) =~= seq!['/']);
    assert forall|k: int| 0 <= k < a.len() implies !matches_at(s, seq!['/'], k) by {
        assert(s.subrange(k, k + 1)[0] == a[k]);
    }
    lemma_find_first(s, seq!['/'], a.len() as int);
}

// ---------------------------------------------------------------------------
// SchaleNetwork
// ---------------------------------------------------------------------------

/// A book key splits back into the id and key it was made of: splitting
/// the key `MangaDetail::manga_key` gives (`split_key`) yields the decimal
/// id and the book key.
pub proof fn law_split_key_of_manga_key(id: i32, key: Seq<char>)
    ensures
        crate::schale::split_key_spec(crate::schale_models::book_key(id, key)) == Ok::<
            (Seq<char>, Seq<char>),
            crate::schale::KeyError,
        >((decimal(id as int), key)),
{
    let d = decimal(id as int);
    lemma_decimal_no_slash(id as int);
    lemma_find_slash(d, key);
    let s = d + seq!['/'] + key;
    assert(s.take(d.len() as int) =~= d);
    assert(s.skip(d.len() + 1int) =~= key);
}

/// The address `MangaDetail::to_manga` gives a book leads back to the
/// book's key through `handle_deep_link`, for a book key that is not empty
/// and holds no `/`.
pub proof fn law_schale_book_link_round_trip(id: i32, key: Seq<char>)
    requires
        key.len() > 0,
        forall|i: int| 0 <= i < key.len() ==> key[i] != '/',
    ensures
        crate::schale::deep_link_spec(
            "https://schale.network/g/"@ + crate::schale_models::book_key(id, key),
        ) == Some(crate::schale_models::book_key(id, key)),
{
    let d = decimal(id as int);
    lemma_decimal_no_slash(id as int);
    let lit = "https://schale.network/g/"@;
    reveal_strlit("https://schale.network/g/");
    reveal_strlit("/g/");
    let m = "/g/"@;
    let bk = crate::schale_models::book_key(id, key);
    let url = lit + bk;
    assert(lit.len() == 25);
    assert(url.subrange(22, 25) =~= m);
    assert forall|k: int| 0 <= k < 22 implies !matches_at(url, m, k) by {
        assert(url.subrange(k, k + 3)[1] == url[k + 1]);
        assert(url[k + 1] == lit[k + 1]);
    }
    lemma_find_first(url, m, 22);
    assert(url.skip(22int + 3) =~= d + seq!['/'] + key);
    lemma_split_two(d, key, '/');
}

// ---------------------------------------------------------------------------
// HentaiNexus
// ---------------------------------------------------------------------------

/// The gallery page address of a key (`view_url`) leads back to the key,
/// both through `handle_deep_link` and through the key a listing reads from
/// a card link (`view_key`), for a key that is not empty and holds no `/`.
pub proof fn law_hentainexus_view_link_round_trip(key: Seq<char>)
    requires
        key.len() > 0,
        forall|i: int| 0 <= i < key.len() ==> key[i] != '/',
    ensures
        crate::hentainexus::deep_link_spec("https://hentainexus.com/view/"@ + key) == Some(key),
        crate::hentainexus::view_key_spec("https://hentainexus.com/view/"@ + key) == Some(key),
{
    let lit = "https://hentainexus.com/view/"@;
    reveal_strlit("https://hentainexus.com/view/");
    reveal_strlit("https://hentainexus.com");
    reveal_strlit("/view/");
    let m = "/view/"@;
    let url = lit + key;
    assert(lit.len() == 29);
    assert(url.subrange(23, 29) =~= m);
    assert forall|k: int| 0 <= k < 23 implies !matches_at(url, m, k) by {
        assert(url.subrange(k, k + 6)[1] == url[k + 1]);
        assert(url[k + 1] == lit[k + 1]);
    }
    lemma_find_first(url, m, 23);
    assert(url.skip(23int + 6) =~= key);
    lemma_split_none(key, '/');
    let base = "https://hentainexus.com"@;
    assert(url.take(23) =~= base);
    let a = url.skip(23);
    assert(a.take(6) =~= m);
    assert(a.skip(6) =~= key);
}

// ---------------------------------------------------------------------------
// ReadComicOnline
// ---------------------------------------------------------------------------

proof fn lemma_split_three(a: Seq<char>, b: Seq<char>, d: Seq<char>, c: char)
    requires
        forall|i: int| 0 <= i < a.len() ==> a[i] != c,
        forall|i: int| 0 <= i < b.len() ==> b[i] != c,
        forall|i: int| 0 <= i < d.len() ==> d[i] != c,
    ensures
        split(a + seq![c] + b + seq![c] + d, c) == seq![a, b, d],
{
    lemma_split_two(a, b, c);
    let ab = a + seq![c] + b;
    lemma_split_sep(ab, c);
    assert(ab + seq![c] =~= ab.push(c));
    lemma_split_extend(ab.push(c), d, c);
    assert(ab + seq![c] + d =~= ab.push(c) + d);
    assert(seq![a, b].push(Seq::<char>::empty()).update(2, Seq::<char>::empty() + d) =~= seq![
        a,
        b,
        d,
    ]);
}

/// A comic page address leads back, through `handle_deep_link`, to the
/// series key `/Comic/{name}`, for a name that is not empty and holds no `/`.
pub proof fn law_readcomiconline_comic_link_round_trip(name: Seq<char>)
    requires
        name.len() > 0,
        forall|i: int| 0 <= i < name.len() ==> name[i] != '/',
    ensures
        crate::readcomiconline::deep_link_spec("https://readcomiconline.li"@ + "/Comic/"@ + name)
            == Some("/Comic/"@ + name),
{
    reveal_strlit("https://readcomiconline.li");
    reveal_strlit("/Comic/");
    reveal_strlit("/Comic");
    reveal_strlit("Comic");
    let base = "https://readcomiconline.li"@;
    let url = base + "/Comic/"@ + name;
    assert(url.take(base.len() as int) =~= base);
    let p = url.skip(base.len() as int);
    assert(p =~= "/Comic/"@ + name);
    assert(p.take(6) =~= "/Comic"@);
    let comic = seq!['C', 'o', 'm', 'i', 'c'];
    let e = Seq::<char>::empty();
    assert(p =~= e + seq!['/'] + comic + seq!['/'] + name);
    lemma_split_three(e, comic, name, '/');
    let ps = seq![e, comic, name];
    assert(ps.drop_last() =~= seq![e, comic]);
    assert(seq![e, comic].drop_last() =~= seq![e]);
    assert(seq![e].drop_last() =~= Seq::<Seq<char>>::empty());
    assert(crate::text::nonempty_pieces(Seq::<Seq<char>>::empty()) =~= Seq::<Seq<char>>::empty());
    assert(seq![e].last() == e);
    assert(crate::text::nonempty_pieces(seq![e]) =~= crate::text::nonempty_pieces(
        Seq::<Seq<char>>::empty(),
    ));
    assert(crate::text::nonempty_pieces(seq![e]) =~= Seq::<Seq<char>>::empty());
    assert(crate::text::nonempty_pieces(seq![e, comic]) =~= seq![comic]);
    assert(crate::text::nonempty_pieces(ps) =~= seq![comic, name]);
    assert(seq!['/'] + comic + seq!['/'] + name =~= "/Comic/"@ + name);
}

/// The latest-update link to a chapter `/Comic/{name}/{rest}` names the
/// series `/Comic/{name}` (`update_entry`), for a name that is not empty
/// and holds no `/`.
pub proof fn law_readcomiconline_update_link_key(name: Seq<char>, rest: Seq<char>)
    requires
        name.len() > 0,
        forall|i: int| 0 <= i < name.len() ==> name[i] != '/',
    ensures
        crate::readcomiconline::update_key_spec(
            "https://readcomiconline.li"@ + "/Comic/"@ + name + seq!['/'] + rest,
        ) == Some("/Comic/"@ + name),
{
    reveal_strlit("https://readcomiconline.li");
    reveal_strlit("/Comic/");
    let base = "https://readcomiconline.li"@;
    let url = base + "/Comic/"@ + name + seq!['/'] + rest;
    assert(url.take(base.len() as int) =~= base);
    let p = url.skip(base.len() as int);
    let comic = seq!['C', 'o', 'm', 'i', 'c'];
    let e = Seq::<char>::empty();
    let p1 = comic + seq!['/'] + name + seq!['/'] + rest;
    let p2 = name + seq!['/'] + rest;
    assert(p =~= e + seq!['/'] + p1);
    lemma_find_slash(e, p1);
    assert(p.take(0) =~= e);
    assert(p.skip(1) =~= p1);
    lemma_find_slash(comic, name + seq!['/'] + rest);
    assert(p1 =~= comic + seq!['/'] + (name + seq!['/'] + rest));
    assert(p1.take(5) =~= comic);
    assert(p1.skip(6) =~= p2);
    lemma_find_slash(name, rest);
    assert(p2.take(name.len() as int) =~= name);
    assert(p2.skip(name.len() + 1int) =~= rest);
    let pieces = crate::text::splitn(p, 4, '/');
    assert(crate::text::splitn(rest, 1, '/') == seq![rest]);
    assert(crate::text::splitn(p2, 2, '/') =~= seq![name] + seq![rest]);
    assert(crate::text::splitn(p1, 3, '/') =~= seq![comic] + (seq![name] + seq![rest]));
    assert(pieces =~= seq![e, comic, name, rest]);
    let ps = seq![e, comic, name, rest];
    assert(ps.drop_last() =~= seq![e, comic, name]);
    assert(seq![e, comic, name].drop_last() =~= seq![e, comic]);
    assert(seq![e, comic].drop_last() =~= seq![e]);
    assert(seq![e].drop_last() =~= Seq::<Seq<char>>::empty());
    let segs = crate::text::nonempty_pieces(ps);
    assert(crate::text::nonempty_pieces(Seq::<Seq<char>>::empty()) =~= Seq::<Seq<char>>::empty());
    assert(seq![e].last() == e);
    assert(crate::text::nonempty_pieces(seq![e]) =~= crate::text::nonempty_pieces(
        Seq::<Seq<char>>::empty(),
    ));
    assert(crate::text::nonempty_pieces(seq![e]) =~= Seq::<Seq<char>>::empty());
    assert(crate::text::nonempty_pieces(seq![e, comic]) =~= seq![comic]);
    assert(crate::text::nonempty_pieces(seq![e, comic, name]) =~= seq![comic, name]);
    assert(segs[0] == comic && segs[1] == name);
    assert(seq!['/'] + comic + seq!['/'] + name =~= "/Comic/"@ + name);
}

// ---------------------------------------------------------------------------
// NineManga
// ---------------------------------------------------------------------------

/// A key read from a link to a page of the site (`series_key`) is the path
/// that `site_url` puts after the site address.
pub proof fn law_ninemanga_series_key_of_site_url(key: Seq<char>)
    ensures
        crate::ninemanga::series_key_spec("https://www.ninemanga.com"@ + key) == key,
{
    let base = "https://www.ninemanga.com"@;
    assert((base + key).take(base.len() as int) =~= base);
    assert((base + key).skip(base.len() as int) =~= key);
}

// ---------------------------------------------------------------------------
// Titles
// ---------------------------------------------------------------------------

/// Every character of `x` is a space or occurs in `t`.
spec fn chars_within(x: Seq<char>, t: Seq<char>) -> bool {
    forall|j: int| 0 <= j < x.len() ==> x[j] == ' ' || t.contains(#[trigger] x[j])
}

proof fn lemma_strip_brackets_clean(s: Seq<char>)
    ensures
        forall|i: int|
            0 <= i < crate::schale_models::strip_brackets(s).len() ==> {
                let c = #[trigger] crate::schale_models::strip_brackets(s)[i];
                !crate::schale_models::is_open_bracket(c) && !crate::schale_models::is_close_bracket(c)
            },
    decreases s.len(),
{
    if s.len() > 0 {
        let p = s.drop_last();
        lemma_strip_brackets_clean(p);
        let r = crate::schale_models::strip_brackets(s);
        let rp = crate::schale_models::strip_brackets(p);
        assert forall|i: int| 0 <= i < r.len() implies {
            let c = #[trigger] r[i];
            !crate::schale_models::is_open_bracket(c) && !crate::schale_models::is_close_bracket(c)
        } by {
            if i < rp.len() {
                assert(r[i] == rp[i]);
            }
        }
    }
}

proof fn lemma_words_within(t: Seq<char>, i: int)
    requires
        0 <= i <= t.len(),
    ensures
        forall|k: int|
            0 <= k < crate::text::words_from(t, i).len() ==> chars_within(
                #[trigger] crate::text::words_from(t, i)[k],
                t,
            ),
    decreases t.len() - i,
{
    if i < t.len() {
        if crate::text::is_ws(t[i]) {
            lemma_words_within(t, i + 1);
            assert(crate::text::words_from(t, i) == crate::text::words_from(t, i + 1));
        } else {
            let e = crate::text::word_end(t, i + 1);
            crate::text::lemma_word_end(t, i + 1);
            lemma_words_within(t, e);
            let w = t.subrange(i, e);
            assert forall|j: int| 0 <= j < w.len() implies w[j] == ' ' || t.contains(#[trigger] w[j]) by {
                assert(t[i + j] == w[j]);
            }
            let ws = crate::text::words_from(t, i);
            assert(ws == seq![w] + crate::text::words_from(t, e));
            assert forall|k: int| 0 <= k < ws.len() implies chars_within(#[trigger] ws[k], t) by {
                if k > 0 {
                    assert(ws[k] == crate::text::words_from(t, e)[k - 1]);
                }
            }
        }
    }
}

proof fn lemma_join_within(l: Seq<Seq<char>>, t: Seq<char>)
    requires
        forall|k: int| 0 <= k < l.len() ==> chars_within(#[trigger] l[k], t),
    ensures
        chars_within(crate::text::join(l, seq![' ']), t),
    decreases l.len(),
{
    if l.len() > 1 {
        let l2 = l.drop_last();
        assert forall|k: int| 0 <= k < l2.len() implies chars_within(#[trigger] l2[k], t) by {
            assert(l2[k] == l[k]);
        }
        lemma_join_within(l2, t);
        let a = crate::text::join(l2, seq![' ']);
        let x = a + seq![' '] + l.last();
        assert(chars_within(l[l.len() - 1], t));
        assert forall|j: int| 0 <= j < x.len() implies x[j] == ' ' || t.contains(#[trigger] x[j]) by {
            if j < a.len() {
                assert(x[j] == a[j]);
            } else if j == a.len() {
            } else {
                assert(x[j] == l.last()[j - a.len() - 1]);
            }
        }
    } else if l.len() == 1 {
        assert(chars_within(l[0], t));
    }
}

/// A shortened title holds no brackets: `shorten_title` (and
/// `shorten_title_if`) drop every bracket along with what it encloses.
pub proof fn law_shorten_title_has_no_brackets(title: Seq<char>)
    ensures
        forall|i: int|
            0 <= i < crate::schale_models::shorten_title_spec(title).len() ==> {
                let c = #[trigger] crate::schale_models::shorten_title_spec(title)[i];
                !crate::schale_models::is_open_bracket(c) && !crate::schale_models::is_close_bracket(c)
            },
{
    let t = crate::schale_models::strip_brackets(title);
    lemma_strip_brackets_clean(title);
    lemma_words_within(t, 0);
    lemma_join_within(crate::text::words(t), t);
    let r = crate::schale_models::shorten_title_spec(title);
    assert forall|i: int| 0 <= i < r.len() implies {
        let c = #[trigger] r[i];
        !crate::schale_models::is_open_bracket(c) && !crate::schale_models::is_close_bracket(c)
    } by {
        if r[i] != ' ' {
            assert(t.contains(r[i]));
            let j = choose|j: int| 0 <= j < t.len() && t[j] == r[i];
            assert(t[j] == r[i]);
        }
    }
}

// ---------------------------------------------------------------------------
// Deciphering
// ---------------------------------------------------------------------------

proof fn lemma_decipher_len(ct: Seq<u8>, d0: Seq<u32>, q: u32, j: nat)
    ensures
        crate::decrypt::decipher(ct, d0, q, j).len() == j,
        forall|i: int|
            0 <= i < j ==> ((#[trigger] crate::decrypt::decipher(ct, d0, q, j)[i]) as u32) < 256,
    decreases j,
{
    if j > 0 {
        let prev = crate::decrypt::decipher(ct, d0, q, (j - 1) as nat);
        lemma_decipher_len(ct, d0, q, (j - 1) as nat);
        let b = ((ct[j - 1] as u32) ^ crate::decrypt::prga(d0, q, j).x) as u8;
        let c = crate::decrypt::latin1(b);
        assert((b as char) as u32 == b as u32);
        let cur = crate::decrypt::decipher(ct, d0, q, j);
        assert(cur == prev.push(c));
        assert forall|i: int| 0 <= i < j implies ((#[trigger] cur[i]) as u32) < 256 by {
            if i < j - 1 {
                assert(cur[i] == prev[i]);
            }
        }
    }
}

/// Deciphering yields one Latin-1 character per cipher byte: the clear
/// text of a payload of at least 65 bytes (`decrypt_payload`) is 64
/// characters shorter than the payload, and each character is below U+0100.
pub proof fn law_decrypted_length(data: Seq<u8>)
    requires
        data.len() >= 65,
    ensures
        crate::decrypt::decrypted(data).len() == data.len() - 64,
        forall|i: int|
            0 <= i < data.len() - 64 ==> ((#[trigger] crate::decrypt::decrypted(data)[i]) as u32)
                < 256,
{
    let u = crate::decrypt::unmask(data);
    let ct = u.skip(64);
    lemma_decipher_len(
        ct,
        crate::decrypt::ksa(u.take(64), 256).0,
        crate::decrypt::prime_step(u.take(64)),
        ct.len(),
    );
}

// ---------------------------------------------------------------------------
// Image sets
// ---------------------------------------------------------------------------

/// The widths of the image sets besides the original.
pub open spec fn known_width(w: int) -> bool {
    w == 1600 || w == 1280 || w == 980 || w == 780
}

proof fn lemma_labels_differ()
    ensures
        "1600"@ != "0"@,
        "1280"@ != "0"@,
        "980"@ != "0"@,
        "780"@ != "0"@,
        "1600"@ != "1280"@,
        "1600"@ != "980"@,
        "1600"@ != "780"@,
        "1280"@ != "980"@,
        "1280"@ != "780"@,
        "980"@ != "780"@,
{
    reveal_strlit("1600");
    reveal_strlit("1280");
    reveal_strlit("980");
    reveal_strlit("780");
    reveal_strlit("0");
    assert("1600"@.len() != "0"@.len());
    assert("1280"@.len() != "0"@.len());
    assert("980"@.len() != "0"@.len());
    assert("780"@.len() != "0"@.len());
    assert("1600"@[1] != "1280"@[1]);
    assert("1600"@.len() != "980"@.len());
    assert("1600"@.len() != "780"@.len());
    assert("1280"@.len() != "980"@.len());
    assert("1280"@.len() != "780"@.len());
    assert("980"@[0] != "780"@[0]);
}

proof fn lemma_pick(d: crate::schale_models::ImageData, order: Seq<int>)
    requires
        forall|i: int| 0 <= i < order.len() ==> known_width(#[trigger] order[i]),
    ensures
        ({
            let (k, l) = crate::schale_models::pick(d, order);
            &&& l == "0"@ ==> k == d.original
            &&& l != "0"@ ==> k.id is Some
        }),
    decreases order.len(),
{
    lemma_labels_differ();
    if order.len() > 0 {
        let w = order[0];
        assert(known_width(w));
        if !crate::schale_models::usable(crate::schale_models::set_of(d, w)) {
            let rest = order.drop_first();
            assert forall|i: int| 0 <= i < rest.len() implies known_width(#[trigger] rest[i]) by {
                assert(rest[i] == order[i + 1]);
            }
            lemma_pick(d, rest);
        }
    }
}

/// What `select_quality` picks: the original set exactly when it answers
/// `0`; otherwise a set with an id; and the preferred width itself whenever
/// that set is usable.
pub proof fn law_select_quality(d: crate::schale_models::ImageData, preferred: Seq<char>)
    ensures
        ({
            let (k, l) = crate::schale_models::select_quality_spec(d, preferred);
            &&& l == "0"@ ==> k == d.original
            &&& l != "0"@ ==> k.id is Some
        }),
        forall|w: int|
            known_width(w) && preferred == crate::schale_models::width_label(w)
                && crate::schale_models::usable(#[trigger] crate::schale_models::set_of(d, w))
                ==> crate::schale_models::select_quality_spec(d, preferred) == (
                crate::schale_models::set_of(d, w)->0,
                preferred,
            ),
{
    lemma_labels_differ();
    let order = crate::schale_models::fallback_order(preferred);
    assert forall|i: int| 0 <= i < order.len() implies known_width(#[trigger] order[i]) by {}
    lemma_pick(d, order);
}

// ---------------------------------------------------------------------------
// Authors
// ---------------------------------------------------------------------------

/// The authors `combine_authors` gives start with the authors, hold every
/// artist, and hold nothing else.
pub proof fn law_combined_authors(authors: Seq<Seq<char>>, artists: Seq<Seq<char>>)
    ensures
        crate::hentainexus::merge_names(authors, artists).len() >= authors.len(),
        crate::hentainexus::merge_names(authors, artists).take(authors.len() as int) == authors,
        forall|x: Seq<char>|
            artists.contains(x) ==> crate::hentainexus::merge_names(authors, artists).contains(x),
        forall|x: Seq<char>|
            crate::hentainexus::merge_names(authors, artists).contains(x) ==> authors.contains(x)
                || artists.contains(x),
    decreases artists.len(),
{
    let m = crate::hentainexus::merge_names(authors, artists);
    if artists.len() == 0 {
        assert(m.take(authors.len() as int) =~= authors);
    } else {
        let a2 = artists.drop_last();
        let x = artists.last();
        law_combined_authors(authors, a2);
        let m2 = crate::hentainexus::merge_names(authors, a2);
        if m2.contains(x) {
            assert(m == m2);
        } else {
            assert(m == m2.push(x));
            assert(m.take(authors.len() as int) =~= m2.take(authors.len() as int));
            assert(m[m2.len() as int] == x);
        }
        assert forall|y: Seq<char>| artists.contains(y) implies m.contains(y) by {
            let j = choose|j: int| 0 <= j < artists.len() && artists[j] == y;
            if j < a2.len() {
                assert(a2[j] == y);
                assert(a2.contains(y));
                let k = choose|k: int| 0 <= k < m2.len() && m2[k] == y;
                assert(m[k] == y);
            }
        }
        assert forall|y: Seq<char>| m.contains(y) implies authors.contains(y) || artists.contains(y) by {
            let k = choose|k: int| 0 <= k < m.len() && m[k] == y;
            if k < m2.len() {
                assert(m2[k] == y);
                if a2.contains(y) {
                    let j = choose|j: int| 0 <= j < a2.len() && a2[j] == y;
                    assert(artists[j] == y);
                }
            } else {
                assert(artists[artists.len() - 1] == y);
            }
        }
    }
}

// ---------------------------------------------------------------------------
// Comma-separated tokens
// ---------------------------------------------------------------------------

proof fn lemma_split_pieces_free(s: Seq<char>, c: char)
    ensures
        forall|k: int, j: int|
            0 <= k < split(s, c).len() && 0 <= j < split(s, c)[k].len() ==> #[trigger] split(
                s,
                c,
            )[k][j] != c,
    decreases s.len(),
{
    if s.len() > 0 {
        let p = s.drop_last();
        lemma_split_pieces_free(p, c);
        crate::text::lemma_split_nonempty(p, c);
        let ps = split(p, c);
        let r = split(s, c);
        assert forall|k: int, j: int| 0 <= k < r.len() && 0 <= j < r[k].len() implies #[trigger] r[k][j]
            != c by {
            if s.last() == c {
                if k < ps.len() {
                    assert(r[k] == ps[k]);
                }
            } else {
                if k < ps.len() - 1 {
                    assert(r[k] == ps[k]);
                } else {
                    assert(r[k] == ps.last().push(s.last()));
                    if j < ps.last().len() {
                        assert(r[k][j] == ps[ps.len() - 1][j]);
                    }
                }
            }
        }
    }
}

proof fn lemma_trim_within(p: Seq<char>)
    ensures
        forall|j: int|
            0 <= j < crate::text::trim(p).len() ==> exists|i: int|
                0 <= i < p.len() && p[i] == #[trigger] crate::text::trim(p)[j],
{
    crate::text::lemma_ws_run_end(p, 0);
    let a = crate::text::ws_run_end(p, 0);
    let t = p.skip(a);
    crate::text::lemma_ws_run_start(t, t.len() as int);
    let r = crate::text::trim(p);
    assert forall|j: int| 0 <= j < r.len() implies exists|i: int|
        0 <= i < p.len() && p[i] == #[trigger] r[j] by {
        assert(r[j] == p[a + j]);
    }
}

proof fn lemma_nonempty_trimmed_free(ps: Seq<Seq<char>>, c: char)
    requires
        forall|k: int, j: int| 0 <= k < ps.len() && 0 <= j < ps[k].len() ==> #[trigger] ps[k][j] != c,
    ensures
        forall|k: int|
            0 <= k < crate::text::nonempty_trimmed(ps).len() ==> (#[trigger] crate::text::nonempty_trimmed(
                ps,
            )[k]).len() > 0 && !crate::text::nonempty_trimmed(ps)[k].contains(c),
    decreases ps.len(),
{
    if ps.len() > 0 {
        let q = ps.drop_last();
        assert forall|k: int, j: int| 0 <= k < q.len() && 0 <= j < q[k].len() implies #[trigger] q[k][j]
            != c by {
            assert(q[k] == ps[k]);
        }
        lemma_nonempty_trimmed_free(q, c);
        let last = ps.last();
        lemma_trim_within(last);
        let t = crate::text::trim(last);
        let r = crate::text::nonempty_trimmed(ps);
        let rq = crate::text::nonempty_trimmed(q);
        assert forall|k: int| 0 <= k < r.len() implies (#[trigger] r[k]).len() > 0 && !r[k].contains(c) by {
            if k < rq.len() {
                assert(r[k] == rq[k]);
            } else {
                assert(r[k] == t);
                if t.contains(c) {
                    let j = choose|j: int| 0 <= j < t.len() && t[j] == c;
                    let i = choose|i: int| 0 <= i < last.len() && last[i] == t[j];
                    assert(ps[ps.len() - 1][i] == c);
                }
            }
        }
    }
}

/// Every token of a comma-separated filter value (`tokens_exec`) is a
/// non-empty text without commas.
pub proof fn law_tokens_nonempty_without_commas(s: Seq<char>)
    ensures
        forall|k: int|
            0 <= k < crate::text::tokens(s).len() ==> (#[trigger] crate::text::tokens(s)[k]).len() > 0
                && !crate::text::tokens(s)[k].contains(','),
{
    lemma_split_pieces_free(s, ',');
    lemma_nonempty_trimmed_free(split(s, ','), ',');
}

// ---------------------------------------------------------------------------
// Spacing of shortened titles
// ---------------------------------------------------------------------------

/// `x` is not empty and holds no whitespace.
spec fn solid(x: Seq<char>) -> bool {
    x.len() > 0 && forall|j: int| 0 <= j < x.len() ==> !crate::text::is_ws(#[trigger] x[j])
}

/// `x` has no whitespace at either end, and every whitespace character in
/// it is a single space between two other characters.
pub open spec fn single_spaced(x: Seq<char>) -> bool {
    forall|i: int|
        0 <= i < x.len() && crate::text::is_ws(#[trigger] x[i]) ==> x[i] == ' ' && 0 < i && i + 1
            < x.len() && !crate::text::is_ws(x[i - 1]) && !crate::text::is_ws(x[i + 1])
}

proof fn lemma_words_solid(t: Seq<char>, i: int)
    requires
        0 <= i <= t.len(),
    ensures
        forall|k: int|
            0 <= k < crate::text::words_from(t, i).len() ==> solid(
                #[trigger] crate::text::words_from(t, i)[k],
            ),
    decreases t.len() - i,
{
    if i < t.len() {
        if crate::text::is_ws(t[i]) {
            lemma_words_solid(t, i + 1);
            assert(crate::text::words_from(t, i) == crate::text::words_from(t, i + 1));
        } else {
            let e = crate::text::word_end(t, i + 1);
            crate::text::lemma_word_end(t, i + 1);
            lemma_words_solid(t, e);
            let w = t.subrange(i, e);
            assert forall|j: int| 0 <= j < w.len() implies !crate::text::is_ws(#[trigger] w[j]) by {
                assert(w[j] == t[i + j]);
            }
            let ws = crate::text::words_from(t, i);
            assert(ws == seq![w] + crate::text::words_from(t, e));
            assert forall|k: int| 0 <= k < ws.len() implies solid(#[trigger] ws[k]) by {
                if k > 0 {
                    assert(ws[k] == crate::text::words_from(t, e)[k - 1]);
                }
            }
        }
    }
}

proof fn lemma_join_single_spaced(l: Seq<Seq<char>>)
    requires
        forall|k: int| 0 <= k < l.len() ==> solid(#[trigger] l[k]),
    ensures
        single_spaced(crate::text::join(l, seq![' '])),
        l.len() > 0 ==> crate::text::join(l, seq![' ']).len() > 0 && !crate::text::is_ws(
            crate::text::join(l, seq![' '])[0],
        ) && !crate::text::is_ws(
            crate::text::join(l, seq![' '])[crate::text::join(l, seq![' ']).len() - 1],
        ),
    decreases l.len(),
{
    if l.len() == 1 {
        assert(solid(l[0]));
    } else if l.len() > 1 {
        let l2 = l.drop_last();
        assert forall|k: int| 0 <= k < l2.len() implies solid(#[trigger] l2[k]) by {
            assert(l2[k] == l[k]);
        }
        lemma_join_single_spaced(l2);
        let a = crate::text::join(l2, seq![' ']);
        let w = l.last();
        assert(solid(l[l.len() - 1]));
        let x = a + seq![' '] + w;
        assert(x == crate::text::join(l, seq![' ']));
        assert(!crate::text::is_ws(w[0]));
        assert(forall|j: int| 0 <= j < w.len() ==> x[a.len() + 1 + j] == w[j]);
        assert(forall|j: int| 0 <= j < a.len() ==> x[j] == a[j]);
        assert forall|i: int| 0 <= i < x.len() && crate::text::is_ws(#[trigger] x[i]) implies x[i]
            == ' ' && 0 < i && i + 1 < x.len() && !crate::text::is_ws(x[i - 1])
            && !crate::text::is_ws(x[i + 1]) by {
            if i < a.len() {
                assert(x[i] == a[i]);
                assert(crate::text::is_ws(a[i]));
                if i + 1 < a.len() {
                    assert(x[i + 1] == a[i + 1]);
                }
                assert(x[i - 1] == a[i - 1]);
            } else if i == a.len() {
                assert(x[i - 1] == a[a.len() - 1]);
                assert(x[i + 1] == w[0]);
            } else {
                assert(x[i] == w[i - a.len() - 1]);
            }
        }
        assert(x[x.len() - 1] == w[w.len() - 1]);
        assert(x[0] == a[0]);
    }
}

/// A shortened title is single-spaced: no whitespace at its ends, and each
/// whitespace character in it is one space between two words
/// (`shorten_title` joins the words by single spaces).
pub proof fn law_shorten_title_single_spaced(title: Seq<char>)
    ensures
        single_spaced(crate::schale_models::shorten_title_spec(title)),
{
    let t = crate::schale_models::strip_brackets(title);
    lemma_words_solid(t, 0);
    lemma_join_single_spaced(crate::text::words(t));
}

// ---------------------------------------------------------------------------
// The key stream of the cipher
// ---------------------------------------------------------------------------

/// Swapping within a box whose values are below 256 keeps them below 256.
proof fn lemma_swap_box_of(d: Seq<u32>, i: int, j: int)
    requires
        crate::decrypt::is_box(d),
        0 <= i < 256,
        0 <= j < 256,
    ensures
        crate::decrypt::is_box(crate::decrypt::swap(d, i, j)),
{
    crate::decrypt::lemma_swap_box(d, i, j);
}

proof fn lemma_ksa_box(ks: Seq<u8>, n: nat)
    requires
        n <= 256,
    ensures
        crate::decrypt::is_box(crate::decrypt::ksa(ks, n).0),
        crate::decrypt::ksa(ks, n).1 < 256,
    decreases n,
{
    if n > 0 {
        lemma_ksa_box(ks, (n - 1) as nat);
        let (d, key) = crate::decrypt::ksa(ks, (n - 1) as nat);
        let key2 = ((key + d[n - 1] + ks[(n - 1) % 64]) % 256) as u32;
        lemma_swap_box_of(d, n - 1, key2 as int);
    }
}

proof fn lemma_prga_box(d0: Seq<u32>, q: u32, j: nat)
    requires
        crate::decrypt::is_box(d0),
    ensures
        crate::decrypt::is_box(crate::decrypt::prga(d0, q, j).d),
        crate::decrypt::prga(d0, q, j).k < 256,
        crate::decrypt::prga(d0, q, j).n < 256,
        crate::decrypt::prga(d0, q, j).p < 256,
        crate::decrypt::prga(d0, q, j).x < 256,
    decreases j,
{
    if j > 0 {
        lemma_prga_box(d0, q, (j - 1) as nat);
        let s = crate::decrypt::prga(d0, q, (j - 1) as nat);
        let k = ((s.k + q) % 256) as u32;
        let n = ((s.p + s.d[(s.n + s.d[k as int]) % 256]) % 256) as u32;
        lemma_swap_box_of(s.d, k as int, n as int);
    }
}

/// The `i`-th deciphered character: the cipher byte masked by the key
/// stream after `i + 1` steps.
proof fn lemma_decipher_at(ct: Seq<u8>, d0: Seq<u32>, q: u32, j: nat, i: int)
    requires
        0 <= i < j,
    ensures
        crate::decrypt::decipher(ct, d0, q, j)[i] == crate::decrypt::latin1(
            ((ct[i] as u32) ^ crate::decrypt::prga(d0, q, (i + 1) as nat).x) as u8,
        ),
    decreases j,
{
    lemma_decipher_len(ct, d0, q, (j - 1) as nat);
    if i < j - 1 {
        lemma_decipher_at(ct, d0, q, (j - 1) as nat, i);
    }
}

/// The key stream of a payload: the mask applied to its `i`-th cipher byte.
pub open spec fn key_stream(data: Seq<u8>, i: int) -> u32 {
    let ks = crate::decrypt::unmask(data).take(64);
    crate::decrypt::prga(
        crate::decrypt::ksa(ks, 256).0,
        crate::decrypt::prime_step(ks),
        (i + 1) as nat,
    ).x
}

/// Each deciphered character is its cipher byte masked by the key stream.
pub(crate) proof fn lemma_decrypted_at(data: Seq<u8>, i: int)
    requires
        data.len() >= 65,
        0 <= i < data.len() - 64,
    ensures
        crate::decrypt::decrypted(data)[i] == crate::decrypt::latin1(
            ((data[64 + i] as u32) ^ key_stream(data, i)) as u8,
        ),
        key_stream(data, i) < 256,
{
    let u = crate::decrypt::unmask(data);
    let ks = u.take(64);
    let ct = u.skip(64);
    lemma_ksa_box(ks, 256);
    lemma_prga_box(crate::decrypt::ksa(ks, 256).0, crate::decrypt::prime_step(ks), (i + 1) as nat);
    lemma_decipher_at(
        ct,
        crate::decrypt::ksa(ks, 256).0,
        crate::decrypt::prime_step(ks),
        ct.len(),
        i,
    );
    assert(ct[i] == data[64 + i]);
}

/// Payloads that share their first 64 bytes share their key stream.
proof fn lemma_same_key_stream(d1: Seq<u8>, d2: Seq<u8>, i: int)
    requires
        d1.len() >= 64,
        d2.len() >= 64,
        d1.take(64) == d2.take(64),
    ensures
        key_stream(d1, i) == key_stream(d2, i),
{
    let u1 = crate::decrypt::unmask(d1).take(64);
    let u2 = crate::decrypt::unmask(d2).take(64);
    assert forall|j: int| 0 <= j < 64 implies u1[j] == u2[j] by {
        assert(d1.take(64)[j] == d1[j]);
        assert(d2.take(64)[j] == d2[j]);
        assert(d1.take(64)[j] == d2.take(64)[j]);
        assert(d1[j] == d2[j]);
        assert(u1[j] == crate::decrypt::unmask(d1)[j]);
        assert(u2[j] == crate::decrypt::unmask(d2)[j]);
    }
    assert(u1 =~= u2);
}

/// The key stream depends only on the first 64 bytes of the payload: two
/// payloads that share them decipher (`decrypt_payload`) to texts whose
/// characters differ exactly as their cipher bytes do.
pub proof fn law_key_stream_depends_on_key_bytes_only(d1: Seq<u8>, d2: Seq<u8>, i: int)
    requires
        d1.len() >= 65,
        d2.len() >= 65,
        d1.take(64) == d2.take(64),
        0 <= i < d1.len() - 64,
        0 <= i < d2.len() - 64,
    ensures
        (crate::decrypt::decrypted(d1)[i] as u32) ^ (crate::decrypt::decrypted(d2)[i] as u32) == (
        d1[64 + i] ^ d2[64 + i]) as u32,
{
    lemma_decrypted_at(d1, i);
    lemma_decrypted_at(d2, i);
    lemma_same_key_stream(d1, d2, i);
    let x = key_stream(d1, i);
    let a = d1[64 + i];
    let b = d2[64 + i];
    let ca = (((a as u32) ^ x) as u8);
    let cb = (((b as u32) ^ x) as u8);
    assert((crate::decrypt::latin1(ca) as u32) == ca as u32);
    assert((crate::decrypt::latin1(cb) as u32) == cb as u32);
    assert(x < 256 ==> ((((a as u32) ^ x) as u8) as u32) ^ ((((b as u32) ^ x) as u8) as u32) == ((a
        ^ b) as u32)) by (bit_vector);
}

/// The bytes of a Latin-1 text.
pub open spec fn latin1_bytes(s: Seq<char>) -> Seq<u8> {
    Seq::new(s.len(), |i: int| (s[i] as u32) as u8)
}

/// Deciphering is its own inverse under a key: deciphering the clear text
/// of a payload again, behind the same 64 key bytes, gives back the cipher
/// bytes of the payload as characters.
pub proof fn law_decipher_twice_gives_cipher_text(data: Seq<u8>)
    requires
        data.len() >= 65,
    ensures
        crate::decrypt::decrypt_payload_spec(
            data.take(64) + latin1_bytes(crate::decrypt::decrypted(data)),
        ) == Ok::<Seq<char>, crate::decrypt::DecryptError>(
            Seq::new((data.len() - 64) as nat, |i: int| crate::decrypt::latin1(data[64 + i])),
        ),
{
    let s = crate::decrypt::decrypted(data);
    lemma_decipher_len(
        crate::decrypt::unmask(data).skip(64),
        crate::decrypt::ksa(crate::decrypt::unmask(data).take(64), 256).0,
        crate::decrypt::prime_step(crate::decrypt::unmask(data).take(64)),
        (data.len() - 64) as nat,
    );
    let d2 = data.take(64) + latin1_bytes(s);
    assert(d2.len() == data.len());
    assert(d2.take(64) =~= data.take(64));
    let r = crate::decrypt::decrypted(d2);
    let want = Seq::new((data.len() - 64) as nat, |i: int| crate::decrypt::latin1(data[64 + i]));
    lemma_decipher_len(
        crate::decrypt::unmask(d2).skip(64),
        crate::decrypt::ksa(crate::decrypt::unmask(d2).take(64), 256).0,
        crate::decrypt::prime_step(crate::decrypt::unmask(d2).take(64)),
        (d2.len() - 64) as nat,
    );
    assert forall|i: int| 0 <= i < data.len() - 64 implies r[i] == want[i] by {
        lemma_decrypted_at(data, i);
        lemma_decrypted_at(d2, i);
        lemma_same_key_stream(data, d2, i);
        let x = key_stream(data, i);
        let a = data[64 + i];
        let c = (((a as u32) ^ x) as u8);
        assert((crate::decrypt::latin1(c) as u32) == c as u32);
        assert(d2[64 + i] == ((s[i] as u32) as u8));
        assert(x < 256 ==> ((((((a as u32) ^ x) as u8) as u32) as u8) as u32 ^ x) as u8 == a)
            by (bit_vector);
    }
    assert(r =~= want);
}

// ---------------------------------------------------------------------------
// Shortened titles are trimmed and shorten to themselves
// ---------------------------------------------------------------------------

proof fn lemma_no_brackets_kept(s: Seq<char>)
    requires
        forall|i: int|
            0 <= i < s.len() ==> !crate::schale_models::is_open_bracket(#[trigger] s[i])
                && !crate::schale_models::is_close_bracket(s[i]),
    ensures
        crate::schale_models::bracket_depth(s) == 0,
        crate::schale_models::strip_brackets(s) == s,
    decreases s.len(),
{
    if s.len() > 0 {
        let p = s.drop_last();
        assert forall|i: int| 0 <= i < p.len() implies !crate::schale_models::is_open_bracket(
            #[trigger] p[i],
        ) && !crate::schale_models::is_close_bracket(p[i]) by {
            assert(p[i] == s[i]);
        }
        lemma_no_brackets_kept(p);
        assert(s.last() == s[s.len() - 1]);
        assert(p.push(s.last()) =~= s);
    }
}

proof fn lemma_join_front(l: Seq<Seq<char>>, sep: Seq<char>)
    requires
        l.len() >= 2,
    ensures
        crate::text::join(l, sep) == l[0] + sep + crate::text::join(l.drop_first(), sep),
    decreases l.len(),
{
    if l.len() == 2 {
        assert(l.drop_last() =~= seq![l[0]]);
        assert(l.drop_first() =~= seq![l[1]]);
        assert(crate::text::join(l.drop_last(), sep) == l[0]);
        assert(crate::text::join(l.drop_first(), sep) == l[1]);
        assert(l.last() == l[1]);
    } else {
        let l2 = l.drop_last();
        lemma_join_front(l2, sep);
        assert(l2.drop_first() =~= l.drop_first().drop_last());
        assert(l.drop_first().last() == l.last());
        assert(l2[0] == l[0]);
        let j2 = crate::text::join(l2.drop_first(), sep);
        assert(crate::text::join(l.drop_first(), sep) == crate::text::join(
            l.drop_first().drop_last(),
            sep,
        ) + sep + l.drop_first().last());
        assert(crate::text::join(l, sep) == crate::text::join(l2, sep) + sep + l.last());
        assert(l[0] + sep + j2 + sep + l.last() =~= l[0] + sep + (j2 + sep + l.last()));
    }
}

/// The word starting at `k` ends at `m` when everything in between is not
/// whitespace and `m` is the end or a whitespace character.
proof fn lemma_word_end_at(s: Seq<char>, k: int, m: int)
    requires
        0 <= k <= m <= s.len(),
        forall|j: int| k <= j < m ==> !crate::text::is_ws(#[trigger] s[j]),
        m == s.len() || crate::text::is_ws(s[m]),
    ensures
        crate::text::word_end(s, k) == m,
    decreases m - k,
{
    if k < m {
        assert(!crate::text::is_ws(s[k]));
        lemma_word_end_at(s, k + 1, m);
    }
}

proof fn lemma_word_end_shift(a: Seq<char>, b: Seq<char>, k: int)
    requires
        0 <= k <= b.len(),
    ensures
        crate::text::word_end(a + b, a.len() + k) == a.len() + crate::text::word_end(b, k),
    decreases b.len() - k,
{
    if k < b.len() {
        assert((a + b)[a.len() + k] == b[k]);
        if !crate::text::is_ws(b[k]) {
            lemma_word_end_shift(a, b, k + 1);
        }
    }
}

proof fn lemma_words_shift(a: Seq<char>, b: Seq<char>, k: int)
    requires
        0 <= k <= b.len(),
    ensures
        crate::text::words_from(a + b, a.len() + k) == crate::text::words_from(b, k),
    decreases b.len() - k,
{
    if k < b.len() {
        let s = a + b;
        assert(s[a.len() + k] == b[k]);
        if crate::text::is_ws(b[k]) {
            lemma_words_shift(a, b, k + 1);
        } else {
            crate::text::lemma_word_end(b, k + 1);
            lemma_word_end_shift(a, b, k + 1);
            let e = crate::text::word_end(b, k + 1);
            lemma_words_shift(a, b, e);
            assert(s.subrange(a.len() + k, a.len() + e) =~= b.subrange(k, e));
        }
    }
}

proof fn lemma_words_of_join(l: Seq<Seq<char>>)
    requires
        forall|k: int| 0 <= k < l.len() ==> solid(#[trigger] l[k]),
    ensures
        crate::text::words(crate::text::join(l, seq![' '])) == l,
    decreases l.len(),
{
    if l.len() == 0 {
        assert(crate::text::words(Seq::<char>::empty()) =~= l);
    } else {
        let w = l[0];
        assert(solid(w));
        if l.len() == 1 {
            let x = crate::text::join(l, seq![' ']);
            assert(x == w);
            lemma_word_end_at(x, 1, x.len() as int);
            assert(x.subrange(0, x.len() as int) =~= x);
            assert(crate::text::words_from(x, x.len() as int) =~= Seq::<Seq<char>>::empty());
            assert(crate::text::words_from(x, 0) =~= seq![x]);
            assert(seq![w] =~= l);
        } else {
            let rest = l.drop_first();
            assert forall|k: int| 0 <= k < rest.len() implies solid(#[trigger] rest[k]) by {
                assert(rest[k] == l[k + 1]);
            }
            lemma_words_of_join(rest);
            lemma_join_front(l, seq![' ']);
            let jr = crate::text::join(rest, seq![' ']);
            let head = w + seq![' '];
            let x = head + jr;
            assert(x == crate::text::join(l, seq![' ']));
            assert forall|j: int| 1 <= j < w.len() implies !crate::text::is_ws(#[trigger] x[j]) by {
                assert(x[j] == w[j]);
            }
            assert(x[w.len() as int] == ' ');
            lemma_word_end_at(x, 1, w.len() as int);
            assert(x[0] == w[0]);
            assert(x.subrange(0, w.len() as int) =~= w);
            lemma_words_shift(head, jr, 0);
            assert(crate::text::words_from(x, w.len() as int) == crate::text::words_from(
                x,
                head.len() as int,
            ));
            assert(crate::text::words_from(x, 0) == seq![w] + rest);
            assert(seq![w] + rest =~= l);
        }
    }
}

/// A shortened title is trimmed, and shortening it again changes nothing:
/// `shorten_title` (and `shorten_title_if`) are idempotent.
pub proof fn law_shorten_title_trimmed_and_idempotent(title: Seq<char>)
    ensures
        crate::text::trim(crate::schale_models::shorten_title_spec(title))
            == crate::schale_models::shorten_title_spec(title),
        crate::schale_models::shorten_title_spec(crate::schale_models::shorten_title_spec(title))
            == crate::schale_models::shorten_title_spec(title),
{
    let t = crate::schale_models::strip_brackets(title);
    let ws = crate::text::words(t);
    lemma_words_solid(t, 0);
    lemma_join_single_spaced(ws);
    let r = crate::schale_models::shorten_title_spec(title);
    assert(r == crate::text::join(ws, seq![' ']));
    // trimmed
    if r.len() > 0 {
        if ws.len() == 0 {
            assert(crate::text::join(ws, seq![' ']).len() == 0);
        }
        assert(!crate::text::is_ws(r[0]));
        assert(!crate::text::is_ws(r[r.len() - 1]));
    }
    assert(crate::text::ws_run_end(r, 0) == 0);
    assert(r.skip(0) =~= r);
    assert(crate::text::ws_run_start(r, r.len() as int) == r.len());
    assert(r.take(r.len() as int) =~= r);
    // idempotent
    law_shorten_title_has_no_brackets(title);
    lemma_no_brackets_kept(r);
    lemma_words_of_join(ws);
}

} // verus!
