//! Records of the SchaleNetwork API and how they become series.
use vstd::prelude::*;

use crate::manga::{
    append_strings, lemma_strings_view_push, opt_list_view, opt_view, strings_view, ContentRating,
    Manga, MangaStatus, UpdateStrategy, Viewer,
};
use crate::num::{decimal, decimal_i64, decimal_u64};
use crate::text::{
    chars_of, extend_chars, join, join_exec, push_chars, push_str, slice_chars, split, split_exec,
    squeeze_ws, squeeze_ws_exec, string_of, trim_end, views, clone_strings, push_char, str_eq,
    trim_end_exec,
};

verus! {

// ---------------------------------------------------------------------------
// List / browse responses
// ---------------------------------------------------------------------------

/// One page of the book list.
pub struct Books {
    pub entries: Vec<Entry>,
    pub total: i32,
    pub limit: i32,
    pub page: i32,
}

pub struct Entry {
    pub id: i32,
    pub key: String,
    pub title: String,
    pub thumbnail: Thumbnail,
}

pub struct Thumbnail {
    pub path: String,
}

// ---------------------------------------------------------------------------
// Book detail response
// ---------------------------------------------------------------------------

pub struct MangaDetail {
    pub id: i32,
    pub key: String,
    pub title: String,
    pub created_at: i64,
    pub updated_at: Option<i64>,
    pub thumbnails: Thumbnails,
    pub tags: Vec<Tag>,
}

pub struct Thumbnails {
    pub base: String,
    pub main: Thumbnail,
    pub entries: Vec<Thumbnail>,
}

pub struct Tag {
    pub name: String,
    pub namespace: i32,
}

// ---------------------------------------------------------------------------
// Page list responses
// ---------------------------------------------------------------------------

pub struct MangaData {
    pub data: ImageData,
}

/// The image sets of a book, by width; `original` is the full size.
pub struct ImageData {
    pub original: DataKey,
    pub res780: Option<DataKey>,
    pub res980: Option<DataKey>,
    pub res1280: Option<DataKey>,
    pub res1600: Option<DataKey>,
}

pub struct DataKey {
    pub id: Option<i32>,
    pub key: Option<String>,
}

pub struct ImagesInfo {
    pub base: String,
    pub entries: Vec<ImagePath>,
}

pub struct ImagePath {
    pub path: String,
}

// ---------------------------------------------------------------------------
// Specifications
// ---------------------------------------------------------------------------

/// The key of a book: its id and its key, separated by `/`.
pub open spec fn book_key(id: i32, key: Seq<char>) -> Seq<char> {
    decimal(id as int) + seq!['/'] + key
}

pub open spec fn is_open_bracket(c: char) -> bool {
    c == '[' || c == '(' || c == '{'
}

pub open spec fn is_close_bracket(c: char) -> bool {
    c == ']' || c == ')' || c == '}'
}

/// How deeply nested in brackets the end of `s` is; a closing bracket at
/// depth zero is ignored.
pub open spec fn bracket_depth(s: Seq<char>) -> nat
    decreases s.len(),
{
    if s.len() == 0 {
        0
    } else {
        let d = bracket_depth(s.drop_last());
        let c = s.last();
        if is_open_bracket(c) {
            d + 1
        } else if is_close_bracket(c) {
            if d > 0 {
                (d - 1) as nat
            } else {
                0
            }
        } else {
            d
        }
    }
}

/// `s` without its brackets and what they enclose.
pub open spec fn strip_brackets(s: Seq<char>) -> Seq<char>
    decreases s.len(),
{
    if s.len() == 0 {
        Seq::<char>::empty()
    } else {
        let p = s.drop_last();
        let c = s.last();
        if is_open_bracket(c) || is_close_bracket(c) || bracket_depth(p) > 0 {
            strip_brackets(p)
        } else {
            strip_brackets(p).push(c)
        }
    }
}

/// A title without bracketed parts, its words separated by single spaces.
pub open spec fn shorten_title_spec(title: Seq<char>) -> Seq<char> {
    squeeze_ws(strip_brackets(title))
}

/// What `char::to_uppercase` yields for `c`.
pub uninterp spec fn char_to_uppercase(c: char) -> Seq<char>;

pub open spec fn capitalize_word(w: Seq<char>) -> Seq<char> {
    if w.len() == 0 {
        w
    } else {
        char_to_uppercase(w[0]) + w.skip(1)
    }
}

pub open spec fn capitalize_all(ws: Seq<Seq<char>>) -> Seq<Seq<char>> {
    Seq::new(ws.len(), |i: int| capitalize_word(ws[i]))
}

/// Each space-separated word of `s` with its first character upper-cased.
pub open spec fn capitalize_each_spec(s: Seq<char>) -> Seq<char> {
    join(capitalize_all(split(s, ' ')), seq![' '])
}

/// The description line for a labelled list (empty for an empty list).
pub open spec fn section(label: Seq<char>, items: Seq<Seq<char>>) -> Seq<char> {
    if items.len() == 0 {
        Seq::<char>::empty()
    } else {
        label + ": "@ + join(items, ", "@) + "\n"@
    }
}

/// How a tag name of namespace `ns` is shown.
pub open spec fn tag_label(ns: i32, name: Seq<char>) -> Seq<char> {
    let n = capitalize_each_spec(name);
    if ns == 8 {
        n + " ♂"@
    } else if ns == 9 {
        n + " ♀"@
    } else {
        n
    }
}

/// Whether a tag lands in the list of namespace `ns`.
pub open spec fn tag_in(t: Tag, ns: i32) -> bool {
    t.namespace == ns && (ns != 7 || t.name@ != "anonymous"@)
}

/// The shown names of the tags of namespace `ns`, in order.
pub open spec fn bucket(tags: Seq<Tag>, ns: i32) -> Seq<Seq<char>>
    decreases tags.len(),
{
    if tags.len() == 0 {
        Seq::<Seq<char>>::empty()
    } else {
        let b = bucket(tags.drop_last(), ns);
        let t = tags.last();
        if tag_in(t, ns) {
            b.push(tag_label(ns, t.name@))
        } else {
            b
        }
    }
}

/// Every tag name shown as a genre, grouped as the series page lists them.
pub open spec fn all_tags(tags: Seq<Tag>) -> Seq<Seq<char>> {
    bucket(tags, 1) + bucket(tags, 2) + bucket(tags, 3) + bucket(tags, 4) + bucket(tags, 5)
        + bucket(tags, 6) + bucket(tags, 0) + bucket(tags, 9) + bucket(tags, 8) + bucket(tags, 10)
        + bucket(tags, 12)
}

/// Authors: the circles, or the artists when there is no circle.
pub open spec fn author_names(tags: Seq<Tag>) -> Seq<Seq<char>> {
    if bucket(tags, 2).len() > 0 {
        bucket(tags, 2)
    } else {
        bucket(tags, 1)
    }
}

pub open spec fn nonempty_list(l: Seq<Seq<char>>) -> Option<Seq<Seq<char>>> {
    if l.len() == 0 {
        None
    } else {
        Some(l)
    }
}

/// The description of a book with tags `tags` and `pages` pages.
pub open spec fn description_spec(tags: Seq<Tag>, pages: nat) -> Seq<char> {
    let head = section("Circles"@, bucket(tags, 2)) + section("Uploaders"@, bucket(tags, 7))
        + section("Magazines"@, bucket(tags, 4)) + section("Cosplayers"@, bucket(tags, 6))
        + section("Parodies"@, bucket(tags, 3)) + section("Characters"@, bucket(tags, 5));
    let head2 = if head.len() > 0 {
        head.push('\n')
    } else {
        head
    };
    trim_end(head2 + "Pages: "@ + decimal(pages as int) + "\n"@)
}

/// An image set is usable when it is present and has an id.
pub open spec fn usable(o: Option<DataKey>) -> bool {
    o matches Some(k) && k.id is Some
}

pub open spec fn set_of(d: ImageData, width: int) -> Option<DataKey> {
    if width == 1600 {
        d.res1600
    } else if width == 1280 {
        d.res1280
    } else if width == 980 {
        d.res980
    } else if width == 780 {
        d.res780
    } else {
        None
    }
}

pub open spec fn width_label(width: int) -> Seq<char> {
    if width == 1600 {
        "1600"@
    } else if width == 1280 {
        "1280"@
    } else if width == 980 {
        "980"@
    } else if width == 780 {
        "780"@
    } else {
        "0"@
    }
}

/// The widths tried, in order, for a preferred width.
pub open spec fn fallback_order(preferred: Seq<char>) -> Seq<int> {
    if preferred == "1600"@ {
        seq![1600, 1280, 980, 780]
    } else if preferred == "1280"@ {
        seq![1280, 1600, 980, 780]
    } else if preferred == "980"@ {
        seq![980, 1280, 1600, 780]
    } else if preferred == "780"@ {
        seq![780, 980, 1280, 1600]
    } else {
        Seq::<int>::empty()
    }
}

/// The first usable set in `order`, with its width label; the original
/// set, labelled `0`, when none is usable.
pub open spec fn pick(d: ImageData, order: Seq<int>) -> (DataKey, Seq<char>)
    decreases order.len(),
{
    if order.len() == 0 {
        (d.original, "0"@)
    } else if usable(set_of(d, order[0])) {
        (set_of(d, order[0])->0, width_label(order[0]))
    } else {
        pick(d, order.drop_first())
    }
}

pub open spec fn select_quality_spec(d: ImageData, preferred: Seq<char>) -> (DataKey, Seq<char>) {
    pick(d, fallback_order(preferred))
}

// ---------------------------------------------------------------------------
// Title helpers
// ---------------------------------------------------------------------------

/// The title without bracketed parts and with its words separated by
/// single spaces.
pub fn shorten_title(title: &str) -> (r: String)
    ensures
        r@ == shorten_title_spec(title@),
{
    let s = chars_of(title);
    let mut out: Vec<char> = Vec::new();
    let mut depth: usize = 0;
    let mut i: usize = 0;
    while i < s.len()
        invariant
            i <= s.len(),
            depth <= i,
            depth == bracket_depth(s@.take(i as int)),
            out@ == strip_brackets(s@.take(i as int)),
        decreases s.len() - i,
    {
        let c = s[i];
        assert(s@.take(i + 1).drop_last() =~= s@.take(i as int));
        if c == '[' || c == '(' || c == '{' {
            depth = depth + 1;
        } else if c == ']' || c == ')' || c == '}' {
            if depth > 0 {
                depth = depth - 1;
            }
        } else if depth == 0 {
            out.push(c);
        }
        i = i + 1;
    }
    assert(s@.take(s.len() as int) =~= s@);
    let r = squeeze_ws_exec(&out);
    string_of(&r)
}

/// Calls `char::to_uppercase`, whose characters `char_to_uppercase` names.
#[verifier::external_body]
fn uppercase_of(c: char) -> (r: Vec<char>)
    ensures
        r@ == char_to_uppercase(c),
{
    c.to_uppercase().collect()
}

/// Each space-separated word of `s` with its first character upper-cased.
pub fn capitalize_each(s: &str) -> (r: String)
    ensures
        r@ == capitalize_each_spec(s@),
{
    let v = chars_of(s);
    let words = split_exec(&v, ' ');
    let ghost ws = views(words@);
    let mut caps: Vec<Vec<char>> = Vec::new();
    for i in 0..words.len()
        invariant
            ws == views(words@),
            caps@.len() == i,
            views(caps@) == capitalize_all(ws).take(i as int),
    {
        let w = &words[i];
        let mut c: Vec<char> = Vec::new();
        if w.len() > 0 {
            c = uppercase_of(w[0]);
            let rest = slice_chars(w, 1, w.len());
            extend_chars(&mut c, &rest);
            assert(rest@ =~= w@.skip(1));
        }
        assert(w@ == ws[i as int]);
        assert(c@ == capitalize_word(w@));
        let ghost prev = caps@;
        caps.push(c);
        assert(forall|j: int| 0 <= j < i ==> views(prev)[j] == #[trigger] views(caps@)[j]);
        assert(views(caps@) =~= capitalize_all(ws).take(i + 1));
    }
    assert(capitalize_all(ws).take(words.len() as int) =~= capitalize_all(ws));
    let j = join_exec(&caps, " ");
    proof {
        reveal_strlit(" ");
        assert(" "@ =~= seq![' ']);
    }
    string_of(&j)
}

/// Appends `label: a, b, ...` and a newline when `items` is not empty.
pub fn append_section(desc: &mut String, label: &str, items: &[String])
    ensures
        final(desc)@ == old(desc)@ + section(label@, strings_view(items@)),
{
    if items.len() > 0 {
        push_str(desc, label);
        push_str(desc, ": ");
        let mut v: Vec<Vec<char>> = Vec::new();
        for i in 0..items.len()
            invariant
                v@.len() == i,
                views(v@) == strings_view(items@).take(i as int),
        {
            let c = chars_of(items[i].as_str());
            let ghost prev = v@;
            v.push(c);
            assert(forall|j: int| 0 <= j < i ==> views(prev)[j] == #[trigger] views(v@)[j]);
            assert(views(v@) =~= strings_view(items@).take(i + 1));
        }
        assert(strings_view(items@).take(items.len() as int) =~= strings_view(items@));
        let j = join_exec(&v, ", ");
        push_chars(desc, &j);
        push_str(desc, "\n");
    }
}

// ---------------------------------------------------------------------------
// Tags by namespace
// ---------------------------------------------------------------------------

/// The shown tag names of a book, one list per namespace.
struct Buckets {
    genres: Vec<String>,
    artists: Vec<String>,
    circles: Vec<String>,
    parodies: Vec<String>,
    magazines: Vec<String>,
    characters: Vec<String>,
    cosplayers: Vec<String>,
    uploaders: Vec<String>,
    males: Vec<String>,
    females: Vec<String>,
    mixed: Vec<String>,
    other: Vec<String>,
}

spec fn buckets_of(b: Buckets, tags: Seq<Tag>) -> bool {
    &&& strings_view(b.genres@) == bucket(tags, 0)
    &&& strings_view(b.artists@) == bucket(tags, 1)
    &&& strings_view(b.circles@) == bucket(tags, 2)
    &&& strings_view(b.parodies@) == bucket(tags, 3)
    &&& strings_view(b.magazines@) == bucket(tags, 4)
    &&& strings_view(b.characters@) == bucket(tags, 5)
    &&& strings_view(b.cosplayers@) == bucket(tags, 6)
    &&& strings_view(b.uploaders@) == bucket(tags, 7)
    &&& strings_view(b.males@) == bucket(tags, 8)
    &&& strings_view(b.females@) == bucket(tags, 9)
    &&& strings_view(b.mixed@) == bucket(tags, 10)
    &&& strings_view(b.other@) == bucket(tags, 12)
}

fn sort_tags(tags: &Vec<Tag>) -> (b: Buckets)
    ensures
        buckets_of(b, tags@),
{
    let mut b = Buckets {
        genres: Vec::new(),
        artists: Vec::new(),
        circles: Vec::new(),
        parodies: Vec::new(),
        magazines: Vec::new(),
        characters: Vec::new(),
        cosplayers: Vec::new(),
        uploaders: Vec::new(),
        males: Vec::new(),
        females: Vec::new(),
        mixed: Vec::new(),
        other: Vec::new(),
    };
    assert(strings_view(Seq::<String>::empty()) =~= Seq::<Seq<char>>::empty());
    assert(buckets_of(b, tags@.take(0)));
    for i in 0..tags.len()
        invariant
            buckets_of(b, tags@.take(i as int)),
    {
        let tag = &tags[i];
        let ghost pre = tags@.take(i as int);
        let ghost cur = tags@.take(i + 1);
        assert(cur.drop_last() =~= pre);
        assert(cur.last() == *tag);
        let mut name = capitalize_each(tag.name.as_str());
        let ghost n = name;
        proof {
            lemma_strings_view_push(b.genres@, name);
            lemma_strings_view_push(b.artists@, name);
            lemma_strings_view_push(b.circles@, name);
            lemma_strings_view_push(b.parodies@, name);
            lemma_strings_view_push(b.magazines@, name);
            lemma_strings_view_push(b.characters@, name);
            lemma_strings_view_push(b.cosplayers@, name);
            lemma_strings_view_push(b.uploaders@, name);
            lemma_strings_view_push(b.mixed@, name);
            lemma_strings_view_push(b.other@, name);
        }
        let ns = tag.namespace;
        if ns == 0 {
            b.genres.push(name);
        } else if ns == 1 {
            b.artists.push(name);
        } else if ns == 2 {
            b.circles.push(name);
        } else if ns == 3 {
            b.parodies.push(name);
        } else if ns == 4 {
            b.magazines.push(name);
        } else if ns == 5 {
            b.characters.push(name);
        } else if ns == 6 {
            b.cosplayers.push(name);
        } else if ns == 7 {
            if !str_eq(tag.name.as_str(), "anonymous") {
                b.uploaders.push(name);
            }
        } else if ns == 8 {
            push_str(&mut name, " ♂");
            proof {
                lemma_strings_view_push(b.males@, name);
            }
            b.males.push(name);
        } else if ns == 9 {
            push_str(&mut name, " ♀");
            proof {
                lemma_strings_view_push(b.females@, name);
            }
            b.females.push(name);
        } else if ns == 10 {
            b.mixed.push(name);
        } else if ns == 12 {
            b.other.push(name);
        }
    }
    assert(tags@.take(tags.len() as int) =~= tags@);
    b
}

impl MangaDetail {
    /// The key of this book: `{id}/{key}`.
    pub fn manga_key(&self) -> (r: String)
        ensures
            r@ == book_key(self.id, self.key@),
    {
        let mut v = decimal_i64(self.id as i64);
        v.push('/');
        let k = chars_of(self.key.as_str());
        extend_chars(&mut v, &k);
        string_of(&v)
    }

    /// The time of the last update, or of creation when never updated.
    pub fn date(&self) -> (r: i64)
        ensures
            r == match self.updated_at {
                Some(t) => t,
                None => self.created_at,
            },
    {
        match self.updated_at {
            Some(t) => t,
            None => self.created_at,
        }
    }

    /// The series this book detail describes.
    pub fn to_manga(&self, remove_brackets: bool) -> (m: Manga)
        ensures
            m.key@ == book_key(self.id, self.key@),
            m.title@ == (if remove_brackets {
                shorten_title_spec(self.title@)
            } else {
                self.title@
            }),
            opt_view(m.cover) == Some(self.thumbnails.base@ + self.thumbnails.main.path@),
            opt_view(m.description) == Some(
                description_spec(self.tags@, self.thumbnails.entries.len() as nat),
            ),
            opt_view(m.url) == Some("https://schale.network/g/"@ + book_key(self.id, self.key@)),
            opt_list_view(m.authors) == nonempty_list(author_names(self.tags@)),
            opt_list_view(m.artists) == nonempty_list(bucket(self.tags@, 1)),
            opt_list_view(m.tags) == nonempty_list(all_tags(self.tags@)),
            m.status == MangaStatus::Completed,
            m.content_rating == ContentRating::NSFW,
            m.viewer == Viewer::RightToLeft,
            m.update_strategy == UpdateStrategy::Never,
    {
        let title = if remove_brackets {
            shorten_title(self.title.as_str())
        } else {
            self.title.clone()
        };
        let b = sort_tags(&self.tags);

        let authors = if b.circles.len() > 0 {
            clone_strings(&b.circles)
        } else {
            clone_strings(&b.artists)
        };

        let mut tags: Vec<String> = Vec::new();
        append_strings(&mut tags, &b.artists);
        append_strings(&mut tags, &b.circles);
        append_strings(&mut tags, &b.parodies);
        append_strings(&mut tags, &b.magazines);
        append_strings(&mut tags, &b.characters);
        append_strings(&mut tags, &b.cosplayers);
        append_strings(&mut tags, &b.genres);
        append_strings(&mut tags, &b.females);
        append_strings(&mut tags, &b.males);
        append_strings(&mut tags, &b.mixed);
        append_strings(&mut tags, &b.other);
        proof {
            let t = self.tags@;
            assert(tags@ =~= b.artists@ + b.circles@ + b.parodies@ + b.magazines@ + b.characters@
                + b.cosplayers@ + b.genres@ + b.females@ + b.males@ + b.mixed@ + b.other@);
            assert(strings_view(tags@) =~= all_tags(t));
        }

        let mut desc = String::new();
        append_section(&mut desc, "Circles", b.circles.as_slice());
        append_section(&mut desc, "Uploaders", b.uploaders.as_slice());
        append_section(&mut desc, "Magazines", b.magazines.as_slice());
        append_section(&mut desc, "Cosplayers", b.cosplayers.as_slice());
        append_section(&mut desc, "Parodies", b.parodies.as_slice());
        append_section(&mut desc, "Characters", b.characters.as_slice());
        let head = chars_of(desc.as_str());
        if head.len() > 0 {
            push_char(&mut desc, '\n');
        }
        push_str(&mut desc, "Pages: ");
        let count = decimal_u64(self.thumbnails.entries.len() as u64);
        push_chars(&mut desc, &count);
        push_str(&mut desc, "\n");
        let full = chars_of(desc.as_str());
        let trimmed = trim_end_exec(&full);
        let description = string_of(&trimmed);
        proof {
            reveal_strlit("\n");
            assert("\n"@ =~= seq!['\n']);
        }

        let mut cover = String::new();
        push_str(&mut cover, self.thumbnails.base.as_str());
        push_str(&mut cover, self.thumbnails.main.path.as_str());

        let mut url = String::new();
        push_str(&mut url, "https://schale.network/g/");
        let key = self.manga_key();
        push_str(&mut url, key.as_str());

        let artists = if b.artists.len() > 0 {
            Some(clone_strings(&b.artists))
        } else {
            None
        };
        Manga {
            key: self.manga_key(),
            title,
            cover: Some(cover),
            artists,
            authors: if authors.len() > 0 {
                Some(authors)
            } else {
                None
            },
            description: Some(description),
            url: Some(url),
            tags: if tags.len() > 0 {
                Some(tags)
            } else {
                None
            },
            status: MangaStatus::Completed,
            content_rating: ContentRating::NSFW,
            viewer: Viewer::RightToLeft,
            update_strategy: UpdateStrategy::Never,
        }
    }
}

/// The series shown for a book of the list.
pub fn manga_from_entry(e: Entry) -> (m: Manga)
    ensures
        m.key@ == book_key(e.id, e.key@),
        m.title == e.title,
        opt_view(m.cover) == Some(e.thumbnail.path@),
        opt_view(m.url) == Some("https://niyaniya.moe/g/"@ + book_key(e.id, e.key@)),
        m.artists is None,
        m.authors is None,
        m.description is None,
        m.tags is None,
        m.status == MangaStatus::Completed,
        m.content_rating == ContentRating::NSFW,
        m.viewer == Viewer::Unknown,
        m.update_strategy == UpdateStrategy::Never,
{
    let mut key = decimal_i64(e.id as i64);
    key.push('/');
    let k = chars_of(e.key.as_str());
    extend_chars(&mut key, &k);
    let mut url = String::new();
    push_str(&mut url, "https://niyaniya.moe/g/");
    push_chars(&mut url, &key);
    Manga {
        key: string_of(&key),
        title: e.title,
        cover: Some(e.thumbnail.path),
        artists: None,
        authors: None,
        description: None,
        url: Some(url),
        tags: None,
        status: MangaStatus::Completed,
        content_rating: ContentRating::NSFW,
        viewer: Viewer::Unknown,
        update_strategy: UpdateStrategy::Never,
    }
}

/// The image set that best matches the preferred width, falling back
/// through the other widths, and to the original set; with its width label.
pub fn select_quality<'a>(data: &'a ImageData, preferred: &str) -> (r: (&'a DataKey, &'static str))
    ensures
        (*r.0, r.1@) == select_quality_spec(*data, preferred@),
{
    let order: Vec<u32> = if str_eq(preferred, "1600") {
        vec![1600u32, 1280, 980, 780]
    } else if str_eq(preferred, "1280") {
        vec![1280u32, 1600, 980, 780]
    } else if str_eq(preferred, "980") {
        vec![980u32, 1280, 1600, 780]
    } else if str_eq(preferred, "780") {
        vec![780u32, 980, 1280, 1600]
    } else {
        Vec::new()
    };
    let ghost full = fallback_order(preferred@);
    assert(full =~= order@.map_values(|w: u32| w as int));
    assert(full.skip(0) =~= full);
    let mut i: usize = 0;
    while i < order.len()
        invariant
            i <= order.len(),
            forall|j: int|
                0 <= j < order.len() ==> (order@[j] == 1600 || order@[j] == 1280 || order@[j] == 980
                    || order@[j] == 780),
            full == order@.map_values(|w: u32| w as int),
            full == fallback_order(preferred@),
            pick(*data, full) == pick(*data, full.skip(i as int)),
        decreases order.len() - i,
    {
        let w = order[i];
        let ghost rest = full.skip(i as int);
        assert(rest[0] == w as int);
        assert(rest.drop_first() =~= full.skip(i + 1));
        if w == 1600 {
            if let Some(k) = &data.res1600 {
                if k.id.is_some() {
                    return (k, "1600");
                }
            }
        } else if w == 1280 {
            if let Some(k) = &data.res1280 {
                if k.id.is_some() {
                    return (k, "1280");
                }
            }
        } else if w == 980 {
            if let Some(k) = &data.res980 {
                if k.id.is_some() {
                    return (k, "980");
                }
            }
        } else if w == 780 {
            if let Some(k) = &data.res780 {
                if k.id.is_some() {
                    return (k, "780");
                }
            }
        } else {
            assert(false);
        }
        i = i + 1;
    }
    assert(full.skip(i as int).len() == 0);
    (&data.original, "0")
}

} // verus!
