//! Character-level string operations, each with a specification over
//! `Seq<char>` and an executable version proved against it.
use vstd::prelude::*;

verus! {

// ---------------------------------------------------------------------------
// Character classes
// ---------------------------------------------------------------------------

/// The Unicode `White_Space` characters (what `char::is_whitespace` accepts).
pub open spec fn is_ws(c: char) -> bool {
    ||| ('\u{9}' <= c && c <= '\u{d}')
    ||| c == ' '
    ||| c == '\u{85}'
    ||| c == '\u{a0}'
    ||| c == '\u{1680}'
    ||| ('\u{2000}' <= c && c <= '\u{200a}')
    ||| c == '\u{2028}'
    ||| c == '\u{2029}'
    ||| c == '\u{202f}'
    ||| c == '\u{205f}'
    ||| c == '\u{3000}'
}

pub fn is_whitespace(c: char) -> (r: bool)
    ensures
        r == is_ws(c),
{
    ('\u{9}' <= c && c <= '\u{d}') || c == ' ' || c == '\u{85}' || c == '\u{a0}' || c
        == '\u{1680}' || ('\u{2000}' <= c && c <= '\u{200a}') || c == '\u{2028}' || c
        == '\u{2029}' || c == '\u{202f}' || c == '\u{205f}' || c == '\u{3000}'
}

pub open spec fn is_digit(c: char) -> bool {
    '0' <= c && c <= '9'
}

/// The character sequences held by a vector of character vectors.
pub open spec fn views(v: Seq<Vec<char>>) -> Seq<Seq<char>> {
    v.map_values(|x: Vec<char>| x@)
}

// ---------------------------------------------------------------------------
// Conversions between `&str`, `String` and `Vec<char>`
// ---------------------------------------------------------------------------

/// Appends one character to a string.
/// Calls `String::push`, which adds `c` at the end of `s`.
#[verifier::external_body]
pub fn push_char(s: &mut String, c: char)
    ensures
        final(s)@ == old(s)@.push(c),
{
    s.push(c);
}

/// The characters of a string slice, in order.
pub fn chars_of(s: &str) -> (v: Vec<char>)
    ensures
        v@ == s@,
{
    let mut v: Vec<char> = Vec::new();
    for c in it: s.chars()
        invariant
            v@ == it.seq().take(it.index()),
    {
        v.push(c);
    }
    v
}

/// Appends the characters of `v` to `s`.
pub fn push_chars(s: &mut String, v: &Vec<char>)
    ensures
        final(s)@ == old(s)@ + v@,
{
    let ghost start = s@;
    for i in 0..v.len()
        invariant
            s@ == start + v@.take(i as int),
    {
        push_char(s, v[i]);
        assert(v@.take(i + 1) =~= v@.take(i as int).push(v@[i as int]));
    }
    assert(v@.take(v.len() as int) =~= v@);
}

/// Appends the characters of `t` to `s`.
pub fn push_str(s: &mut String, t: &str)
    ensures
        final(s)@ == old(s)@ + t@,
{
    let v = chars_of(t);
    push_chars(s, &v);
}

/// A string holding the characters of `v`.
pub fn string_of(v: &Vec<char>) -> (s: String)
    ensures
        s@ == v@,
{
    let mut s = String::new();
    push_chars(&mut s, v);
    assert(Seq::<char>::empty() + v@ =~= v@);
    s
}

/// Appends the characters of `t` to `v`.
pub fn extend_chars(v: &mut Vec<char>, t: &Vec<char>)
    ensures
        final(v)@ == old(v)@ + t@,
{
    let ghost start = v@;
    for i in 0..t.len()
        invariant
            v@ == start + t@.take(i as int),
    {
        v.push(t[i]);
        assert(t@.take(i + 1) =~= t@.take(i as int).push(t@[i as int]));
    }
    assert(t@.take(t.len() as int) =~= t@);
}

/// Appends the characters of `t` to `v`.
pub fn extend_str(v: &mut Vec<char>, t: &str)
    ensures
        final(v)@ == old(v)@ + t@,
{
    let w = chars_of(t);
    extend_chars(v, &w);
}

/// The characters `s[from..to]`.
pub fn slice_chars(s: &Vec<char>, from: usize, to: usize) -> (r: Vec<char>)
    requires
        from <= to <= s.len(),
    ensures
        r@ == s@.subrange(from as int, to as int),
{
    let mut r: Vec<char> = Vec::new();
    let mut i = from;
    while i < to
        invariant
            from <= i <= to <= s.len(),
            r@ == s@.subrange(from as int, i as int),
        decreases to - i,
    {
        r.push(s[i]);
        assert(s@.subrange(from as int, i + 1) =~= s@.subrange(from as int, i as int).push(
            s@[i as int],
        ));
        i = i + 1;
    }
    r
}

/// Whether two character sequences are equal.
pub fn chars_eq(a: &Vec<char>, b: &Vec<char>) -> (r: bool)
    ensures
        r == (a@ == b@),
{
    if a.len() != b.len() {
        return false;
    }
    let mut i: usize = 0;
    while i < a.len()
        invariant
            a.len() == b.len(),
            i <= a.len(),
            forall|k: int| 0 <= k < i ==> a@[k] == b@[k],
        decreases a.len() - i,
    {
        if a[i] != b[i] {
            return false;
        }
        i = i + 1;
    }
    assert(a@ =~= b@);
    true
}

/// Whether a string slice equals the given characters.
pub fn str_eq(a: &str, b: &str) -> (r: bool)
    ensures
        r == (a@ == b@),
{
    let x = chars_of(a);
    let y = chars_of(b);
    chars_eq(&x, &y)
}

// ---------------------------------------------------------------------------
// Prefixes, suffixes and searching
// ---------------------------------------------------------------------------

pub open spec fn starts_with(s: Seq<char>, p: Seq<char>) -> bool {
    p.len() <= s.len() && s.take(p.len() as int) == p
}

pub open spec fn ends_with(s: Seq<char>, p: Seq<char>) -> bool {
    p.len() <= s.len() && s.skip(s.len() - p.len()) == p
}

/// `p` occurs in `s` starting at position `i`.
pub open spec fn matches_at(s: Seq<char>, p: Seq<char>, i: int) -> bool {
    0 <= i && i + p.len() <= s.len() && s.subrange(i, i + p.len()) == p
}

/// The first position at or after `i` where `p` occurs in `s`.
pub open spec fn find_from(s: Seq<char>, p: Seq<char>, i: int) -> Option<int>
    decreases s.len() - i,
{
    if i < 0 || i + p.len() > s.len() {
        None
    } else if matches_at(s, p, i) {
        Some(i)
    } else if i >= s.len() {
        None
    } else {
        find_from(s, p, i + 1)
    }
}

/// The first position where `p` occurs in `s`.
pub open spec fn find(s: Seq<char>, p: Seq<char>) -> Option<int> {
    find_from(s, p, 0)
}

pub open spec fn contains(s: Seq<char>, p: Seq<char>) -> bool {
    find(s, p) is Some
}

/// What `find_from` returns is an occurrence, and the first one from `i`.
pub proof fn lemma_find_from(s: Seq<char>, p: Seq<char>, i: int)
    requires
        0 <= i,
    ensures
        find_from(s, p, i) matches Some(j) ==> i <= j && matches_at(s, p, j) && forall|k: int|
            i <= k < j ==> !matches_at(s, p, k),
        find_from(s, p, i) is None ==> forall|k: int| i <= k ==> !matches_at(s, p, k),
    decreases s.len() - i,
{
    if i + p.len() > s.len() {
    } else if matches_at(s, p, i) {
    } else if i >= s.len() {
    } else {
        lemma_find_from(s, p, i + 1);
        assert forall|k: int| i <= k && find_from(s, p, i) is None implies !matches_at(s, p, k) by {
            if k == i {
            }
        }
    }
}

/// Whether `p` occurs in `s` at position `i`.
pub fn matches_at_exec(s: &Vec<char>, p: &Vec<char>, i: usize) -> (r: bool)
    ensures
        r == matches_at(s@, p@, i as int),
{
    if i > s.len() || p.len() > s.len() - i {
        return false;
    }
    let mut k: usize = 0;
    while k < p.len()
        invariant
            i + p.len() <= s.len(),
            k <= p.len(),
            forall|j: int| 0 <= j < k ==> s@[i + j] == p@[j],
        decreases p.len() - k,
    {
        if s[i + k] != p[k] {
            assert(s@.subrange(i as int, i + p.len())[k as int] != p@[k as int]);
            return false;
        }
        k = k + 1;
    }
    assert(s@.subrange(i as int, i + p.len()) =~= p@);
    true
}

/// The first position of `p` in `s`.
pub fn find_exec(s: &Vec<char>, p: &Vec<char>) -> (r: Option<usize>)
    ensures
        r matches Some(j) ==> find(s@, p@) == Some(j as int),
        r is None ==> find(s@, p@) is None,
{
    let mut i: usize = 0;
    while i <= s.len()
        invariant
            find_from(s@, p@, 0) == find_from(s@, p@, i as int),
        decreases s.len() + 1 - i,
    {
        if p.len() > s.len() - i {
            return None;
        }
        if matches_at_exec(s, p, i) {
            return Some(i);
        }
        if i == s.len() {
            return None;
        }
        i = i + 1;
    }
    None
}

/// Whether `p` occurs in `s`.
pub fn contains_exec(s: &Vec<char>, p: &str) -> (r: bool)
    ensures
        r == contains(s@, p@),
{
    let pv = chars_of(p);
    find_exec(s, &pv).is_some()
}

/// Whether `s` begins with `p`.
pub fn starts_with_exec(s: &Vec<char>, p: &Vec<char>) -> (r: bool)
    ensures
        r == starts_with(s@, p@),
{
    let r = matches_at_exec(s, p, 0);
    assert(s@.subrange(0, p@.len() as int) =~= s@.take(p@.len() as int));
    r
}

/// Whether `s` ends with `p`.
pub fn ends_with_exec(s: &Vec<char>, p: &Vec<char>) -> (r: bool)
    ensures
        r == ends_with(s@, p@),
{
    if p.len() > s.len() {
        return false;
    }
    let r = matches_at_exec(s, p, s.len() - p.len());
    assert(s@.subrange(s.len() - p.len(), s.len() as int) =~= s@.skip(s.len() - p.len()));
    r
}

/// `s` without the prefix `p`, when `s` begins with it.
pub open spec fn strip_prefix(s: Seq<char>, p: Seq<char>) -> Option<Seq<char>> {
    if starts_with(s, p) {
        Some(s.skip(p.len() as int))
    } else {
        None
    }
}

pub fn strip_prefix_exec(s: &Vec<char>, p: &str) -> (r: Option<Vec<char>>)
    ensures
        r matches Some(v) ==> strip_prefix(s@, p@) == Some(v@),
        r is None ==> strip_prefix(s@, p@) is None,
{
    let pv = chars_of(p);
    if starts_with_exec(s, &pv) {
        let v = slice_chars(s, pv.len(), s.len());
        assert(v@ =~= s@.skip(p@.len() as int));
        Some(v)
    } else {
        None
    }
}

// ---------------------------------------------------------------------------
// Trimming
// ---------------------------------------------------------------------------

/// The end of the run of whitespace that starts at `i`.
pub open spec fn ws_run_end(s: Seq<char>, i: int) -> int
    decreases s.len() - i,
{
    if 0 <= i < s.len() && is_ws(s[i]) {
        ws_run_end(s, i + 1)
    } else {
        i
    }
}

/// The start of the run of whitespace that ends just before `j`.
pub open spec fn ws_run_start(s: Seq<char>, j: int) -> int
    decreases j,
{
    if 0 < j <= s.len() && is_ws(s[j - 1]) {
        ws_run_start(s, j - 1)
    } else {
        j
    }
}

pub open spec fn trim_start(s: Seq<char>) -> Seq<char> {
    s.skip(ws_run_end(s, 0))
}

pub open spec fn trim_end(s: Seq<char>) -> Seq<char> {
    s.take(ws_run_start(s, s.len() as int))
}

/// `s` without leading and trailing whitespace (what `str::trim` gives).
pub open spec fn trim(s: Seq<char>) -> Seq<char> {
    trim_end(trim_start(s))
}

pub proof fn lemma_ws_run_end(s: Seq<char>, i: int)
    requires
        0 <= i <= s.len(),
    ensures
        i <= ws_run_end(s, i) <= s.len(),
        forall|k: int| i <= k < ws_run_end(s, i) ==> is_ws(s[k]),
        ws_run_end(s, i) < s.len() ==> !is_ws(s[ws_run_end(s, i)]),
    decreases s.len() - i,
{
    if i < s.len() && is_ws(s[i]) {
        lemma_ws_run_end(s, i + 1);
    }
}

pub proof fn lemma_ws_run_start(s: Seq<char>, j: int)
    requires
        0 <= j <= s.len(),
    ensures
        0 <= ws_run_start(s, j) <= j,
        forall|k: int| ws_run_start(s, j) <= k < j ==> is_ws(s[k]),
        ws_run_start(s, j) > 0 ==> !is_ws(s[ws_run_start(s, j) - 1]),
    decreases j,
{
    if j > 0 && is_ws(s[j - 1]) {
        lemma_ws_run_start(s, j - 1);
    }
}

/// Position of the first non-whitespace character at or after `i`.
pub fn skip_ws(s: &Vec<char>, i: usize) -> (r: usize)
    requires
        i <= s.len(),
    ensures
        r == ws_run_end(s@, i as int),
        i <= r <= s.len(),
{
    let mut j = i;
    while j < s.len() && is_whitespace(s[j])
        invariant
            i <= j <= s.len(),
            ws_run_end(s@, i as int) == ws_run_end(s@, j as int),
        decreases s.len() - j,
    {
        j = j + 1;
    }
    j
}

/// `s` without leading and trailing whitespace.
pub fn trim_exec(s: &Vec<char>) -> (r: Vec<char>)
    ensures
        r@ == trim(s@),
{
    let a = skip_ws(s, 0);
    let ghost t = s@.skip(a as int);
    let mut j = s.len() - a;
    while j > 0 && is_whitespace(s[a + j - 1])
        invariant
            a <= s.len(),
            t == s@.skip(a as int),
            j <= t.len(),
            ws_run_start(t, t.len() as int) == ws_run_start(t, j as int),
        decreases j,
    {
        assert(t[j - 1] == s@[a + j - 1]);
        j = j - 1;
    }
    proof {
        if j > 0 {
            assert(t[j - 1] == s@[a + j - 1]);
        }
    }
    let r = slice_chars(s, a, a + j);
    assert(r@ =~= t.take(j as int));
    r
}

/// `s` without leading and trailing whitespace.
pub fn trim_str(s: &str) -> (r: Vec<char>)
    ensures
        r@ == trim(s@),
{
    let v = chars_of(s);
    trim_exec(&v)
}

// ---------------------------------------------------------------------------
// Splitting and joining
// ---------------------------------------------------------------------------

/// The pieces of `s` between occurrences of `c` (what `str::split` with a
/// `char` pattern yields); always at least one piece.
pub open spec fn split(s: Seq<char>, c: char) -> Seq<Seq<char>>
    decreases s.len(),
{
    if s.len() == 0 {
        seq![Seq::<char>::empty()]
    } else {
        let p = split(s.drop_last(), c);
        if s.last() == c {
            p.push(Seq::<char>::empty())
        } else {
            p.update(p.len() - 1, p.last().push(s.last()))
        }
    }
}

pub proof fn lemma_split_nonempty(s: Seq<char>, c: char)
    ensures
        split(s, c).len() >= 1,
    decreases s.len(),
{
    if s.len() > 0 {
        lemma_split_nonempty(s.drop_last(), c);
    }
}

/// The pieces of `s` separated by `c`.
pub fn split_exec(s: &Vec<char>, c: char) -> (r: Vec<Vec<char>>)
    ensures
        views(r@) == split(s@, c),
{
    let mut done: Vec<Vec<char>> = Vec::new();
    let mut cur: Vec<char> = Vec::new();
    let mut i: usize = 0;
    while i < s.len()
        invariant
            i <= s.len(),
            views(done@).push(cur@) == split(s@.take(i as int), c),
        decreases s.len() - i,
    {
        let ghost prev = views(done@);
        let ghost prev_cur = cur@;
        proof {
            lemma_split_nonempty(s@.take(i as int), c);
            assert(s@.take(i + 1).drop_last() =~= s@.take(i as int));
        }
        if s[i] == c {
            let full = cur;
            done.push(full);
            cur = Vec::new();
            assert(views(done@) =~= prev.push(prev_cur));
            assert(views(done@).push(cur@) =~= split(s@.take(i + 1), c));
        } else {
            cur.push(s[i]);
            assert(views(done@).push(cur@) =~= split(s@.take(i + 1), c));
        }
        i = i + 1;
    }
    let ghost prev = views(done@);
    done.push(cur);
    assert(views(done@) =~= prev.push(done@[done.len() - 1]@));
    assert(s@.take(s.len() as int) =~= s@);
    done
}

/// The strings of `l` joined with `sep` between neighbours.
pub open spec fn join(l: Seq<Seq<char>>, sep: Seq<char>) -> Seq<char>
    decreases l.len(),
{
    if l.len() == 0 {
        Seq::<char>::empty()
    } else if l.len() == 1 {
        l[0]
    } else {
        join(l.drop_last(), sep) + sep + l.last()
    }
}

/// The strings of `l` joined with `sep` between neighbours.
pub fn join_exec(l: &Vec<Vec<char>>, sep: &str) -> (r: Vec<char>)
    ensures
        r@ == join(views(l@), sep@),
{
    let mut r: Vec<char> = Vec::new();
    let ghost dv = views(l@);
    for i in 0..l.len()
        invariant
            dv == views(l@),
            r@ == join(dv.take(i as int), sep@),
    {
        assert(dv.take(i + 1).drop_last() =~= dv.take(i as int));
        if i > 0 {
            extend_str(&mut r, sep);
        }
        extend_chars(&mut r, &l[i]);
        proof {
            if i == 0 {
                assert(r@ =~= dv.take(1)[0]);
            }
        }
    }
    assert(dv.take(l.len() as int) =~= dv);
    r
}

/// Joining one more string appends the separator (if needed) and the string.
pub proof fn lemma_join_push(l: Seq<Seq<char>>, w: Seq<char>, sep: Seq<char>)
    ensures
        join(l.push(w), sep) == join(l, sep) + (if l.len() == 0 {
            Seq::<char>::empty()
        } else {
            sep
        }) + w,
{
    assert(l.push(w).drop_last() =~= l);
    if l.len() == 0 {
        assert(join(l, sep) + Seq::<char>::empty() + w =~= w);
    }
}

// ---------------------------------------------------------------------------
// Replacing
// ---------------------------------------------------------------------------

/// `s[i..]` with every occurrence of `from` replaced by `to`, scanning from
/// the left without overlaps (what `str::replace` does).
pub open spec fn replace_from(s: Seq<char>, from: Seq<char>, to: Seq<char>, i: int) -> Seq<char>
    decreases s.len() - i,
{
    if i < 0 || i >= s.len() || from.len() == 0 {
        Seq::<char>::empty()
    } else if matches_at(s, from, i) {
        to + replace_from(s, from, to, i + from.len())
    } else {
        seq![s[i]] + replace_from(s, from, to, i + 1)
    }
}

/// `s` with every occurrence of `from` replaced by `to`.
pub open spec fn replace(s: Seq<char>, from: Seq<char>, to: Seq<char>) -> Seq<char> {
    replace_from(s, from, to, 0)
}

/// `s` with every occurrence of `from` replaced by `to`.
pub fn replace_exec(s: &Vec<char>, from: &str, to: &str) -> (r: Vec<char>)
    requires
        from@.len() > 0,
    ensures
        r@ == replace(s@, from@, to@),
{
    let fv = chars_of(from);
    let tv = chars_of(to);
    let mut r: Vec<char> = Vec::new();
    let mut i: usize = 0;
    while i < s.len()
        invariant
            fv@ == from@,
            tv@ == to@,
            fv@.len() > 0,
            i <= s.len(),
            r@ + replace_from(s@, fv@, tv@, i as int) == replace_from(s@, fv@, tv@, 0),
        decreases s.len() - i,
    {
        let ghost old_r = r@;
        if matches_at_exec(s, &fv, i) {
            extend_chars(&mut r, &tv);
            assert(r@ + replace_from(s@, fv@, tv@, i + fv@.len()) =~= old_r + replace_from(
                s@,
                fv@,
                tv@,
                i as int,
            ));
            i = i + fv.len();
        } else {
            r.push(s[i]);
            assert(r@ + replace_from(s@, fv@, tv@, i + 1) =~= old_r + replace_from(
                s@,
                fv@,
                tv@,
                i as int,
            ));
            i = i + 1;
        }
    }
    assert(r@ =~= r@ + replace_from(s@, fv@, tv@, i as int));
    r
}

} // verus!

verus! {

// ---------------------------------------------------------------------------
// Words
// ---------------------------------------------------------------------------

/// The end of the run of non-whitespace characters that starts at `i`.
pub open spec fn word_end(s: Seq<char>, i: int) -> int
    decreases s.len() - i,
{
    if 0 <= i < s.len() && !is_ws(s[i]) {
        word_end(s, i + 1)
    } else {
        i
    }
}

pub proof fn lemma_word_end(s: Seq<char>, i: int)
    requires
        0 <= i <= s.len(),
    ensures
        i <= word_end(s, i) <= s.len(),
        forall|k: int| i <= k < word_end(s, i) ==> !is_ws(s[k]),
        word_end(s, i) < s.len() ==> is_ws(s[word_end(s, i)]),
    decreases s.len() - i,
{
    if i < s.len() && !is_ws(s[i]) {
        lemma_word_end(s, i + 1);
    }
}

/// The maximal runs of non-whitespace characters of `s[i..]`, in order
/// (what `str::split_whitespace` yields).
pub open spec fn words_from(s: Seq<char>, i: int) -> Seq<Seq<char>>
    decreases s.len() - i,
{
    if i < 0 || i >= s.len() {
        Seq::<Seq<char>>::empty()
    } else if is_ws(s[i]) {
        words_from(s, i + 1)
    } else {
        let e = word_end(s, i + 1);
        proof {
            lemma_word_end(s, i + 1);
        }
        seq![s.subrange(i, e)] + words_from(s, e)
    }
}

pub open spec fn words(s: Seq<char>) -> Seq<Seq<char>> {
    words_from(s, 0)
}

/// The words of `s` joined by single spaces.
pub open spec fn squeeze_ws(s: Seq<char>) -> Seq<char> {
    join(words(s), seq![' '])
}

/// The words of `s` joined by single spaces.
pub fn squeeze_ws_exec(s: &Vec<char>) -> (r: Vec<char>)
    ensures
        r@ == squeeze_ws(s@),
{
    let mut r: Vec<char> = Vec::new();
    let ghost mut seen: Seq<Seq<char>> = Seq::empty();
    let mut i: usize = 0;
    let mut any = false;
    while i < s.len()
        invariant
            i <= s.len(),
            any == (seen.len() > 0),
            words(s@) == seen + words_from(s@, i as int),
            r@ == join(seen, seq![' ']),
        decreases s.len() - i,
    {
        if is_whitespace(s[i]) {
            i = i + 1;
        } else {
            let mut e = i + 1;
            while e < s.len() && !is_whitespace(s[e])
                invariant
                    i < e <= s.len(),
                    word_end(s@, i + 1) == word_end(s@, e as int),
                decreases s.len() - e,
            {
                e = e + 1;
            }
            let w = slice_chars(s, i, e);
            proof {
                lemma_join_push(seen, w@, seq![' ']);
                assert(words_from(s@, i as int) == seq![w@] + words_from(s@, e as int));
                assert(seen + words_from(s@, i as int) =~= seen.push(w@) + words_from(
                    s@,
                    e as int,
                ));
            }
            if any {
                r.push(' ');
            }
            extend_chars(&mut r, &w);
            proof {
                seen = seen.push(w@);
            }
            any = true;
            i = e;
        }
    }
    assert(seen + words_from(s@, i as int) =~= seen);
    r
}

} // verus!

verus! {

/// `s` without trailing whitespace.
pub fn trim_end_exec(s: &Vec<char>) -> (r: Vec<char>)
    ensures
        r@ == trim_end(s@),
{
    let mut j = s.len();
    while j > 0 && is_whitespace(s[j - 1])
        invariant
            j <= s.len(),
            ws_run_start(s@, s.len() as int) == ws_run_start(s@, j as int),
        decreases j,
    {
        j = j - 1;
    }
    let r = slice_chars(s, 0, j);
    assert(r@ =~= s@.take(j as int));
    r
}

/// A copy of a vector of strings.
pub fn clone_strings(v: &Vec<String>) -> (r: Vec<String>)
    ensures
        r@ == v@,
{
    let mut r: Vec<String> = Vec::new();
    for i in 0..v.len()
        invariant
            r@ == v@.take(i as int),
    {
        r.push(v[i].clone());
        assert(r@ =~= v@.take(i + 1));
    }
    assert(v@.take(v.len() as int) =~= v@);
    r
}

} // verus!

verus! {

// ---------------------------------------------------------------------------
// Comma-separated tokens
// ---------------------------------------------------------------------------

/// The trimmed pieces that are not empty, in order.
pub open spec fn nonempty_trimmed(pieces: Seq<Seq<char>>) -> Seq<Seq<char>>
    decreases pieces.len(),
{
    if pieces.len() == 0 {
        Seq::<Seq<char>>::empty()
    } else {
        let rest = nonempty_trimmed(pieces.drop_last());
        let t = trim(pieces.last());
        if t.len() == 0 {
            rest
        } else {
            rest.push(t)
        }
    }
}

/// The tokens of a comma-separated list: the pieces between commas,
/// trimmed, empty ones dropped.
pub open spec fn tokens(s: Seq<char>) -> Seq<Seq<char>> {
    nonempty_trimmed(split(s, ','))
}

/// The tokens of a comma-separated list.
pub fn tokens_exec(s: &str) -> (r: Vec<Vec<char>>)
    ensures
        views(r@) == tokens(s@),
{
    let v = chars_of(s);
    let pieces = split_exec(&v, ',');
    let ghost ps = views(pieces@);
    let mut r: Vec<Vec<char>> = Vec::new();
    for i in 0..pieces.len()
        invariant
            ps == views(pieces@),
            views(r@) == nonempty_trimmed(ps.take(i as int)),
    {
        assert(ps.take(i + 1).drop_last() =~= ps.take(i as int));
        let t = trim_exec(&pieces[i]);
        if t.len() > 0 {
            let ghost prev = r@;
            r.push(t);
            assert(views(r@) =~= views(prev).push(t@));
        }
    }
    assert(ps.take(pieces.len() as int) =~= ps);
    r
}

} // verus!

verus! {

/// The last position of `c` in `s`.
pub open spec fn rfind_char(s: Seq<char>, c: char) -> Option<int>
    decreases s.len(),
{
    if s.len() == 0 {
        None
    } else if s.last() == c {
        Some(s.len() - 1)
    } else {
        rfind_char(s.drop_last(), c)
    }
}

pub proof fn lemma_rfind_char(s: Seq<char>, c: char)
    ensures
        rfind_char(s, c) matches Some(i) ==> 0 <= i < s.len() && s[i] == c,
    decreases s.len(),
{
    if s.len() > 0 && s.last() != c {
        lemma_rfind_char(s.drop_last(), c);
    }
}

/// The last position of `c` in `s`.
pub fn rfind_char_exec(s: &Vec<char>, c: char) -> (r: Option<usize>)
    ensures
        r matches Some(i) ==> rfind_char(s@, c) == Some(i as int),
        r is None ==> rfind_char(s@, c) is None,
{
    let mut j = s.len();
    assert(s@.take(j as int) =~= s@);
    while j > 0
        invariant
            j <= s.len(),
            rfind_char(s@, c) == rfind_char(s@.take(j as int), c),
        decreases j,
    {
        assert(s@.take(j as int).drop_last() =~= s@.take(j - 1));
        if s[j - 1] == c {
            return Some(j - 1);
        }
        j = j - 1;
    }
    None
}

/// The part of `s` before the first `c` (all of `s` when there is none).
pub fn first_piece(s: &Vec<char>, c: char) -> (r: Vec<char>)
    ensures
        r@ == split(s@, c)[0],
{
    let parts = split_exec(s, c);
    proof {
        lemma_split_nonempty(s@, c);
    }
    let r = slice_chars(&parts[0], 0, parts[0].len());
    assert(r@ =~= parts@[0]@);
    r
}

} // verus!

verus! {

/// `s` with every trailing occurrence of `p` removed (what
/// `str::trim_end_matches` does with a string pattern).
pub open spec fn trim_end_matches(s: Seq<char>, p: Seq<char>) -> Seq<char>
    decreases s.len(),
{
    if p.len() > 0 && ends_with(s, p) {
        trim_end_matches(s.take(s.len() - p.len()), p)
    } else {
        s
    }
}

/// `s` with every trailing occurrence of `p` removed.
pub fn trim_end_matches_exec(s: &Vec<char>, p: &str) -> (r: Vec<char>)
    ensures
        r@ == trim_end_matches(s@, p@),
{
    let pv = chars_of(p);
    let mut cur = slice_chars(s, 0, s.len());
    assert(cur@ =~= s@);
    while pv.len() > 0 && ends_with_exec(&cur, &pv)
        invariant
            pv@ == p@,
            trim_end_matches(cur@, pv@) == trim_end_matches(s@, pv@),
        decreases cur.len(),
    {
        let n = cur.len() - pv.len();
        let next = slice_chars(&cur, 0, n);
        assert(next@ =~= cur@.take(cur@.len() - pv@.len()));
        cur = next;
    }
    cur
}

/// The pieces of `s` that are not empty, in order.
pub open spec fn nonempty_pieces(ps: Seq<Seq<char>>) -> Seq<Seq<char>>
    decreases ps.len(),
{
    if ps.len() == 0 {
        Seq::<Seq<char>>::empty()
    } else {
        let rest = nonempty_pieces(ps.drop_last());
        if ps.last().len() > 0 {
            rest.push(ps.last())
        } else {
            rest
        }
    }
}

/// The pieces that are not empty, in order.
pub fn nonempty_pieces_exec(ps: &Vec<Vec<char>>) -> (r: Vec<Vec<char>>)
    ensures
        views(r@) == nonempty_pieces(views(ps@)),
{
    let ghost pv = views(ps@);
    let mut r: Vec<Vec<char>> = Vec::new();
    for i in 0..ps.len()
        invariant
            pv == views(ps@),
            views(r@) == nonempty_pieces(pv.take(i as int)),
    {
        assert(pv.take(i + 1).drop_last() =~= pv.take(i as int));
        if ps[i].len() > 0 {
            let c = slice_chars(&ps[i], 0, ps[i].len());
            assert(c@ =~= ps@[i as int]@);
            let ghost prev = r@;
            r.push(c);
            assert(views(r@) =~= views(prev).push(ps@[i as int]@));
        }
    }
    assert(pv.take(ps.len() as int) =~= pv);
    r
}

/// At most `n` pieces of `s` separated by `c`; the last one holds the rest
/// (what `str::splitn` yields).
pub open spec fn splitn(s: Seq<char>, n: nat, c: char) -> Seq<Seq<char>>
    decreases n,
{
    if n == 0 {
        Seq::<Seq<char>>::empty()
    } else if n == 1 {
        seq![s]
    } else {
        match find(s, seq![c]) {
            None => seq![s],
            Some(i) => seq![s.take(i)] + splitn(s.skip(i + 1), (n - 1) as nat, c),
        }
    }
}

/// Appends copies of the pieces of `src` to `r`.
pub fn append_pieces(r: &mut Vec<Vec<char>>, src: &Vec<Vec<char>>)
    ensures
        views(final(r)@) == views(old(r)@) + views(src@),
{
    let ghost start = views(r@);
    for i in 0..src.len()
        invariant
            views(r@) == start + views(src@).take(i as int),
    {
        let c = slice_chars(&src[i], 0, src[i].len());
        assert(c@ =~= src@[i as int]@);
        let ghost prev = r@;
        r.push(c);
        assert(views(r@) =~= views(prev).push(src@[i as int]@));
        assert(views(r@) =~= start + views(src@).take(i + 1));
    }
    assert(views(src@).take(src.len() as int) =~= views(src@));
}

/// At most `n` pieces of `s` separated by `c`.
pub fn splitn_exec(s: &Vec<char>, n: usize, c: char) -> (r: Vec<Vec<char>>)
    ensures
        views(r@) == splitn(s@, n as nat, c),
    decreases n,
{
    if n == 0 {
        let r: Vec<Vec<char>> = Vec::new();
        assert(views(r@) =~= Seq::<Seq<char>>::empty());
        return r;
    }
    let whole = slice_chars(s, 0, s.len());
    assert(whole@ =~= s@);
    if n == 1 {
        let mut r: Vec<Vec<char>> = Vec::new();
        r.push(whole);
        assert(views(r@) =~= seq![s@]);
        return r;
    }
    let mut sep: Vec<char> = Vec::new();
    sep.push(c);
    assert(sep@ =~= seq![c]);
    match find_exec(s, &sep) {
        None => {
            let mut r: Vec<Vec<char>> = Vec::new();
            r.push(whole);
            assert(views(r@) =~= seq![s@]);
            r
        },
        Some(i) => {
            proof {
                lemma_find_from(s@, sep@, 0);
            }
            let len = s.len();
            assert(i + 1 <= len);
            let head = slice_chars(s, 0, i);
            let tail = slice_chars(s, i + 1, s.len());
            assert(head@ =~= s@.take(i as int));
            assert(tail@ =~= s@.skip(i + 1));
            let rest = splitn_exec(&tail, n - 1, c);
            let mut r: Vec<Vec<char>> = Vec::new();
            r.push(head);
            assert(views(r@) =~= seq![s@.take(i as int)]);
            append_pieces(&mut r, &rest);
            r
        },
    }
}

} // verus!
