use aidoku_sources::num::{decimal_i64, decimal_u64};
use aidoku_sources::text::{
    chars_of, find_exec, is_whitespace, join_exec, replace_exec, split_exec, splitn_exec,
    squeeze_ws_exec, tokens_exec, trim_end_matches_exec, trim_exec,
};

fn s(v: &[char]) -> String {
    v.iter().collect()
}

fn cv(t: &str) -> Vec<char> {
    t.chars().collect()
}

#[test]
fn whitespace_matches_std_for_every_char() {
    for u in 0u32..=0x10FFFF {
        if let Some(c) = char::from_u32(u) {
            assert_eq!(is_whitespace(c), c.is_whitespace(), "char {:x}", u);
        }
    }
}

#[test]
fn chars_of_keeps_every_char() {
    let t = "añ😀b";
    assert_eq!(chars_of(t), vec!['a', 'ñ', '😀', 'b']);
}

#[test]
fn trim_matches_std() {
    for t in ["", "   ", " a ", "\u{3000}x y\t\n", "abc", "\u{a0}q\u{2009}"] {
        assert_eq!(s(&trim_exec(&cv(t))), t.trim());
    }
}

#[test]
fn split_matches_std() {
    for t in ["", ",", "a,b", ",a,,b,", "abc"] {
        let got: Vec<String> = split_exec(&cv(t), ',').iter().map(|p| s(p)).collect();
        let want: Vec<String> = t.split(',').map(String::from).collect();
        assert_eq!(got, want);
    }
}

#[test]
fn splitn_matches_std() {
    for t in ["/a/b/c/d/e", "a", "", "//x", "a/b"] {
        let got: Vec<String> = splitn_exec(&cv(t), 4, '/').iter().map(|p| s(p)).collect();
        let want: Vec<String> = t.splitn(4, '/').map(String::from).collect();
        assert_eq!(got, want);
    }
}

#[test]
fn join_matches_std() {
    let parts = vec![cv("a"), cv(""), cv("bc")];
    assert_eq!(s(&join_exec(&parts, ", ")), "a, , bc");
    assert_eq!(s(&join_exec(&Vec::new(), ", ")), "");
}

#[test]
fn replace_matches_std() {
    for (t, from, to) in [
        ("a b  c", " ", "-"),
        ("Movies & TV", " & ", "-"),
        ("x%20y%20", "%20", " "),
        ("aaa", "aa", "b"),
        ("none", "q", "z"),
    ] {
        assert_eq!(s(&replace_exec(&cv(t), from, to)), t.replace(from, to));
    }
}

#[test]
fn squeeze_matches_split_whitespace_join() {
    for t in ["", "  a  b\t c ", "one", " \u{3000}x\u{a0}y "] {
        let want = t.split_whitespace().collect::<Vec<_>>().join(" ");
        assert_eq!(s(&squeeze_ws_exec(&cv(t))), want);
    }
}

#[test]
fn tokens_are_trimmed_and_not_empty() {
    let got: Vec<String> = tokens_exec(" a , ,b c,-d ,").iter().map(|p| s(p)).collect();
    assert_eq!(got, vec!["a", "b c", "-d"]);
}

#[test]
fn trim_end_matches_removes_repeats() {
    assert_eq!(s(&trim_end_matches_exec(&cv("One Piece Manga Manga"), " Manga")), "One Piece");
    assert_eq!(s(&trim_end_matches_exec(&cv("Manga"), " Manga")), "Manga");
}

#[test]
fn find_gives_first_occurrence() {
    assert_eq!(find_exec(&cv("a/g/b/g/"), &cv("/g/")), Some(1));
    assert_eq!(find_exec(&cv("abc"), &cv("x")), None);
}

#[test]
fn decimal_matches_format() {
    for n in [0i64, 7, -7, 10, 12345, i64::MIN, i64::MAX, i32::MIN as i64] {
        assert_eq!(s(&decimal_i64(n)), format!("{}", n));
    }
    assert_eq!(s(&decimal_u64(u64::MAX)), u64::MAX.to_string());
}
