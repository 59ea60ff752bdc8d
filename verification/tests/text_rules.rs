use arxiv::text::{chars_of, find_from, holds_char, split_at_first, split_at_only, str_eq};

#[test]
fn characters_of_a_string() {
    assert_eq!(chars_of(""), Vec::<char>::new());
    assert_eq!(chars_of("a\u{e9}b"), vec!['a', '\u{e9}', 'b']);
}

#[test]
fn finding_a_character() {
    let v = chars_of("a.b.c");
    assert_eq!(find_from(&v, '.', 0), 1);
    assert_eq!(find_from(&v, '.', 1), 1);
    assert_eq!(find_from(&v, '.', 2), 3);
    assert_eq!(find_from(&v, '.', 4), 5);
    assert_eq!(find_from(&v, '.', 5), 5);
    assert_eq!(find_from(&v, 'x', 0), 5);
    assert!(holds_char("a.b", '.'));
    assert!(!holds_char("ab", '.'));
    assert!(!holds_char("", '.'));
}

#[test]
fn splitting_at_the_first_occurrence() {
    assert_eq!(split_at_first("a b c", ' '), Some(("a", "b c")));
    assert_eq!(split_at_first(" a", ' '), Some(("", "a")));
    assert_eq!(split_at_first("a ", ' '), Some(("a", "")));
    assert_eq!(split_at_first("\u{e9} \u{e9}", ' '), Some(("\u{e9}", "\u{e9}")));
    assert_eq!(split_at_first("abc", ' '), None);
    assert_eq!(split_at_first("", ' '), None);
}

#[test]
fn splitting_at_the_only_occurrence() {
    assert_eq!(split_at_only("cs.LG", '.'), Some(("cs", "LG")));
    assert_eq!(split_at_only(".", '.'), Some(("", "")));
    assert_eq!(split_at_only("cs.LG.AI", '.'), None);
    assert_eq!(split_at_only("cs..", '.'), None);
    assert_eq!(split_at_only("csLG", '.'), None);
}

#[test]
fn equality_of_strings() {
    assert!(str_eq("", ""));
    assert!(str_eq("arXiv", "arXiv"));
    assert!(!str_eq("arXiv", "arxiv"));
    assert!(!str_eq("arXiv", "arXi"));
    assert!(!str_eq("arXi", "arXiv"));
    assert!(!str_eq("", "a"));
}
