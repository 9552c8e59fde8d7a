use riot_sys_build::text::{
    append_chars, append_range, chars_of, contains, copy_range, join, matches_at, replace_all,
    same_text, search, split, starts_with, string_of,
};

fn chars(text: &str) -> Vec<char> {
    text.chars().collect()
}

#[test]
fn strings_and_characters() {
    assert_eq!(chars_of("añ€😀"), vec!['a', 'ñ', '€', '😀']);
    assert_eq!(chars_of(""), Vec::<char>::new());
    assert_eq!(string_of(&['a', 'ñ', '€', '😀']), "añ€😀");
    assert_eq!(string_of(&[]), "");
}

#[test]
fn copying_and_appending() {
    let mut out = chars("ab");
    append_chars(&mut out, &chars("cd"));
    assert_eq!(out, chars("abcd"));
    append_range(&mut out, &chars("012345"), 2, 4);
    assert_eq!(out, chars("abcd23"));
    append_range(&mut out, &chars("012345"), 3, 3);
    assert_eq!(out, chars("abcd23"));
    assert_eq!(copy_range(&chars("012345"), 1, 6), chars("12345"));
    assert!(same_text(&chars("abc"), &chars("abc")));
    assert!(!same_text(&chars("abc"), &chars("abd")));
    assert!(!same_text(&chars("abc"), &chars("ab")));
    assert!(same_text(&[], &[]));
}

#[test]
fn searching() {
    let text = chars("abcabc");
    assert_eq!(search(&text, &chars("bc"), 0), Some(1));
    assert_eq!(search(&text, &chars("bc"), 1), Some(1));
    assert_eq!(search(&text, &chars("bc"), 2), Some(4));
    assert_eq!(search(&text, &chars("bc"), 5), None);
    assert_eq!(search(&text, &chars("bc"), 99), None);
    assert_eq!(search(&text, &chars("abcabcd"), 0), None);
    assert_eq!(search(&text, &[], 0), Some(0));
    assert_eq!(search(&text, &[], 6), Some(6));
    assert_eq!(search(&text, &[], 7), None);
    assert_eq!(search(&[], &[], 0), Some(0));
    assert!(matches_at(&text, &chars("abc"), 3));
    assert!(!matches_at(&text, &chars("abc"), 4));
    assert!(!matches_at(&text, &chars("abc"), usize::MAX));
    assert!(starts_with(&text, &chars("abca")));
    assert!(starts_with(&text, &[]));
    assert!(!starts_with(&text, &chars("b")));
    assert!(!starts_with(&chars("ab"), &chars("abc")));
    assert!(contains(&text, &chars("cab")));
    assert!(contains(&text, &[]));
    assert!(!contains(&text, &chars("cc")));
}

#[test]
fn replacing() {
    assert_eq!(replace_all(&chars("a-b-c"), &chars("-"), &chars("--")), chars("a--b--c"));
    assert_eq!(replace_all(&chars("aaa"), &chars("aa"), &chars("b")), chars("ba"));
    assert_eq!(replace_all(&chars("abc"), &chars("abc"), &[]), chars(""));
    assert_eq!(replace_all(&chars("abc"), &[], &chars("x")), chars("abc"));
    assert_eq!(replace_all(&[], &chars("a"), &chars("x")), chars(""));
}

#[test]
fn splitting() {
    let parts = |text: &str, sep: &str| -> Vec<String> {
        split(&chars(text), &chars(sep)).into_iter().map(|p| p.into_iter().collect()).collect()
    };
    assert_eq!(parts("a, b, c", ", "), vec!["a", "b", "c"]);
    assert_eq!(parts("a--b", "-"), vec!["a", "", "b"]);
    assert_eq!(parts("-a-", "-"), vec!["", "a", ""]);
    assert_eq!(parts("", "-"), vec![""]);
    assert_eq!(parts("abc", ""), vec!["abc"]);
    assert_eq!(parts("aaa", "aa"), vec!["", "a"]);
}

#[test]
fn joining() {
    let strings = |words: &[&str]| -> Vec<String> { words.iter().map(|w| w.to_string()).collect() };
    assert_eq!(join(&strings(&["a", "b", "c"]), ", "), "a, b, c");
    assert_eq!(join(&strings(&["a"]), ", "), "a");
    assert_eq!(join(&strings(&[]), ", "), "");
    assert_eq!(join(&strings(&["", ""]), "\n"), "\n");
    assert_eq!(join(&strings(&["a", "b"]), ""), "ab");
}
