use win_count::text::{
    append, contains, digit, find_first, find_last, has_suffix, matches_at, pad_zeros,
    push_decimal, replace, slice, starts_with, text_eq, to_chars, to_decimal,
};

fn chars(s: &str) -> Vec<char> {
    s.chars().collect()
}

fn text(v: &Vec<char>) -> String {
    v.iter().collect()
}

#[test]
fn text_eq_compares_character_by_character() {
    assert!(text_eq("", ""));
    assert!(text_eq("Default", "Default"));
    assert!(!text_eq("Default", "default"));
    assert!(!text_eq("Default", "Defaul"));
    assert!(!text_eq("abc", "abd"));
    assert!(text_eq("ชนะ", "ชนะ"));
    assert!(!text_eq("é", "e"));
}

#[test]
fn to_chars_spreads_a_text() {
    assert_eq!(to_chars(""), Vec::<char>::new());
    assert_eq!(to_chars("aé+"), vec!['a', 'é', '+']);
}

#[test]
fn matches_at_looks_at_one_place() {
    let s = chars("Ctrl+Alt+a");
    assert!(matches_at(&s, &chars("Ctrl"), 0));
    assert!(matches_at(&s, &chars("Alt"), 5));
    assert!(!matches_at(&s, &chars("Alt"), 4));
    assert!(matches_at(&s, &chars(""), 10));
    assert!(!matches_at(&s, &chars(""), 11));
    assert!(!matches_at(&s, &chars("a+"), 9));
    assert!(!matches_at(&s, &chars("x"), usize::MAX));
}

#[test]
fn contains_and_find_look_everywhere() {
    let s = chars("GET /assets/x HTTP/1.1 HTTP");
    assert!(contains(&s, &chars(" HTTP")));
    assert!(contains(&s, &chars("")));
    assert!(!contains(&s, &chars("http")));
    assert!(!contains(&chars(""), &chars("a")));
    assert_eq!(find_first(&s, &chars(" HTTP")), Some(13));
    assert_eq!(find_first(&s, &chars("nope")), None);
    assert_eq!(find_first(&s, &chars("")), Some(0));
    assert_eq!(find_first(&chars(""), &chars("")), Some(0));
    assert_eq!(find_last(&s, ' '), Some(22));
    assert_eq!(find_last(&s, 'G'), Some(0));
    assert_eq!(find_last(&s, 'z'), None);
}

#[test]
fn starts_with_and_has_suffix() {
    let s = chars("image.woff2");
    assert!(starts_with(&s, &chars("image")));
    assert!(starts_with(&s, &chars("")));
    assert!(!starts_with(&s, &chars("mage")));
    assert!(has_suffix(&s, &chars(".woff2")));
    assert!(!has_suffix(&s, &chars(".woff")));
    assert!(has_suffix(&s, &chars("")));
    assert!(!has_suffix(&chars("a"), &chars("ba")));
}

#[test]
fn replace_takes_occurrences_left_to_right_without_overlap() {
    let r = |s: &str, from: &str, to: &str| text(&replace(&chars(s), &chars(from), &chars(to)));
    assert_eq!(r("Ctrl+a", "Ctrl+", "Control+"), "Control+a");
    assert_eq!(r("aaaa", "aa", "b"), "bb");
    assert_eq!(r("aaa", "aa", "b"), "ba");
    assert_eq!(r("a-b-c", "-", ""), "abc");
    assert_eq!(r("abc", "x", "y"), "abc");
    assert_eq!(r("", "x", "y"), "");
    assert_eq!(r("abc", "", "y"), "abc");
    assert_eq!(r("=", "=", "Equal"), "Equal");
    assert_eq!(r("x==", "=", "Equal"), "xEqualEqual");
}

#[test]
fn slice_and_append() {
    let s = chars("abcdef");
    assert_eq!(text(&slice(&s, 1, 4)), "bcd");
    assert_eq!(text(&slice(&s, 6, 6)), "");
    let mut out = chars("x");
    append(&mut out, &chars("yz"));
    append(&mut out, &chars(""));
    assert_eq!(text(&out), "xyz");
}

#[test]
fn numbers_are_written_in_decimal() {
    assert_eq!(text(&to_decimal(0)), "0");
    assert_eq!(text(&to_decimal(7)), "7");
    assert_eq!(text(&to_decimal(10)), "10");
    assert_eq!(text(&to_decimal(1234567890)), "1234567890");
    assert_eq!(text(&to_decimal(u64::MAX)), "18446744073709551615");
    let mut out = chars("n=");
    push_decimal(&mut out, 405);
    assert_eq!(text(&out), "n=405");
    for d in 0..10u8 {
        assert_eq!(digit(d), (b'0' + d) as char);
    }
}

#[test]
fn padding_fills_up_with_zeros_from_the_left() {
    assert_eq!(text(&pad_zeros(&chars("7"), 2)), "07");
    assert_eq!(text(&pad_zeros(&chars("33"), 2)), "33");
    assert_eq!(text(&pad_zeros(&chars("123"), 2)), "123");
    assert_eq!(text(&pad_zeros(&chars(""), 3)), "000");
    assert_eq!(text(&pad_zeros(&chars("66909783454"), 13)), "0066909783454");
    assert_eq!(text(&pad_zeros(&chars("x"), 0)), "x");
}
