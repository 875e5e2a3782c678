use steam_crawl::text::{
    chars_of, concat_strings, contains, cut, cut_first, decimal_chars, join_strings, parse_unsigned_chars,
    remove_str, split_piece, string_of, trim,
};

fn s(v: &Vec<char>) -> String {
    v.iter().collect()
}

#[test]
fn split_pieces_like_str_split() {
    let text = chars_of("a,b,,c");
    let pat = chars_of(",");
    let pieces: Vec<Option<String>> = (0..5).map(|n| split_piece(&text, &pat, n).map(|p| s(&p))).collect();
    let expected: Vec<Option<String>> = "a,b,,c".split(",").map(|p| Some(p.to_string())).chain(Some(None)).collect();
    assert_eq!(pieces, expected);
}

#[test]
fn split_takes_leftmost_non_overlapping() {
    let text = chars_of("aaaXaa");
    assert_eq!(cut(&text, "aa", 0).map(|p| s(&p)), Some(String::new()));
    assert_eq!(cut(&text, "aa", 1).map(|p| s(&p)), Some("aX".to_string()));
    assert_eq!(cut(&text, "aa", 2).map(|p| s(&p)), Some(String::new()));
    assert_eq!(cut(&text, "aa", 3), None);
}

#[test]
fn cut_first_without_match_is_whole() {
    assert_eq!(s(&cut_first(&chars_of("no match"), "#")), "no match");
}

#[test]
fn remove_like_replace() {
    let text = "1,234,567 hrs";
    assert_eq!(s(&remove_str(&chars_of(text), ",")), text.replace(",", ""));
    assert_eq!(s(&remove_str(&chars_of("a/tb/t"), "/t")), "ab");
}

#[test]
fn trim_like_str_trim() {
    let text = "\n\t\u{a0} 12.5 \u{3000}\r";
    assert_eq!(s(&trim(&chars_of(text))), text.trim());
    assert_eq!(s(&trim(&chars_of(" \t "))), "");
}

#[test]
fn contains_finds_substrings() {
    assert!(contains(&chars_of("error: dns error: failed"), &chars_of("dns error")));
    assert!(!contains(&chars_of("dns erro"), &chars_of("dns error")));
    assert!(contains(&chars_of("x"), &chars_of("")));
}

#[test]
fn decimal_digits() {
    assert_eq!(s(&decimal_chars(0)), "0");
    assert_eq!(s(&decimal_chars(76561198273971203)), "76561198273971203");
    assert_eq!(s(&decimal_chars(u64::MAX)), u64::MAX.to_string());
}

#[test]
fn parse_like_from_str() {
    for text in ["0", "+12", "", "+", "-1", "12a", " 1", "4294967295", "4294967296", "007"] {
        let expected = text.parse::<u32>().ok().map(|v| v as u64);
        assert_eq!(parse_unsigned_chars(&chars_of(text), u32::MAX as u64), expected, "{text}");
    }
    assert_eq!(parse_unsigned_chars(&chars_of("18446744073709551615"), u64::MAX), Some(u64::MAX));
    assert_eq!(parse_unsigned_chars(&chars_of("18446744073709551616"), u64::MAX), None);
}

#[test]
fn concat_and_join() {
    let parts = vec!["<a>".to_string(), String::new(), "b".to_string()];
    assert_eq!(s(&concat_strings(&parts)), "<a>b");
    assert_eq!(join_strings(&parts, ","), "<a>,,b");
    assert_eq!(join_strings(&vec![], ","), "");
    assert_eq!(string_of(&vec!['x', 'é']), "xé");
}

#[test]
fn decimal_reads_back() {
    for n in [0u64, 9, 10, 4294967295, 76561198273971203] {
        assert_eq!(parse_unsigned_chars(&decimal_chars(n), u64::MAX), Some(n));
    }
    assert_eq!(parse_unsigned_chars(&decimal_chars(4294967296), u32::MAX as u64), None);
}
