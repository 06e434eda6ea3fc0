use humanize_text::sentences::split_into_sentences;
use humanize_text::text::{
    join_chars, split_lines, contains, decimal_string, join_lines, parse_u64, replace, trim, trim_end,
};

#[test]
fn trim_removes_unicode_whitespace_at_both_ends() {
    assert_eq!(trim("  \t hello world \n\u{a0}"), "hello world");
    assert_eq!(trim("\u{3000}x\u{2009}"), "x");
    assert_eq!(trim("   "), "");
    assert_eq!(trim(""), "");
}

#[test]
fn trim_end_keeps_leading_whitespace() {
    assert_eq!(trim_end("  a b  \r\n"), "  a b");
}

#[test]
fn trim_is_idempotent_on_examples() {
    for s in ["  a  ", "b", "\n\nc d\n", ""] {
        let once = trim(s);
        assert_eq!(trim(&once), once);
    }
}

#[test]
fn replace_matches_left_to_right_without_overlap() {
    assert_eq!(replace("aaa", "aa", "b"), "ba");
    assert_eq!(replace("in order to win in order to", "in order to", "to"), "to win to");
    assert_eq!(replace("abc", "", "x"), "xaxbxcx");
    assert_eq!(replace("abc", "zz", "y"), "abc");
    assert_eq!(replace("doesn\u{2019}t replacing", "doesn\u{2019}t replacing", "does not replace"), "does not replace");
}

#[test]
fn replace_agrees_with_std_on_samples() {
    let samples = [("a,b,,c", ",", ";"), ("xyxyx", "xyx", "Z"), ("ééé", "é", "e"), ("", "a", "b")];
    for (s, from, to) in samples {
        assert_eq!(replace(s, from, to), s.replace(from, to));
    }
}

#[test]
fn contains_finds_substrings() {
    assert!(contains("openai/gpt-oss-120b", "gpt-oss"));
    assert!(!contains("google/gemini-2.5-flash", "gpt-oss"));
    assert!(contains("abc", ""));
    assert!(!contains("", "a"));
}

#[test]
fn parse_u64_reads_like_std() {
    assert_eq!(parse_u64("30"), Some(30));
    assert_eq!(parse_u64("+7"), Some(7));
    assert_eq!(parse_u64("18446744073709551615"), Some(u64::MAX));
    assert_eq!(parse_u64("18446744073709551616"), None);
    assert_eq!(parse_u64(""), None);
    assert_eq!(parse_u64("+"), None);
    assert_eq!(parse_u64("-1"), None);
    assert_eq!(parse_u64(" 5"), None);
    assert_eq!(parse_u64("5s"), None);
    for s in ["0", "00012", "+0", "99999999999999999999", "1_000", "12a"] {
        assert_eq!(parse_u64(s), s.parse::<u64>().ok());
    }
}

#[test]
fn decimal_string_writes_digits() {
    assert_eq!(decimal_string(0), "0");
    assert_eq!(decimal_string(1234), "1234");
    assert_eq!(decimal_string(u64::MAX), u64::MAX.to_string());
}

#[test]
fn decimal_then_parse_gives_the_number_back() {
    for n in [0u64, 9, 10, 4096, u64::MAX] {
        assert_eq!(parse_u64(&decimal_string(n)), Some(n));
    }
}

#[test]
fn join_lines_puts_line_feeds_between() {
    let lines = vec!["a".to_string(), "".to_string(), "b".to_string()];
    assert_eq!(join_lines(&lines), "a\n\nb");
    assert_eq!(join_lines(&Vec::new()), "");
}

#[test]
fn sentences_end_after_terminators() {
    let s = split_into_sentences("First one. Second!  Third?  trailing words  ");
    assert_eq!(s, vec!["First one.", "Second!", "Third?", "trailing words"]);
}

#[test]
fn sentences_drop_whitespace_only_pieces() {
    let s = split_into_sentences("  . \n ?  ");
    assert_eq!(s, vec![".", "?"]);
    assert!(split_into_sentences("   ").is_empty());
    assert!(split_into_sentences("").is_empty());
}

#[test]
fn sentences_keep_visible_text() {
    let text = "A b. C d! E f? g";
    let s = split_into_sentences(text);
    let joined: String = s.concat().chars().filter(|c| !c.is_whitespace()).collect();
    let orig: String = text.chars().filter(|c| !c.is_whitespace()).collect();
    assert_eq!(joined, orig);
}

#[test]
fn lines_then_join_gives_the_text_back() {
    for s in ["a\nb\n\nc", "", "one line", "\nlead"] {
        let cs: Vec<char> = s.chars().collect();
        let lines = split_lines(&cs);
        let joined: String = join_chars(&lines, &vec!['\n']).into_iter().collect();
        assert_eq!(joined, s);
        let expect: Vec<Vec<char>> = s.lines().map(|l| l.chars().collect()).collect();
        assert_eq!(lines, expect);
    }
    let cs: Vec<char> = "x\r\ny\r".chars().collect();
    let lines = split_lines(&cs);
    assert_eq!(lines, vec![vec!['x'], vec!['y', '\r']]);
}
