use ioblink::diskstats::sort_names;
use ioblink::text::{chars_of, join_path, parse_u64, trimmed_or, word_ranges};

#[test]
fn splits_words_on_unicode_white_space() {
    let text = "  a\u{3000}bc\t\n d ";
    let chars = chars_of(text);
    let ranges = word_ranges(&chars, 0, chars.len());
    let words: Vec<String> = ranges.iter().map(|&(a, b)| chars[a..b].iter().collect()).collect();
    assert_eq!(words, vec!["a", "bc", "d"]);
}

#[test]
fn parses_u64_like_std() {
    for s in ["0", "42", "+7", "18446744073709551615", "18446744073709551616", "", "+", "-1", "1 ", "0x10"] {
        let chars = chars_of(s);
        assert_eq!(parse_u64(&chars, 0, chars.len()), s.parse::<u64>().ok(), "{s:?}");
    }
}

#[test]
fn joins_paths_like_path_join() {
    assert_eq!(join_path(&"/sys/class/leds/x".to_string(), "trigger"), "/sys/class/leds/x/trigger");
    assert_eq!(join_path(&"/a/".to_string(), "b"), "/a/b");
    assert_eq!(join_path(&"".to_string(), "b"), "b");
}

#[test]
fn sorts_names_like_string_ord() {
    let names: Vec<String> = ["b", "a", "ab", "B", "é", "a"].iter().map(|s| s.to_string()).collect();
    let mut expected = names.clone();
    expected.sort();
    assert_eq!(sort_names(&names), expected);
}

#[test]
fn trims_or_defaults() {
    assert_eq!(trimmed_or(Some("  kbd \n".to_string()), "x"), "kbd");
    assert_eq!(trimmed_or(None, "unknown"), "unknown");
}
