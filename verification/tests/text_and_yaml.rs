use tuber_tui::text::{decimal_chars, parse_u64, trim_chars, trim_end_chars, chars_of};
use tuber_tui::rounding::bit_length;
use tuber_tui::yaml::{parse_yaml_map, parse_yaml_list, get_str, get_u64, get_bool, split_lines};

fn cs(s: &str) -> Vec<char> {
    s.chars().collect()
}

#[test]
fn decimal_renders_like_to_string() {
    for n in [0u64, 7, 10, 99, 100, 12345, u64::MAX] {
        let got: String = decimal_chars(n).into_iter().collect();
        assert_eq!(got, n.to_string());
    }
}

#[test]
fn parse_u64_matches_str_parse() {
    let cases = ["0", "42", "+42", "", "+", "-1", "12a", " 1", "18446744073709551615", "18446744073709551616", "007", "++1"];
    for c in cases {
        assert_eq!(parse_u64(&cs(c)), c.parse::<u64>().ok(), "input {:?}", c);
    }
}

#[test]
fn decimal_then_parse_gives_the_number_back() {
    for n in [0u64, 1, 9, 10, 4096, 999_999_999, u64::MAX] {
        assert_eq!(parse_u64(&decimal_chars(n)), Some(n));
    }
}

#[test]
fn trimming_matches_std() {
    let cases = ["  a b  ", "\t\n x\r\n", "", "   ", "\u{3000}wide\u{2003}", "\u{85}n\u{a0}"];
    for c in cases {
        let t: String = trim_chars(&cs(c)).into_iter().collect();
        assert_eq!(t, c.trim());
        let e: String = trim_end_chars(&cs(c)).into_iter().collect();
        assert_eq!(e, c.trim_end());
    }
}

#[test]
fn chars_and_strings_round_trip() {
    let s = "tübe-ü ✓";
    assert_eq!(chars_of(s), cs(s));
}

#[test]
fn bit_length_counts_binary_digits() {
    assert_eq!(bit_length(0), 0);
    assert_eq!(bit_length(1), 1);
    assert_eq!(bit_length(255), 8);
    assert_eq!(bit_length(256), 9);
    assert_eq!(bit_length(u128::MAX), 128);
}

#[test]
fn entry_and_item_lines_read_back() {
    let m = parse_yaml_map("total jobs: 12 left
");
    assert_eq!(get_str(&m, "total jobs"), "12 left");
    let m = parse_yaml_map("empty: 
");
    assert_eq!(get_str(&m, "empty"), "");
    assert_eq!(parse_yaml_list("- a b
"), vec!["a b".to_string()]);
}

#[test]
fn lines_split_at_newlines() {
    let ls = split_lines(&cs("a\nbc\n"));
    assert_eq!(ls, vec![cs("a"), cs("bc"), cs("")]);
    assert_eq!(split_lines(&cs("")), vec![cs("")]);
}

#[test]
fn map_reads_keys_values_and_quotes() {
    let body = "---\nversion: \"1.13\"\nuptime: 3661\ndraining: true\nname: my tube\nbad: x1\n";
    let m = parse_yaml_map(body);
    assert_eq!(get_str(&m, "version"), "1.13");
    assert_eq!(get_u64(&m, "uptime"), 3661);
    assert!(get_bool(&m, "draining"));
    assert_eq!(get_str(&m, "name"), "my tube");
    assert_eq!(get_u64(&m, "bad"), 0);
    assert_eq!(get_u64(&m, "missing"), 0);
    assert_eq!(get_str(&m, "missing"), "");
    assert!(!get_bool(&m, "missing"));
}

#[test]
fn later_keys_override_earlier_ones() {
    let m = parse_yaml_map("a: 1\na: 2\n");
    assert_eq!(get_u64(&m, "a"), 2);
}

#[test]
fn bool_is_true_only_for_true() {
    let m = parse_yaml_map("x: false\ny: True\nz: true\n");
    assert!(!get_bool(&m, "x"));
    assert!(!get_bool(&m, "y"));
    assert!(get_bool(&m, "z"));
}

#[test]
fn list_reads_items_and_skips_the_header() {
    let items = parse_yaml_list("---\n- default\n- emails\n-\n--- \n-  spaced  \n");
    assert_eq!(items, vec!["default".to_string(), "emails".to_string(), "spaced".to_string()]);
    assert!(parse_yaml_list("").is_empty());
}

#[test]
fn body_of_distinct_lines_reads_each_key() {
    let body = "version: 1.4\nuptime: 12\ncurrent-jobs-ready: 0\nname: a b\n";
    let m = parse_yaml_map(body);
    assert_eq!(get_str(&m, "version"), "1.4");
    assert_eq!(get_u64(&m, "uptime"), 12);
    assert_eq!(get_u64(&m, "current-jobs-ready"), 0);
    assert_eq!(get_str(&m, "name"), "a b");
}

#[test]
fn appended_line_changes_only_its_key() {
    let before = "x: 1\ny: 2\n";
    let after = format!("{}z: 3\n", before);
    let (m1, m2) = (parse_yaml_map(before), parse_yaml_map(&after));
    assert_eq!(get_u64(&m2, "z"), 3);
    assert_eq!(get_u64(&m2, "x"), get_u64(&m1, "x"));
    assert_eq!(get_u64(&m2, "y"), get_u64(&m1, "y"));
}
