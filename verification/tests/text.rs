use madis::text::chars_of;
use madis::text::decimal_text;
use madis::text::parse_number;
use madis::text::split_text;
use madis::text::text_eq;
use madis::text::text_lines;
use madis::text::text_lt;

fn strings(items: &[&str]) -> Vec<String> {
    items.iter().map(|s| s.to_string()).collect()
}

#[test]
fn splitting_keeps_empty_pieces() {
    assert_eq!(split_text("a:b:c", ':'), strings(&["a", "b", "c"]));
    assert_eq!(split_text("", ':'), strings(&[""]));
    assert_eq!(split_text(":", ':'), strings(&["", ""]));
    assert_eq!(split_text("a::b:", ':'), strings(&["a", "", "b", ""]));
    assert_eq!(split_text("abc", ':'), strings(&["abc"]));
    assert_eq!(split_text("äb:çd", ':'), strings(&["äb", "çd"]));
}

#[test]
fn splitting_agrees_with_the_standard_library() {
    for text in ["", "a", ":a", "a:", "a:b", "::", "x:y::z", "naïve:clé:"] {
        let expected: Vec<String> = text.split(':').map(|p| p.to_string()).collect();
        assert_eq!(split_text(text, ':'), expected);
    }
}

#[test]
fn characters_come_in_order() {
    assert_eq!(chars_of("héllo"), vec!['h', 'é', 'l', 'l', 'o']);
    assert_eq!(chars_of(""), Vec::<char>::new());
}

#[test]
fn lexical_order_goes_by_code_point() {
    assert!(text_lt("Apple", "banana"));
    assert!(!text_lt("banana", "Apple"));
    assert!(text_lt("", "a"));
    assert!(!text_lt("a", ""));
    assert!(!text_lt("", ""));
    assert!(text_lt("a", "ab"));
    assert!(!text_lt("ab", "a"));
    assert!(!text_lt("same", "same"));
    assert!(text_lt("Z", "a"));
    assert!(text_lt("z", "é"));
}

#[test]
fn lexical_order_agrees_with_the_standard_library() {
    let samples = ["", "a", "A", "ab", "b", "é", "z", "zz", "10", "9", "日本", "~"];
    for a in samples {
        for b in samples {
            assert_eq!(text_lt(a, b), a < b);
            assert_eq!(text_eq(a, b), a == b);
        }
    }
}

#[test]
fn numbers_are_rendered_in_decimal() {
    assert_eq!(decimal_text(0), "0");
    assert_eq!(decimal_text(7), "7");
    assert_eq!(decimal_text(10), "10");
    assert_eq!(decimal_text(6379), "6379");
    assert_eq!(decimal_text(u64::MAX), "18446744073709551615");
}

#[test]
fn numbers_are_read_up_to_a_bound() {
    assert_eq!(parse_number("0", 10), Some(0));
    assert_eq!(parse_number("007", 10), Some(7));
    assert_eq!(parse_number("+5", 10), Some(5));
    assert_eq!(parse_number("10", 10), Some(10));
    assert_eq!(parse_number("11", 10), None);
    assert_eq!(parse_number("", 10), None);
    assert_eq!(parse_number("+", 10), None);
    assert_eq!(parse_number("-1", 10), None);
    assert_eq!(parse_number("1a", 10), None);
    assert_eq!(parse_number("++1", 10), None);
    assert_eq!(parse_number(" 1", 10), None);
    assert_eq!(parse_number("18446744073709551615", u64::MAX), Some(u64::MAX));
    assert_eq!(parse_number("18446744073709551616", u64::MAX), None);
    assert_eq!(parse_number("4294967296", 4294967295), None);
    assert_eq!(parse_number("99999999999999999999999x", u64::MAX), None);
}

#[test]
fn reading_numbers_agrees_with_the_standard_library() {
    for text in ["", "0", "+0", "12", "+12", "-12", "1.5", "4294967295", "4294967296", "x", "٣"] {
        assert_eq!(parse_number(text, u32::MAX as u64), text.parse::<u32>().ok().map(u64::from));
        assert_eq!(parse_number(text, u64::MAX), text.parse::<u64>().ok());
    }
}

#[test]
fn lines_end_at_line_feeds() {
    assert_eq!(text_lines("a\nb"), strings(&["a", "b"]));
    assert_eq!(text_lines("a\r\nb\r\n"), strings(&["a", "b"]));
    assert_eq!(text_lines(""), Vec::<String>::new());
    assert_eq!(text_lines("\n"), strings(&[""]));
    assert_eq!(text_lines("a\n\nb"), strings(&["a", "", "b"]));
    assert_eq!(text_lines("a\r"), strings(&["a\r"]));
    assert_eq!(text_lines("a\r\r\nb"), strings(&["a\r", "b"]));
}

#[test]
fn lines_agree_with_the_standard_library() {
    for text in ["", "\n", "\r\n", "a", "a\n", "a\nb", "a\r\nb\r", "\n\n", "x\r\n\r\ny\n", "\r"] {
        let expected: Vec<String> = text.lines().map(|l| l.to_string()).collect();
        assert_eq!(text_lines(text), expected);
    }
}
