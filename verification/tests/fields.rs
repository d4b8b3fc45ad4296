use simple_icon::format::parse_dimensions;
use simple_icon::number::{append_decimal, parse_decimal};
use simple_icon::text::{collect_chars, find_first, matches_at, split_first};

fn chars(text: &str) -> Vec<char> {
    text.chars().collect()
}

#[test]
fn collects_the_characters_of_a_text() {
    assert_eq!(collect_chars(""), Vec::<char>::new());
    assert_eq!(collect_chars("a;;b"), vec!['a', ';', ';', 'b']);
    assert_eq!(collect_chars("\u{e9}\u{2603}z"), vec!['\u{e9}', '\u{2603}', 'z']);
}

#[test]
fn finds_the_first_occurrence() {
    let delimiter = [';', ';'];
    assert_eq!(find_first(&chars("ab;;cd;;ef"), &delimiter), Some(2));
    assert_eq!(find_first(&chars(";;"), &delimiter), Some(0));
    assert_eq!(find_first(&chars("a;b;c"), &delimiter), None);
    assert_eq!(find_first(&chars("abc;"), &delimiter), None);
    assert_eq!(find_first(&chars(""), &delimiter), None);
    assert_eq!(find_first(&chars(";"), &delimiter), None);
    assert_eq!(find_first(&chars("a;;;b"), &delimiter), Some(1));
    assert_eq!(find_first(&chars("2x3"), &['x']), Some(1));
    assert_eq!(find_first(&chars("abc"), &[]), Some(0));
    assert_eq!(find_first(&chars(""), &[]), Some(0));
    assert_eq!(find_first(&chars("aab"), &['a', 'b']), Some(1));
}

#[test]
fn tells_where_a_pattern_stands() {
    let text = chars("ab;;cd");
    assert!(matches_at(&text, &[';', ';'], 2));
    assert!(!matches_at(&text, &[';', ';'], 1));
    assert!(!matches_at(&text, &[';', ';'], 3));
    assert!(!matches_at(&text, &[';', ';'], 5));
    assert!(!matches_at(&text, &[';', ';'], 6));
    assert!(!matches_at(&text, &[';', ';'], usize::MAX));
    assert!(matches_at(&text, &[], 6));
    assert!(!matches_at(&text, &[], 7));
    assert!(matches_at(&text, &['c', 'd'], 4));
}

#[test]
fn cuts_at_the_first_occurrence() {
    let delimiter = [';', ';'];
    let text = chars("ab;;cd;;ef");
    let (head, tail) = split_first(&text, &delimiter);
    assert_eq!(head, &chars("ab")[..]);
    assert_eq!(tail, Some(&chars("cd;;ef")[..]));

    let text = chars("abcdef");
    let (head, tail) = split_first(&text, &delimiter);
    assert_eq!(head, &text[..]);
    assert_eq!(tail, None);

    let text = chars(";;");
    let (head, tail) = split_first(&text, &delimiter);
    assert!(head.is_empty());
    assert_eq!(tail, Some(&[][..]));

    let text = chars("a;;;b");
    let (head, tail) = split_first(&text, &delimiter);
    assert_eq!(head, &['a'][..]);
    assert_eq!(tail, Some(&[';', 'b'][..]));

    let text = chars("abc");
    let (head, tail) = split_first(&text, &[]);
    assert_eq!(head, &text[..]);
    assert_eq!(tail, None);
}

#[test]
fn reads_decimal_numbers() {
    assert_eq!(parse_decimal(&chars("0"), 10), Some(0));
    assert_eq!(parse_decimal(&chars("42"), 100), Some(42));
    assert_eq!(parse_decimal(&chars("+42"), 100), Some(42));
    assert_eq!(parse_decimal(&chars("00042"), 100), Some(42));
    assert_eq!(parse_decimal(&chars("+000"), 0), Some(0));
    assert_eq!(parse_decimal(&chars("65535"), 65535), Some(65535));
    assert_eq!(parse_decimal(&chars("4294967295"), 4294967295), Some(4294967295));
    assert_eq!(
        parse_decimal(&chars("18446744073709551615"), u64::MAX),
        Some(18446744073709551615)
    );
}

#[test]
fn refuses_what_is_no_decimal_number() {
    assert_eq!(parse_decimal(&chars(""), 100), None);
    assert_eq!(parse_decimal(&chars("+"), 100), None);
    assert_eq!(parse_decimal(&chars("-"), 100), None);
    assert_eq!(parse_decimal(&chars("-1"), 100), None);
    assert_eq!(parse_decimal(&chars("++1"), 100), None);
    assert_eq!(parse_decimal(&chars("+-1"), 100), None);
    assert_eq!(parse_decimal(&chars("1+"), 100), None);
    assert_eq!(parse_decimal(&chars("1 "), 100), None);
    assert_eq!(parse_decimal(&chars(" 1"), 100), None);
    assert_eq!(parse_decimal(&chars("1a"), 100), None);
    assert_eq!(parse_decimal(&chars("a1"), 100), None);
    assert_eq!(parse_decimal(&chars("1_0"), 100), None);
    assert_eq!(parse_decimal(&chars("\u{661}"), 100), None);
    assert_eq!(parse_decimal(&chars("/"), 100), None);
    assert_eq!(parse_decimal(&chars(":"), 100), None);
}

#[test]
fn refuses_numbers_above_the_limit() {
    assert_eq!(parse_decimal(&chars("101"), 100), None);
    assert_eq!(parse_decimal(&chars("1"), 0), None);
    assert_eq!(parse_decimal(&chars("65536"), 65535), None);
    assert_eq!(parse_decimal(&chars("4294967296"), 4294967295), None);
    assert_eq!(parse_decimal(&chars("18446744073709551616"), u64::MAX), None);
    assert_eq!(parse_decimal(&chars("99999999999999999999999"), u64::MAX), None);
    assert_eq!(parse_decimal(&chars("1000000000000000000000x"), u64::MAX), None);
}

#[test]
fn reads_dimension_fields() {
    assert_eq!(parse_dimensions(&chars("2x3")), Some((2, 3)));
    assert_eq!(parse_dimensions(&chars("0x0")), Some((0, 0)));
    assert_eq!(parse_dimensions(&chars("+10x+020")), Some((10, 20)));
    assert_eq!(
        parse_dimensions(&chars("4294967295x4294967295")),
        Some((u32::MAX, u32::MAX))
    );
}

#[test]
fn refuses_dimension_fields_of_another_form() {
    for bad in ["", "x", "2", "2x", "x3", "2x3x4", "2xx3", "2X3", "4294967296x1", "1x-1", "2x3 "] {
        assert_eq!(parse_dimensions(&chars(bad)), None, "field {:?}", bad);
    }
}

#[test]
fn prints_decimal_numbers() {
    for (n, expected) in [
        (0u64, "0"),
        (7, "7"),
        (9, "9"),
        (10, "10"),
        (99, "99"),
        (100, "100"),
        (65535, "65535"),
        (4294967295, "4294967295"),
        (u64::MAX, "18446744073709551615"),
    ] {
        let mut out = String::from("n=");
        append_decimal(&mut out, n);
        assert_eq!(out, format!("n={}", expected));
    }
}
