use unity_pipeline_cli::numbers::{
    decimal, parse_hex, parse_i64, parse_u16, parse_u32, parse_u64, signed_decimal,
};
use unity_pipeline_cli::text::{
    before, contains, ends_with, first_word, join, last_word, lines, pad_left, replace,
    split_once, strip_prefix, strip_suffix, take_chars, to_ascii_lowercase, trim, trim_end,
    trim_end_matches, trim_start,
};

#[test]
fn decimals_read_back() {
    for n in [0, 7, 10, 4294967296, u64::MAX] {
        assert_eq!(decimal(n), n.to_string());
        assert_eq!(parse_u64(&decimal(n)), Some(n));
    }
    for n in [i64::MIN, -1, 0, 1, i64::MAX] {
        assert_eq!(signed_decimal(n), n.to_string());
        assert_eq!(parse_i64(&signed_decimal(n)), Some(n));
    }
}

#[test]
fn numbers_are_read_as_std_reads_them() {
    for s in [
        "", "+", "-", "+5", "-5", "-0", "007", "65535", "65536", "4294967295", "4294967296",
        "18446744073709551615", "18446744073709551616", "9223372036854775808",
        "-9223372036854775808", "1 ", "1_0", "x",
    ] {
        assert_eq!(parse_u16(s), s.parse::<u16>().ok());
        assert_eq!(parse_u32(s), s.parse::<u32>().ok());
        assert_eq!(parse_u64(s), s.parse::<u64>().ok());
        assert_eq!(parse_i64(s), s.parse::<i64>().ok());
        assert_eq!(parse_hex(s), usize::from_str_radix(s, 16).ok());
    }
    assert_eq!(parse_hex("fF"), Some(255));
}

#[test]
fn texts_are_cut_as_std_cuts_them() {
    for s in ["", " ", "a", " a b\t", "\u{a0}x\u{3000}", "a\n\nb\r\n", "\r\r\n", "x\r"] {
        assert_eq!(trim(s), s.trim());
        assert_eq!(trim_start(s), s.trim_start());
        assert_eq!(trim_end(s), s.trim_end());
        let expected: Vec<String> = s.lines().map(|l| l.to_owned()).collect();
        assert_eq!(lines(s), expected);
        assert_eq!(first_word(s), s.split_whitespace().next().unwrap_or(""));
        assert_eq!(last_word(s), s.split_whitespace().last().unwrap_or(""));
    }
}

#[test]
fn texts_are_searched_as_std_searches_them() {
    for (s, p) in [("", "a"), ("abcabc", "bc"), ("aaaa", "aa"), ("é", "é"), ("ab", "abc")] {
        assert_eq!(contains(s, p), s.contains(p));
        assert_eq!(ends_with(s, p), s.ends_with(p));
        assert_eq!(strip_prefix(s, p), s.strip_prefix(p).map(|x| x.to_owned()));
        assert_eq!(strip_suffix(s, p), s.strip_suffix(p).map(|x| x.to_owned()));
        assert_eq!(replace(s, p, "<>"), s.replace(p, "<>"));
        assert_eq!(trim_end_matches(s, p), s.trim_end_matches(p));
    }
    assert_eq!(split_once("a=b=c", '='), Some(("a".to_owned(), "b=c".to_owned())));
    assert_eq!(split_once("abc", '='), None);
    assert_eq!(before("List`1", '`'), "List");
}

#[test]
fn texts_are_built() {
    assert_eq!(join(&vec!["a".to_owned(), "".to_owned(), "b".to_owned()], ", "), "a, , b");
    assert_eq!(join(&vec![], ", "), "");
    assert_eq!(pad_left("é", 3), format!("{:>3}", "é"));
    assert_eq!(pad_left("abcd", 3), "abcd");
    assert_eq!(take_chars("éab", 2), "éa");
    assert_eq!(to_ascii_lowercase("AbÉ"), "abÉ");
}
