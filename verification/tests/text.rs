use clipboard_daemon::number::{
    decimal_text, digit_char, parse_i64, parse_u16, signed_decimal_text,
};
use clipboard_daemon::text::{
    append_chars, chars_of, contains_chars, ends_with, holds, is_whitespace, replace, same_chars,
    same_text, split_on, split_whitespace, stands_at, starts_with, string_of, trim,
    trim_end, trim_end_matches, trim_start, trim_start_matches,
};

fn joined(parts: Vec<Vec<char>>) -> Vec<String> {
    parts.iter().map(|part| string_of(part)).collect()
}

#[test]
fn text_and_characters_convert() {
    assert_eq!(chars_of("a\u{e9}\u{1f980}"), vec!['a', '\u{e9}', '\u{1f980}']);
    assert_eq!(string_of(&['x', '\u{2014}']), "x\u{2014}");
    assert_eq!(string_of(&[]), "");
    let mut out = vec!['a'];
    append_chars(&mut out, &['b', 'c']);
    assert_eq!(out, vec!['a', 'b', 'c']);
}

#[test]
fn texts_are_compared() {
    assert!(same_text("peer", "peer"));
    assert!(!same_text("peer", "Peer"));
    assert!(!same_text("peer", "peers"));
    assert!(same_chars(&[], &[]));
    assert!(!same_chars(&['a'], &['b']));
}

#[test]
fn patterns_are_found() {
    let text = chars_of("let mut x");
    assert!(contains_chars(&text, &chars_of("mut")));
    assert!(contains_chars(&text, &chars_of("")));
    assert!(contains_chars(&text, &text));
    assert!(!contains_chars(&text, &chars_of("mutt")));
    assert!(!contains_chars(&[], &['a']));
    assert!(stands_at(&text, &chars_of("mut"), 4));
    assert!(!stands_at(&text, &chars_of("mut"), 5));
    assert!(!stands_at(&text, &chars_of("x"), usize::MAX));
    assert!(starts_with(&text, &chars_of("let")));
    assert!(!starts_with(&text, &chars_of("mut")));
    assert!(ends_with(&text, &chars_of(" x")));
    assert!(!ends_with(&chars_of("x"), &chars_of("xx")));
    assert!(holds(&['?', '&'], '&'));
    assert!(!holds(&['?', '&'], '='));
}

#[test]
fn copies_are_trimmed_as_often_as_they_stand() {
    let twice = chars_of("aabb");
    assert_eq!(string_of(trim_start_matches(&twice, &['a'])), "bb");
    assert_eq!(string_of(trim_end_matches(&twice, &['b'])), "aa");
    assert_eq!(string_of(trim_start_matches(&twice, &[])), "aabb");
    assert_eq!(string_of(trim_end_matches(&twice, &[])), "aabb");
    assert_eq!(string_of(trim_start_matches(&twice, &['b'])), "aabb");
}

#[test]
fn copies_are_replaced_from_the_left() {
    let text = chars_of("aaa-%20%20");
    assert_eq!(string_of(&replace(&text, &chars_of("aa"), &['x'])), "xa-%20%20");
    assert_eq!(string_of(&replace(&text, &chars_of("%20"), &[' '])), "aaa-  ");
    assert_eq!(string_of(&replace(&text, &chars_of("zz"), &[' '])), "aaa-%20%20");
}

#[test]
fn white_space_is_what_the_standard_library_takes_for_it() {
    for code in 0..=0x10ffffu32 {
        if let Some(c) = char::from_u32(code) {
            assert_eq!(is_whitespace(c), c.is_whitespace(), "{:x}", code);
        }
    }
}

#[test]
fn white_space_is_trimmed() {
    let text = chars_of(" \t\u{a0}a b\n ");
    assert_eq!(string_of(trim(&text)), "a b");
    assert_eq!(string_of(trim_start(&text)), "a b\n ");
    assert_eq!(string_of(trim_end(&text)), " \t\u{a0}a b");
    assert_eq!(string_of(trim(&chars_of(" \n "))), "");
}

#[test]
fn text_is_split() {
    let text = chars_of("/a//b/");
    assert_eq!(joined(split_on(&text, &['/'])), vec!["", "a", "", "b", ""]);
    assert_eq!(joined(split_on(&[], &['/'])), vec![""]);
    assert_eq!(joined(split_on(&chars_of("a.b!c"), &['.', '!'])), vec!["a", "b", "c"]);
    assert_eq!(joined(split_whitespace(&chars_of("  two\u{2003}words \n"))), vec!["two", "words"]);
    assert_eq!(split_whitespace(&chars_of(" \t ")).len(), 0);
}

#[test]
fn numbers_are_written() {
    assert_eq!(digit_char(0), '0');
    assert_eq!(digit_char(9), '9');
    assert_eq!(digit_char(10), 'a');
    assert_eq!(digit_char(15), 'f');
    assert_eq!(decimal_text(0), "0");
    assert_eq!(decimal_text(10), "10");
    assert_eq!(decimal_text(u64::MAX), "18446744073709551615");
    assert_eq!(signed_decimal_text(-1), "-1");
    assert_eq!(signed_decimal_text(i64::MIN), "-9223372036854775808");
    assert_eq!(signed_decimal_text(i64::MAX), "9223372036854775807");
}

#[test]
fn numbers_are_read_as_the_standard_library_reads_them() {
    let samples = [
        "", "0", "007", "+8", "-8", "+", "-", "--1", "+-1", "65535", "65536", "8080", "80a", " 80",
        "9223372036854775807", "9223372036854775808", "-9223372036854775808",
        "-9223372036854775809", "18446744073709551615", "18446744073709551616",
        "99999999999999999999999999", "\u{661}", "-0", "+0",
    ];
    for sample in samples {
        assert_eq!(parse_u16(&chars_of(sample)), sample.parse::<u16>().ok(), "{}", sample);
        assert_eq!(parse_i64(&chars_of(sample)), sample.parse::<i64>().ok(), "{}", sample);
    }
}

#[test]
fn written_numbers_read_back() {
    for n in [i64::MIN, -1234567890, -1, 0, 9, 10, 42, i64::MAX] {
        assert_eq!(parse_i64(&chars_of(&signed_decimal_text(n))), Some(n));
    }
    for port in [0u16, 7, 8080, 65535] {
        assert_eq!(parse_u16(&chars_of(&decimal_text(port as u64))), Some(port));
    }
}
