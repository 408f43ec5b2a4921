use clipboard_daemon::digest::{generate_digest, rank_sentences, truncate_str};
use clipboard_daemon::hash::{hash_bytes, hex_text};
use clipboard_daemon::language::detect_language;
use clipboard_daemon::sensitive::{detect_sensitive, has_keyword};

fn weigh(raw: u128, words: usize) -> u64 {
    (raw as f64 / (words as f64).sqrt()).to_bits()
}

fn words(list: &[&[&str]]) -> Vec<Vec<String>> {
    list.iter().map(|line| line.iter().map(|word| word.to_string()).collect()).collect()
}

#[test]
fn languages_are_told_by_two_fragments() {
    assert_eq!(detect_language("def f(self):\n    return self.x"), "python");
    assert_eq!(detect_language("fn main() { let mut x = 1; }"), "rust");
    assert_eq!(detect_language("const f = () => console.log(1)"), "javascript");
    assert_eq!(detect_language("interface A { b: string }"), "typescript");
    assert_eq!(detect_language("public static void main() System.out.println"), "java");
    assert_eq!(detect_language("int main( printf( "), "c");
    assert_eq!(detect_language("#include <iostream> cout << 1"), "cpp");
    assert_eq!(detect_language("using System; Console.WriteLine(1)"), "csharp");
    assert_eq!(detect_language("<?php $this->a"), "php");
    assert_eq!(detect_language("SELECT * FROM clips WHERE id"), "sql");
    assert_eq!(detect_language("<!DOCTYPE html><html>"), "html");
    assert_eq!(detect_language("a { width: 3px; }"), "css");
    assert_eq!(detect_language("#!/bin/bash\necho $HOME"), "shell");
    assert_eq!(detect_language("[\"a\":null,]"), "json");
}

#[test]
fn one_fragment_is_not_enough() {
    assert_eq!(detect_language("import something"), "text");
    assert_eq!(detect_language(""), "text");
    assert_eq!(detect_language("plain words only"), "text");
}

#[test]
fn the_first_of_two_equal_languages_wins() {
    // Two fragments of rust, and two of javascript.
    assert_eq!(detect_language("fn -> function =>"), "rust");
    // Three of javascript beat two of rust.
    assert_eq!(detect_language("fn -> function => const "), "javascript");
}

#[test]
fn secrets_are_detected_in_any_case() {
    assert!(detect_sensitive("My PassWord is x"));
    assert!(detect_sensitive("AKIAIOSFODNN"));
    assert!(detect_sensitive("Authorization: Bearer abc"));
    assert!(detect_sensitive("-----BEGIN RSA"));
    assert!(!detect_sensitive("bearer"));
    assert!(!detect_sensitive("nothing to hide"));
    assert!(!detect_sensitive(""));
    // The Kelvin sign is a k in lower case.
    assert!(detect_sensitive("api_\u{212a}ey"));
}

#[test]
fn keywords_are_sought_as_they_are() {
    for keyword in [
        "password", "passwd", "pwd=", "pwd:", "secret", "api_key", "apikey", "api-key",
        "access_token", "auth_token", "client_secret", "private_key", "-----begin", "bearer ",
        "aws_secret", "akia",
    ] {
        assert!(has_keyword(&format!("x{}y", keyword)), "{}", keyword);
    }
    assert!(!has_keyword("PASSWORD"));
    assert!(!has_keyword("pwd"));
}

#[test]
fn text_is_cut_short() {
    assert_eq!(truncate_str("short", 5), "short");
    assert_eq!(truncate_str("shorter", 5), "short...");
    assert_eq!(truncate_str("cut  here", 5), "cut...");
    assert_eq!(truncate_str("\u{e9}\u{e9}\u{e9}", 2), "\u{e9}\u{e9}...");
    assert_eq!(truncate_str("x", 0), "...");
    assert_eq!(truncate_str("", 0), "");
}

#[test]
fn short_content_has_no_digest() {
    assert!(generate_digest(&"a".repeat(199), "text", weigh).is_none());
    assert!(generate_digest(&"a".repeat(199), "rust", weigh).is_none());
    // Characters count, not bytes.
    assert!(generate_digest(&"\u{e9}".repeat(199), "text", weigh).is_none());
}

#[test]
fn the_digest_of_code_counts_its_lines() {
    let line = format!("{}\n", "x".repeat(99));
    let content = line.repeat(2);
    assert_eq!(
        generate_digest(&content, "rust", weigh).as_deref(),
        Some("2 lines of rust code")
    );
    let content = format!("{}end", content);
    assert_eq!(
        generate_digest(&content, "css", weigh).as_deref(),
        Some("3 lines of css code")
    );
    let content = "\n".repeat(200);
    assert_eq!(
        generate_digest(&content, "json", weigh).as_deref(),
        Some("200 lines of json code")
    );
}

#[test]
fn one_sentence_is_its_own_digest() {
    let content = "w".repeat(250);
    let expected = format!("{}...", "w".repeat(140));
    assert_eq!(generate_digest(&content, "text", weigh), Some(expected.clone()));
    assert_eq!(generate_digest(&content, "n/a", weigh), Some(expected));
    let content = format!("{}a sentence of its own", "\n".repeat(200));
    assert_eq!(
        generate_digest(&content, "text", weigh).as_deref(),
        Some("a sentence of its own")
    );
}

#[test]
fn fragments_make_no_digest() {
    assert!(generate_digest(&"Too short. ".repeat(30), "text", weigh).is_none());
    // Fifteen bytes are too few, sixteen are enough.
    let fifteen = format!("{}{}", "abcdefghijklmno", ".".repeat(200));
    assert!(generate_digest(&fifteen, "text", weigh).is_none());
    let sixteen = format!("{}{}", "abcdefghijklmnop", ".".repeat(200));
    assert_eq!(generate_digest(&sixteen, "text", weigh).as_deref(), Some("abcdefghijklmnop"));
}

#[test]
fn the_heaviest_sentence_is_the_digest() {
    let content = "The quick brown fox jumps over the lazy dog near the river. Clipboard history \
                   keeps every clipboard entry that clipboard users copy! Nothing else matters \
                   very much in this small paragraph of words today? Short one. The end of it \
                   all comes here at last";
    assert_eq!(
        generate_digest(content, "text", weigh).as_deref(),
        Some("Clipboard history keeps every clipboard entry that clipboard users copy")
    );
}

#[test]
fn the_first_of_two_equal_sentences_is_the_digest() {
    let content = "Alpha beta gamma delta words? Words delta gamma beta alpha! ".repeat(4);
    assert_eq!(
        generate_digest(&content, "text", weigh).as_deref(),
        Some("Alpha beta gamma delta words")
    );
}

#[test]
fn sentences_without_long_words_leave_the_first_one() {
    let content = "a b c d e f g h i j. ".repeat(12);
    assert_eq!(
        generate_digest(&content, "text", weigh).as_deref(),
        Some("a b c d e f g h i j")
    );
}

#[test]
fn the_case_and_the_punctuation_of_words_do_not_count() {
    let content = "Meadow grasses sway gently tonight. (MEADOW) \"meadow\" walks, meadow-s! \
                   Other things happen elsewhere meanwhile. Something different altogether \
                   occurred yesterday afternoon around seven thirty somewhere far off";
    assert_eq!(
        generate_digest(content, "text", weigh).as_deref(),
        Some("(MEADOW) \"meadow\" walks, meadow-s")
    );
}

#[test]
fn sentences_are_ranked_by_their_words() {
    let list = words(&[&["the", "fox"], &["fox", "fox"], &["dog"]]);
    assert_eq!(rank_sentences(&list, weigh), Some(1));
    // By the plain sum of the frequencies, without regard to the length.
    assert_eq!(rank_sentences(&list, |raw, _| raw as u64), Some(1));
    // By the least number of words.
    assert_eq!(rank_sentences(&list, |_, n| 100 - n as u64), Some(2));
    assert_eq!(rank_sentences(&words(&[&["a"], &["be"]]), weigh), None);
    assert_eq!(rank_sentences(&words(&[]), weigh), None);
    // A sentence of stop words weighs nothing, but counts.
    assert_eq!(rank_sentences(&words(&[&["a"], &["the", "and"]]), weigh), Some(1));
}

#[test]
fn a_digest_is_short() {
    let long = format!("{}. {}!", "word ".repeat(90), "another sentence ".repeat(40));
    let digest = generate_digest(&long, "text", weigh).unwrap();
    assert!(digest.chars().count() <= 143);
    assert!(digest.ends_with("..."));
}

#[test]
fn a_digest_quotes_the_content() {
    let content = format!("{}\n  A sentence that is quoted as it stands.\n", "x. ".repeat(80));
    let digest = generate_digest(&content, "text", weigh).unwrap();
    assert_eq!(digest, "A sentence that is quoted as it stands");
    assert!(content.contains(&digest));
}

#[test]
fn prose_needs_no_language() {
    for content in [
        "w".repeat(250),
        "Too short. ".repeat(30),
        "Alpha beta gamma delta words? Words delta gamma beta alpha! ".repeat(4),
        "short".to_string(),
    ] {
        assert_eq!(
            generate_digest(&content, "text", weigh),
            generate_digest(&content, "n/a", weigh)
        );
    }
}

#[test]
fn bytes_are_hashed() {
    assert_eq!(
        hash_bytes(b"abc"),
        "ba7816bf8f01cfea414140de5dae2223b00361a396177a9cb410ff61f20015ad"
    );
    assert_eq!(
        hash_bytes(b""),
        "e3b0c44298fc1c149afbf4c8996fb92427ae41e4649b934ca495991b7852b855"
    );
    assert_eq!(hex_text(&[0x00, 0x0f, 0xa0, 0xff]), "000fa0ff");
}
