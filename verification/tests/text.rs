use codekb_ingest::text::{
    blank, chars_of, join, read_utf8, same_text, split, split_words, to_lower, Cut,
};

#[test]
fn splitting_and_joining_give_the_text_back() {
    for text in ["", "/", "a", "a/b", "/a//b/", "é/ü"] {
        let parts = split(text, Cut::At('/'));
        assert!(!parts.is_empty());
        assert_eq!(join(&parts, '/'), text);
    }
    assert_eq!(split("/a//b", Cut::At('/')), vec!["", "a", "", "b"]);
}

#[test]
fn words_are_between_white_space() {
    assert_eq!(split_words("  a\tbc \u{3000}d\r\n"), vec!["a", "bc", "d"]);
    assert!(split_words(" \t").is_empty());
    for text in ["x\u{85}y z", "a\u{a0}b", "\u{2028}q\u{200b}r", "é ü\u{1680}w"] {
        let expected: Vec<&str> = text.split_whitespace().collect();
        assert_eq!(split_words(text), expected);
    }
}

#[test]
fn white_space_is_blank() {
    assert!(blank(""));
    assert!(blank(" \t\r\n\u{85}\u{a0}\u{2003}\u{3000}"));
    assert!(!blank(" x "));
    assert!(!blank("\u{200b}"));
}

#[test]
fn only_ascii_letters_are_lowered() {
    assert_eq!(to_lower("AbZ@[\u{c9}1"), "abz@[\u{c9}1");
}

#[test]
fn texts_are_compared_by_character() {
    assert!(same_text("abc", "abc"));
    assert!(!same_text("abc", "abC"));
    assert_eq!(chars_of("aé"), vec!['a', 'é']);
}

#[test]
fn utf8_is_decoded() {
    assert_eq!(read_utf8(Ok(vec![0x61, 0xc3, 0xa9])), Ok("aé".to_string()));
    assert_eq!(read_utf8(Ok(vec![])), Ok(String::new()));
}

#[test]
fn other_bytes_are_refused() {
    assert_eq!(
        read_utf8(Ok(vec![0x61, 0xff])),
        Err("not utf-8: invalid utf-8 sequence of 1 bytes from index 1".to_string())
    );
}

#[test]
fn a_failure_to_read_is_passed_on() {
    assert_eq!(read_utf8(Err("gone".to_string())), Err("gone".to_string()));
}
