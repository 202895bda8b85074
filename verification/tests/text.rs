use caprice::text::byte_length;
use caprice::text::contains;
use caprice::text::leading_word;
use caprice::text::trim_end;

#[test]
fn trailing_white_space_is_trimmed() {
    assert_eq!(trim_end("some_word   "), "some_word");
    assert_eq!(trim_end("some_word"), "some_word");
    assert_eq!(trim_end("  a b  "), "  a b");
    assert_eq!(trim_end("a\t\n \u{a0}"), "a");
    assert_eq!(trim_end("   "), "");
    assert_eq!(trim_end(""), "");
}

#[test]
fn the_leading_word_ends_at_the_first_space() {
    assert_eq!(leading_word("exit now please"), "exit");
    assert_eq!(leading_word("exit"), "exit");
    assert_eq!(leading_word(" exit"), "");
    assert_eq!(leading_word(""), "");
    assert_eq!(leading_word("a\tb c"), "a\tb");
}

#[test]
fn lengths_are_counted_in_bytes() {
    assert_eq!(byte_length(""), 0);
    assert_eq!(byte_length("abc"), 3);
    assert_eq!(byte_length("\u{e9}"), 2);
    assert_eq!(byte_length("\u{20ac}a"), 4);
}

#[test]
fn membership_is_by_whole_strings() {
    let list = vec!["exit".to_owned(), "none".to_owned()];
    assert!(contains(&list, &"exit".to_owned()));
    assert!(contains(&list, &"none".to_owned()));
    assert!(!contains(&list, &"exi".to_owned()));
    assert!(!contains(&list, &"exit ".to_owned()));
    assert!(!contains(&Vec::new(), &"exit".to_owned()));
}
