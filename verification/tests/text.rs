use neotex::lexer::cursor::{to_chars, Cursor};
use neotex::lexer::token::{tokenize, Token, TokenKind};
use neotex::parser::utils::utils::compare_advance;
use neotex::text::{first_char, len_utf8, parse_u16, same_text, second_char, slice, tail_from};
use neotex::unicode::{is_ascii, is_ascii_alphabetic, is_digit};

#[test]
fn widths_of_characters() {
    assert_eq!(len_utf8('\u{0}'), 1);
    assert_eq!(len_utf8('\u{7f}'), 1);
    assert_eq!(len_utf8('\u{80}'), 2);
    assert_eq!(len_utf8('\u{7ff}'), 2);
    assert_eq!(len_utf8('\u{800}'), 3);
    assert_eq!(len_utf8('\u{ffff}'), 3);
    assert_eq!(len_utf8('\u{10000}'), 4);
    assert_eq!(len_utf8('\u{10ffff}'), 4);
    for c in ['a', 'ß', '€', '💩'] {
        assert_eq!(len_utf8(c), c.len_utf8());
    }
}

#[test]
fn characters_of_a_text() {
    assert_eq!(first_char(""), None);
    assert_eq!(first_char("äb"), Some('ä'));
    assert_eq!(second_char("ä"), None);
    assert_eq!(second_char("äb"), Some('b'));
    assert_eq!(tail_from("äb", 2), "b");
    assert_eq!(tail_from("äb", 3), "");
    assert_eq!(to_chars("a€"), vec!['a', '€']);
}

#[test]
fn slices_lie_on_character_boundaries() {
    assert_eq!(slice("aäb", 0, 1), Some("a"));
    assert_eq!(slice("aäb", 1, 3), Some("ä"));
    assert_eq!(slice("aäb", 1, 4), Some("äb"));
    assert_eq!(slice("aäb", 4, 4), Some(""));
    assert_eq!(slice("aäb", 1, 2), None);
    assert_eq!(slice("aäb", 2, 3), None);
    assert_eq!(slice("aäb", 3, 1), None);
    assert_eq!(slice("aäb", 0, 5), None);
}

#[test]
fn texts_are_compared_by_their_characters() {
    assert!(same_text("", ""));
    assert!(same_text("\\def", "\\def"));
    assert!(!same_text("\\def", "\\de"));
    assert!(!same_text("\\def", "\\dex"));
    assert!(!same_text("a", ""));
}

#[test]
fn numbers_in_decimal_digits() {
    assert_eq!(parse_u16("0"), Some(0));
    assert_eq!(parse_u16("007"), Some(7));
    assert_eq!(parse_u16("65535"), Some(65535));
    assert_eq!(parse_u16("65536"), None);
    assert_eq!(parse_u16("99999999999999999999"), None);
    assert_eq!(parse_u16(""), None);
    assert_eq!(parse_u16("+3"), None);
    assert_eq!(parse_u16("1a"), None);
    assert_eq!(parse_u16("١"), None);
}

#[test]
fn classes_of_characters() {
    assert!(is_ascii('\u{7f}'));
    assert!(!is_ascii('\u{80}'));
    assert!(is_ascii_alphabetic('a') && is_ascii_alphabetic('Z'));
    assert!(!is_ascii_alphabetic('1') && !is_ascii_alphabetic('ä') && !is_ascii_alphabetic('['));
    assert!(is_digit('0') && is_digit('9'));
    assert!(!is_digit('a') && !is_digit('١'));
}

#[test]
fn a_space_that_is_not_ascii_ends_a_word() {
    // an em space is whitespace, but none that makes a token of its own kind
    let tokens = tokenize("ä\u{2003}ö");
    assert_eq!(
        tokens,
        vec![Token { kind: TokenKind::Word, len: 2 }, Token { kind: TokenKind::Word, len: 5 }]
    );
    let tokens = tokenize("ab\u{2003}c");
    assert_eq!(
        tokens,
        vec![
            Token { kind: TokenKind::AWord, len: 2 },
            Token { kind: TokenKind::Word, len: 3 },
            Token { kind: TokenKind::AWord, len: 1 }
        ]
    );
}

#[test]
fn cursor_walks_cluster_by_cluster() {
    let mut cursor = Cursor::new("e\u{301}\r\nx");
    assert_eq!(cursor.first(), Some("e\u{301}"));
    assert_eq!(cursor.token_len(), 0);
    assert_eq!(cursor.bump(), Some(()));
    assert_eq!(cursor.buf(), &vec!['e', '\u{301}']);
    assert_eq!(cursor.token_len(), 3);
    assert_eq!(cursor.first(), Some("\r\n"));
    assert_eq!(cursor.bump(), Some(()));
    assert_eq!(cursor.token_len(), 5);
    cursor.reset_token_len();
    assert_eq!(cursor.token_len(), 0);
    assert_eq!(cursor.bump(), Some(()));
    assert_eq!(cursor.buf(), &vec!['x']);
    assert_eq!(cursor.first(), None);
    assert_eq!(cursor.bump(), None);
    assert!(cursor.buf().is_empty());
    assert_eq!(cursor.token_len(), 1);

    let mut cursor = Cursor::new("ab c");
    let first = cursor.advance_token();
    assert_eq!(first, Token { kind: TokenKind::AWord, len: 2 });
    assert_eq!(cursor.advance_token(), Token { kind: TokenKind::Whitespace, len: 1 });
    assert_eq!(cursor.advance_token(), Token { kind: TokenKind::AWord, len: 1 });
    assert_eq!(cursor.advance_token(), Token { kind: TokenKind::Eof, len: 0 });
    assert_eq!(cursor.advance_token(), Token { kind: TokenKind::Eof, len: 0 });
}

#[test]
fn windows_are_compared_item_by_item() {
    let base = vec![1, 2, 3, 4];
    let same = |x: &i32, y: &i32| x == y;
    assert!(compare_advance(&base, 0, &Vec::<i32>::new(), same));
    assert!(compare_advance(&base, 4, &Vec::<i32>::new(), same));
    assert!(compare_advance(&base, 0, &vec![1, 2], same));
    assert!(compare_advance(&base, 1, &vec![2, 3, 4], same));
    assert!(!compare_advance(&base, 1, &vec![2, 4], same));
    assert!(!compare_advance(&base, 2, &vec![3, 4, 5], same));
    assert!(!compare_advance(&base, 4, &vec![1], same));
    assert!(compare_advance(&base, 0, &vec![2, 4], |x: &i32, y: &i32| 2 * x == *y));
}
