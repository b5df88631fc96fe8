use neotex::lexer::token::TokenKind::{
    AComment, AWord, Apostrophe, CommandIdent, Comment, DoubleApostrophe, Newline, Number, Plus,
    Whitespace, Word,
};
use neotex::lexer::token::{tokenize, Token, TokenKind};

fn check(input: &str, expected: &[TokenKind]) {
    let lexed: Vec<TokenKind> = tokenize(input).into_iter().map(|it| it.kind).collect();
    assert_eq!(lexed, expected);
}

#[test]
fn word() {
    let input: &str = "asdjfqwertzuiopoonmnyxc";
    let expected = vec![AWord];
    check(input, &expected);
}

#[test]
fn words() {
    let input = "asdfäüihnß  asdf";
    let expected = vec![AWord, Word, AWord, Word, Whitespace, AWord];
    check(input, &expected);
}

#[test]
fn words_whitespace() {
    let input = "as         df jhljl";
    let expected = vec![AWord, Whitespace, AWord, Whitespace, AWord];
    check(input, &expected);
}

#[test]
fn words_newline_single_char() {
    let input: &str = "asdf\njhljl\n";
    let expected = vec![AWord, Newline, AWord, Newline];
    check(input, &expected);
}

#[test]
fn words_newline_multi_char() {
    let input = "asdf\r\njhljl\n";
    let expected = vec![AWord, Newline, AWord, Newline];
    check(input, &expected);
}

#[test]
fn multi_newline() {
    let input = "\n\r\n\n\r\n\n\n";
    let expected = vec![Newline, Newline, Newline, Newline, Newline, Newline];
    check(input, &expected);
}

#[test]
fn comment() {
    let input = "asdf 98    % asdfl#ü124<ääp\n % kllk \r\n%";
    let expected = vec![
        AWord, Whitespace, Number, Whitespace, Comment, Whitespace, Comment, Comment,
    ];
    check(input, &expected);
}

#[test]
fn command_1() {
    let input = "\\0\\+ \\asdf";
    let expected = vec![
        CommandIdent,
        Number,
        CommandIdent,
        Plus,
        Whitespace,
        CommandIdent,
        AWord,
    ];
    check(input, &expected);
}

#[test]
fn command_2() {
    let input = "\\\\\\0 \\+ \\asdf";
    let expected = vec![
        CommandIdent,
        CommandIdent,
        CommandIdent,
        Number,
        Whitespace,
        CommandIdent,
        Plus,
        Whitespace,
        CommandIdent,
        AWord,
    ];
    check(input, &expected);
}

#[test]
fn token_lengths_are_in_bytes() {
    let tokens = tokenize("ab ä \r\n%x");
    let expected = vec![
        Token { kind: AWord, len: 2 },
        Token { kind: Whitespace, len: 1 },
        Token { kind: Word, len: 2 },
        Token { kind: Whitespace, len: 1 },
        Token { kind: Newline, len: 2 },
        Token { kind: Comment, len: 2 },
    ];
    assert_eq!(tokens, expected);
}

#[test]
fn token_lengths_add_up_to_the_text() {
    for input in ["", "a", "\\newcommand{\\name}[1]{#1 ä\u{301}}\r\n%% done", "🇦🇹 e\u{301}!"] {
        let total: usize = tokenize(input).iter().map(|t| t.len).sum();
        assert_eq!(total, input.len());
    }
}

#[test]
fn annotated_comment_and_quotes() {
    check("%% note\n", &[AComment]);
    check("\"a\"", &[DoubleApostrophe, AWord, DoubleApostrophe]);
    check("'", &[Apostrophe]);
}

#[test]
fn a_cluster_is_never_split() {
    // 'e' with a combining accent is one cluster of two characters
    let tokens = tokenize("e\u{301}x");
    assert_eq!(tokens, vec![Token { kind: Word, len: 3 }, Token { kind: AWord, len: 1 }]);
}
