use neotex::parser::preparse::{DefinitionKind, LexedStr, PreparseErrorKind};
use neotex::parser::SyntaxKind;
use neotex::parser::SyntaxKind::{
    AWord, Break, CloseBrace, Command, Comparison, ComplexMacroExpansionToken, Def, Dot, Eof,
    Equal, Error, Float, FunctionIdent, GreaterEq, Input, Less, LessEq, Let, MathDelimiter,
    Namespace, NewCommand, NewEnv, Newline, NumSign, Number, OpenBrace, PathSeperator, Pub,
    RawDelimiter, RightArrow, SimpleMacroExpansionToken, SingleApostrophe, Underscore, Use,
    UsePackage, Variable, Whitespace,
};

fn check(input: &str, expected: &[SyntaxKind], num_errors: u8, num_definitions: u8) {
    let lexed = LexedStr::new(input);
    let expected = expected.to_vec();
    let found: Vec<SyntaxKind> = lexed.syntax_tokens();

    let found_num_errors = lexed.errors().len();
    let found_num_definitions = lexed.definitions().len();

    assert_eq!(expected, found);
    assert_eq!(num_errors as usize, found_num_errors as usize);
    assert_eq!(num_definitions as usize, found_num_definitions);
}

#[test]
fn index_correction() {
    let input = "a b c";
    let expected = vec![AWord, Whitespace, AWord, Whitespace, AWord];
    check(input, &expected, 0, 0);
}

#[test]
fn simple_cmd() {
    let input = "\\def";
    let expected = vec![Def];
    check(input, &expected, 0, 1)
}

#[test]
fn simple_command() {
    let input = r#"\a "#;
    let expected = vec![Command, Whitespace];
    check(input, &expected, 0, 0);
}

#[test]
fn simple_multichar_command() {
    let input = r#"\_a::a "#;
    let expected = vec![Namespace, PathSeperator, Command, Whitespace];
    check(input, &expected, 0, 0);
}

#[test]
fn single_command() {
    let input = r#"\def_Nn_asdfa{}"#;
    let expected = vec![Command, OpenBrace, CloseBrace];
    check(input, &expected, 0, 0);
}

#[test]
fn command_trailing_underscore() {
    let input = r#"\def::Nn_asdf::a_"#;
    let expected = vec![
        Namespace,
        PathSeperator,
        Namespace,
        PathSeperator,
        Command,
        Underscore,
    ];
    check(input, &expected, 0, 0);
}

#[test]
fn command_trailing_underscore_whitespace() {
    let input = r#"\def::Nn_asdf::a_ "#;
    let expected = vec![
        Namespace,
        PathSeperator,
        Namespace,
        PathSeperator,
        Command,
        Underscore,
        Whitespace,
    ];
    check(input, &expected, 0, 0);
}

#[test]
fn command_trainling_colon() {
    let input = r#"\def:::"#;
    let expected = vec![Namespace, PathSeperator, Error];
    check(input, &expected, 1, 0);
}

#[test]
fn single_variable() {
    let input = r#"\@sdfAk_aaf4"#;
    let expected = vec![Variable];
    check(input, &expected, 0, 0);
}

#[test]
fn path_seperator_variable() {
    let input = r#"\::sd::fA::@k_aaf"#;
    let expected = vec![
        PathSeperator,
        Namespace,
        PathSeperator,
        Namespace,
        PathSeperator,
        Variable,
    ];
    check(input, &expected, 0, 0);
}

#[test]
fn path_seperator_function() {
    let input = r#"\::sd::fA::k_aaf"#;
    let expected = vec![
        PathSeperator,
        Namespace,
        PathSeperator,
        Namespace,
        PathSeperator,
        Command,
    ];
    check(input, &expected, 0, 0);
}

#[test]
fn iter_index() {
    let src = "\\newcommand{ \\name }{\nasdfasdf}";
    let lexed = LexedStr::new(src);
    let mut iter = lexed.iter();

    assert_eq!(iter.index(), 0);
    iter.next();
    assert_eq!(iter.index(), 1);
    iter.peek();
    assert_eq!(iter.index(), 1)
}

#[test]
fn test_peek_nth() {
    let src = "\\newcommand{ \\name }{\nasdfasdf}";
    let lexed = LexedStr::new(src);
    let iter = lexed.iter_from(0);

    assert_eq!(iter.peek_nth(0), Some(SyntaxKind::NewCommand));
    assert_eq!(iter.peek_nth(1), Some(SyntaxKind::OpenBrace));
    assert_eq!(iter.peek_nth(2), Some(SyntaxKind::Whitespace));
    assert_eq!(iter.peek_nth(3), Some(SyntaxKind::Command));
    assert_eq!(iter.peek_nth(4), Some(SyntaxKind::Whitespace));
    assert_eq!(iter.peek_nth(5), Some(SyntaxKind::CloseBrace));
    assert_eq!(iter.peek_nth(6), Some(SyntaxKind::OpenBrace));
    assert_eq!(iter.peek_nth(7), Some(SyntaxKind::Newline));
    assert_eq!(iter.peek_nth(8), Some(SyntaxKind::AWord));
    assert_eq!(iter.peek_nth(9), Some(SyntaxKind::CloseBrace));
    assert_eq!(iter.peek_nth(10), Some(SyntaxKind::Eof));
    assert_eq!(iter.peek_nth(11), None);
}

/// The text between the offsets of every token but the closing one, put together.
fn joined(lexed: &LexedStr) -> String {
    let mut out = String::new();
    for i in 0..lexed.len() {
        out.push_str(lexed.text(i).expect("every token has its text"));
    }
    out
}

#[test]
fn tokens_cover_the_text() {
    for input in [
        "",
        "a b c",
        "\\newcommand{\\name}[1][Leon Fuss]{as#1dfasdf#3}",
        "x\n\n \n\ny",
        "\\ä and \\@ and \\::: <= >= == -> $ 1.5 .5 \"str\" #>> #a_b #9",
        "🇦🇹 e\u{301}\r\n%% c",
    ] {
        let lexed = LexedStr::new(input);
        assert_eq!(joined(&lexed), input);
    }
}

#[test]
fn the_last_token_is_eof() {
    for input in ["", "a", "\\def", "\\", "#", "\n\n"] {
        let lexed = LexedStr::new(input);
        let iter = lexed.iter_from(lexed.len());
        assert_eq!(iter.peek_nth(0), Some(SyntaxKind::Eof));
        assert_eq!(iter.peek_nth(1), None);
        assert_eq!(lexed.text(lexed.len()), None);
    }
}

#[test]
fn malformed_command() {
    let lexed = LexedStr::new("\\ä");
    assert_eq!(lexed.syntax_tokens(), vec![Error]);
    assert_eq!(lexed.errors().len(), 1);
    assert_eq!(lexed.errors()[0].kind, PreparseErrorKind::InvalidCommandName);
    assert_eq!(lexed.errors()[0].idx, 0);
    assert_eq!(lexed.iter_from(1).peek_nth(0), Some(Eof));
}

#[test]
fn missing_names() {
    let lexed = LexedStr::new("\\ a");
    assert_eq!(lexed.syntax_tokens(), vec![Error, AWord]);
    assert_eq!(lexed.errors()[0].kind, PreparseErrorKind::CommandNameMissing);

    let lexed = LexedStr::new("\\");
    assert_eq!(lexed.syntax_tokens(), vec![Error]);
    assert_eq!(lexed.errors()[0].kind, PreparseErrorKind::CommandNameMissing);

    let lexed = LexedStr::new("\\@1");
    assert_eq!(lexed.syntax_tokens(), vec![Error, Variable]);
    assert_eq!(lexed.errors()[0].kind, PreparseErrorKind::InvalidVariableName);
}

#[test]
fn definitions_point_at_their_head_tokens() {
    let lexed = LexedStr::new("a \\newcommand \\def \\newenvironment \\newcommandx");
    let defs = lexed.definitions();
    assert_eq!(defs.len(), 3);
    assert_eq!((defs[0].kind, defs[0].idx), (DefinitionKind::Macro, 2));
    assert_eq!((defs[1].kind, defs[1].idx), (DefinitionKind::Def, 4));
    assert_eq!((defs[2].kind, defs[2].idx), (DefinitionKind::Environment, 6));
    assert_eq!(
        lexed.syntax_tokens(),
        vec![AWord, Whitespace, NewCommand, Whitespace, Def, Whitespace, NewEnv, Whitespace, Command]
    );
}

#[test]
fn keywords_and_operators() {
    let lexed = LexedStr::new("\\input \\usepackage \\use \\fn \\pub \\let");
    assert_eq!(
        lexed.syntax_tokens(),
        vec![
            Input, Whitespace, UsePackage, Whitespace, Use, Whitespace, FunctionIdent, Whitespace,
            Pub, Whitespace, Let
        ]
    );
    let lexed = LexedStr::new("<= >= == -> < = $ 12 1.5 .5 . '");
    assert_eq!(
        lexed.syntax_tokens(),
        vec![
            LessEq, Whitespace, GreaterEq, Whitespace, Comparison, Whitespace, RightArrow,
            Whitespace, Less, Whitespace, Equal, Whitespace, MathDelimiter, Whitespace, Number,
            Whitespace, Float, Whitespace, Float, Whitespace, Dot, Whitespace, SingleApostrophe
        ]
    );
}

#[test]
fn macro_parameters_strings_and_breaks() {
    let lexed = LexedStr::new("#1 #name_x #>> # \"a b\" x\n\ny\nz\\cmd*");
    assert_eq!(
        lexed.syntax_tokens(),
        vec![
            SimpleMacroExpansionToken,
            Whitespace,
            ComplexMacroExpansionToken,
            Whitespace,
            RawDelimiter,
            Whitespace,
            NumSign,
            Whitespace,
            SyntaxKind::String,
            Whitespace,
            AWord,
            Break,
            AWord,
            Newline,
            AWord,
            Command
        ]
    );
    assert_eq!(lexed.text(2), Some("#name_x"));
    assert_eq!(lexed.text(8), Some("\"a b\""));
    assert_eq!(lexed.text(11), Some("\n\n"));
    assert_eq!(lexed.text(15), Some("\\cmd*"));
    assert_eq!(lexed.text(0..3), Some("#1 #name_x"));
    assert_eq!(lexed.text(3..1), None);
    assert_eq!(lexed.text(17), None);
}
