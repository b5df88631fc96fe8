use neotex::parser::outline::{DefinitionKind, LexedStr, PreparseErrorKind};
use neotex::parser::SyntaxKind;
use neotex::parser::SyntaxKind::{
    AWord, CloseBrace, Command, CommandOrFunction, Equal, Error, Function, FunctionIdent, LessEq,
    MathDelimiter, Module, Namespace, Newline, OpenBrace, PathSeperator, RightArrow, Underscore,
    Use, Variable, Whitespace,
};

fn check(input: &str, expected: &[SyntaxKind], num_errors: u8, num_definitions: u8) {
    let lexed = LexedStr::new(input);
    let expected = expected.to_vec();
    let found: Vec<SyntaxKind> = lexed.syntax_tokens().iter().copied().collect();

    let found_num_errors = lexed.errors().len();
    let found_num_definitions = lexed.definitions().len();

    assert_eq!(expected, found);
    assert_eq!(num_errors as usize, found_num_errors as usize);
    assert_eq!(num_definitions as usize, found_num_definitions);
}

#[test]
fn tests_simple_command() {
    let input = r#"\a "#;
    let expected = vec![CommandOrFunction, Whitespace];
    check(input, &expected, 0, 0);
}

#[test]
fn tests_simple_multichar_command() {
    let input = r#"\_:a "#;
    let expected = vec![Command, Whitespace];
    check(input, &expected, 0, 0);
}

#[test]
fn tests_single_command() {
    let input = r#"\def:Nn_asdf:a {}"#;
    let expected = vec![Command, Whitespace, OpenBrace, CloseBrace];
    check(input, &expected, 0, 0);
}

#[test]
fn tests_command_trailing_underscore() {
    let input = r#"\def:Nn_asdf:a_"#;
    let expected = vec![Command, Underscore];
    check(input, &expected, 0, 0);
}

#[test]
fn tests_command_trailing_underscore_whitespace() {
    let input = r#"\def:Nn_asdf:a_ "#;
    let expected = vec![Command, Underscore, Whitespace];
    check(input, &expected, 0, 0);
}

#[test]
fn tests_command_trainling_colon() {
    let input = r#"\def:Nn_asdf:a:"#;
    let expected = vec![Error];
    check(input, &expected, 1, 0);
}

#[test]
fn command_trainling_colon_whitespace() {
    let input = r#"\def:Nn_asdf:a_: "#;
    let expected = vec![Error, Whitespace];
    check(input, &expected, 1, 0);
}

#[test]
fn tests_single_variable() {
    let input = r#"\@sdfAk_aaf4"#;
    let expected = vec![Variable];
    check(input, &expected, 0, 0);
}

#[test]
fn tests_path_seperator_variable() {
    let input = r#"\::sd::fA::@k_aaf"#;
    let expected = vec![
        PathSeperator,
        Namespace,
        PathSeperator,
        Namespace,
        PathSeperator,
        Variable,
    ];
    check(input, &expected, 0, 0);
}

#[test]
fn tests_path_seperator_function() {
    let input = r#"\::sd::fA::k_aaf"#;
    let expected = vec![
        PathSeperator,
        Namespace,
        PathSeperator,
        Namespace,
        PathSeperator,
        Function,
    ];
    check(input, &expected, 0, 0);
}

#[test]
fn outline_records_definitions_at_their_command_tokens() {
    let lexed = LexedStr::new("\\usepackage \\include \\input \\newcommand \\def \\newenvironment");
    let kinds: Vec<DefinitionKind> = lexed.definitions().iter().map(|it| it.kind).collect();
    assert_eq!(
        kinds,
        vec![
            DefinitionKind::Package,
            DefinitionKind::Include,
            DefinitionKind::Input,
            DefinitionKind::Command,
            DefinitionKind::Def,
            DefinitionKind::Environment
        ]
    );
    let places: Vec<usize> = lexed.definitions().iter().map(|it| it.idx).collect();
    assert_eq!(places, vec![0, 2, 4, 6, 8, 10]);
    for place in places {
        assert_eq!(lexed.syntax_tokens()[place], Command);
    }
    assert_eq!(lexed.len(), 10);
}

#[test]
fn outline_marks_keywords_before_their_command() {
    check("\\mod", &[Module, Command], 0, 0);
    check("\\fn \\use", &[FunctionIdent, Command, Whitespace, Use, Command], 0, 0);
}

#[test]
fn outline_errors() {
    let lexed = LexedStr::new("\\ \\ä \\@ \\@1 \\::1 \\::a:b \\::\n\\");
    let kinds: Vec<PreparseErrorKind> = lexed.errors().iter().map(|it| it.kind).collect();
    assert_eq!(
        kinds,
        vec![
            PreparseErrorKind::CommandOrFunctionNameMissing,
            PreparseErrorKind::InvalidCommandOrFunctionName,
            PreparseErrorKind::VariableNameMissing,
            PreparseErrorKind::InvalidVariableName,
            PreparseErrorKind::InvalidPathSpecModuleName,
            PreparseErrorKind::PathSpecModuleNameMissing,
            PreparseErrorKind::InvalidPathSpecSeperator,
            // the newline behind the path separator is taken into an error, and so is
            // the backslash behind it
            PreparseErrorKind::InvalidPathSpecModuleName,
            PreparseErrorKind::InvalidPathSpecModuleName,
        ]
    );
    // an error stands behind its `Error` token
    for error in lexed.errors() {
        assert_eq!(lexed.syntax_tokens()[error.idx - 1], Error);
    }
}

#[test]
fn outline_operators_and_breaks() {
    check("<= -> $", &[LessEq, Equal, Whitespace, RightArrow, SyntaxKind::Greater, Whitespace, MathDelimiter], 0, 0);
    check("a\n\n\nb\nc", &[AWord, SyntaxKind::Break, AWord, Newline, AWord], 0, 0);
    check("\\a:b*x", &[Command, AWord], 0, 0);
    check("\\!x", &[Command, Command], 0, 0);
}
