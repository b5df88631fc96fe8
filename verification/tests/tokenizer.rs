use neotex::parser::lexer::definition::{top, LexerState};
use neotex::parser::lexer::infra::{
    consume, consume_str, reconsume, reset, LexerAccumulate, LexerAction, LexerNext, Tokenizer,
};
use neotex::parser::lexer::tables::{composite_symbol, is_unit, symbol};
use neotex::parser::lexer::token::LexToken;
use neotex::parser::lexer::token::LexToken::{
    AWord, Bang, Break, CloseBrace, Command, CommandIdent, Comment, Eof, Float, Integer,
    MacroParameter, Newline, NumSign, OpenBrace, PathSeparator, Period, RightArrow, Symbol, UWord,
    Underscore, UnicodeEscape, Unit, Variable, VariableIdent, Whitespace,
};
use neotex::parser::lexer::token::Tombstone;

/// The tokens of `input` with their text, the closing token among them.
fn lex(input: &str) -> Vec<(LexToken, &str)> {
    let mut tokenizer = Tokenizer::new(input);
    let mut out = Vec::new();
    let mut end = 0;
    while let Some(item) = tokenizer.next() {
        let range = item.span.span();
        assert_eq!(range.start, end, "tokens follow each other without a gap");
        assert!(item.value == Eof || !range.is_empty(), "only the closing token is empty");
        end = range.end;
        out.push((item.value, &input[range]));
    }
    assert_eq!(end, input.len(), "tokens reach the end of the text");
    assert!(tokenizer.next().is_none());
    out
}

fn kinds(input: &str) -> Vec<LexToken> {
    lex(input).into_iter().map(|(kind, _)| kind).collect()
}

#[test]
fn empty_text_is_closed_at_once() {
    assert_eq!(lex(""), vec![(Eof, "")]);
}

#[test]
fn commands_and_paths() {
    assert_eq!(
        lex("\\newcommand{\\a::b_c}"),
        vec![
            (CommandIdent, "\\"),
            (Command, "newcommand"),
            (OpenBrace, "{"),
            (CommandIdent, "\\"),
            (PathSeparator, "a::"),
            (Command, "b_c"),
            (CloseBrace, "}"),
            (Eof, ""),
        ]
    );
    assert_eq!(
        lex("\\@x::y \\!"),
        vec![
            (CommandIdent, "\\"),
            (VariableIdent, "@"),
            (PathSeparator, "x::"),
            (Variable, "y"),
            (Whitespace, " "),
            (CommandIdent, "\\"),
            (Command, "!"),
            (Eof, ""),
        ]
    );
}

#[test]
fn numbers_floats_and_units() {
    assert_eq!(
        lex("12 1_000 1.5 .5 2e-3 3e4 12 pt 7mm x"),
        vec![
            (Integer, "12"),
            (Whitespace, " "),
            (Integer, "1_000"),
            (Whitespace, " "),
            (Float, "1.5"),
            (Whitespace, " "),
            (Float, ".5"),
            (Whitespace, " "),
            (Float, "2e-3"),
            (Whitespace, " "),
            (Float, "3e4"),
            (Whitespace, " "),
            (Integer, "12"),
            (Whitespace, " "),
            (Unit, "pt"),
            (Whitespace, " "),
            (Integer, "7"),
            (Unit, "mm"),
            (Whitespace, " "),
            (AWord, "x"),
            (Eof, ""),
        ]
    );
    // a unit needs a number before it and no letter behind it
    assert_eq!(kinds("pt"), vec![AWord, Eof]);
    assert_eq!(kinds("1 ptx"), vec![Integer, Whitespace, AWord, Eof]);
    assert_eq!(kinds("1}"), vec![Integer, CloseBrace, Eof]);
}

#[test]
fn newlines_and_breaks() {
    assert_eq!(
        lex("a\r\nb\n\n \nc\u{2029}d"),
        vec![
            (AWord, "a"),
            (Newline, "\r\n"),
            (AWord, "b"),
            (Break, "\n\n \n"),
            (AWord, "c"),
            (Break, "\u{2029}"),
            (AWord, "d"),
            (Eof, ""),
        ]
    );
    // whitespace behind a line ending is given back where no line ending follows it
    assert_eq!(
        lex("a\n  b\n\n  c"),
        vec![
            (AWord, "a"),
            (Newline, "\n"),
            (Whitespace, "  "),
            (AWord, "b"),
            (Break, "\n\n"),
            (Whitespace, "  "),
            (AWord, "c"),
            (Eof, ""),
        ]
    );
}

#[test]
fn comments_parameters_and_escapes() {
    assert_eq!(
        lex("% c #1\n#1 #name_ # \\u{1F4A9} \\u{12"),
        vec![
            (Comment, "% c #1"),
            (Newline, "\n"),
            (MacroParameter, "#1"),
            (Whitespace, " "),
            (MacroParameter, "#name"),
            (Underscore, "_"),
            (Whitespace, " "),
            (NumSign, "#"),
            (Whitespace, " "),
            (CommandIdent, "\\"),
            (UnicodeEscape, "u{1F4A9}"),
            (Whitespace, " "),
            (CommandIdent, "\\"),
            (UnicodeEscape, "u{12"),
            (Eof, ""),
        ]
    );
}

#[test]
fn words_and_symbols() {
    assert_eq!(
        lex("abc äöü -> ! . €"),
        vec![
            (AWord, "abc"),
            (Whitespace, " "),
            (UWord, "äöü"),
            (Whitespace, " "),
            (RightArrow, "->"),
            (Whitespace, " "),
            (Bang, "!"),
            (Whitespace, " "),
            (Period, "."),
            (Whitespace, " "),
            (Symbol, "€"),
            (Eof, ""),
        ]
    );
}

#[test]
fn tables() {
    assert!(is_unit('p', 't'));
    assert!(is_unit('m', 'u'));
    assert!(!is_unit('p', 'x'));
    assert_eq!(composite_symbol(':', ':'), Some(LexToken::PathSeparator));
    assert_eq!(composite_symbol('<', '='), Some(LexToken::LessEqual));
    assert_eq!(composite_symbol('<', '<'), None);
    assert_eq!(symbol('{'), LexToken::OpenBrace);
    assert_eq!(symbol('€'), LexToken::Symbol);
    assert_eq!(LexToken::tombstone(), LexToken::Eof);
    assert_eq!(LexToken::CommandIdent.ordinal(), 0);
    assert_eq!(LexToken::Eof.ordinal(), 57);
}

#[test]
fn actions() {
    assert_eq!(consume('a'), LexerAction::Consume(1));
    assert_eq!(consume('ä'), LexerAction::Consume(2));
    assert_eq!(consume('€'), LexerAction::Consume(3));
    assert_eq!(consume('💩'), LexerAction::Consume(4));
    assert_eq!(consume_str("\r\n"), LexerAction::Consume(2));
    assert_eq!(reconsume(), LexerAction::Reconsume);
    assert_eq!(reset(3), LexerAction::Reset(3));
    assert_eq!(
        reconsume().and_remain(),
        LexerNext::Remain(LexerAccumulate::Continue(LexerAction::Reconsume))
    );
    assert_eq!(
        consume('a').and_emit(LexToken::AWord).and_transition(top()),
        LexerNext::Transition(
            LexerAccumulate::Emit { before: Some(LexerAction::Consume(1)), token: LexToken::AWord },
            LexerState::Top { unit: false }
        )
    );
    assert_eq!(reset(1).and_discard(), LexerAccumulate::Skip(LexerAction::Reset(1)));
    assert_eq!(
        LexerNext::begin(LexerState::Number),
        LexerNext::Transition(LexerAccumulate::Begin, LexerState::Number)
    );
}

#[test]
fn transitions() {
    assert_eq!(top().next(None, ""), LexerNext::EOF);
    assert_eq!(
        top().next(Some('\\'), "a"),
        LexerNext::Transition(
            LexerAccumulate::Emit {
                before: Some(LexerAction::Consume(1)),
                token: LexToken::CommandIdent
            },
            LexerState::CommandNameBegin
        )
    );
    assert_eq!(
        LexerState::Number.next(Some('e'), "-1"),
        LexerNext::Transition(
            LexerAccumulate::Continue(LexerAction::Consume(2)),
            LexerState::FloatWithExponent
        )
    );
    assert_eq!(
        LexerState::Word.next(Some('ä'), ""),
        LexerNext::Transition(
            LexerAccumulate::Continue(LexerAction::Reconsume),
            LexerState::UWord
        )
    );
}
