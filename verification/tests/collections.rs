use neotex::collections::ring_buffer::{RingBuffer, ToRingBufferedIterator};
use neotex::collections::RingBufferedIterator;
use neotex::parser::lexer::token::LexToken;
use neotex::parser::parser::infra::{CloseMark, OpenMark};
use neotex::parser::parser::parser::{Parser, ParserEvent, ParserState, TokenizerItem, MAX_FUEL};
use neotex::parser::parser::token_set::TokenSet;
use neotex::parser::preprocessor::errors::{PreprocessError, PreprocessErrorKind};
use neotex::parser::utils::peek::{peek_two, Iterutils};
use neotex::parser::SyntaxKind;
use neotex::span::{CurrentFile, Span, Spanned};

#[test]
fn ring_buffer_is_first_in_first_out() {
    let mut buffer: RingBuffer<u32, 3> = RingBuffer::new();
    assert!(buffer.is_empty());
    assert_eq!(buffer.capacity(), 3);
    assert_eq!(buffer.dequeue(), None);
    assert_eq!(buffer.enqueue(1), Ok(()));
    assert_eq!(buffer.enqueue(2), Ok(()));
    assert_eq!(buffer.get(0), Some(1));
    assert_eq!(buffer.get(1), Some(2));
    assert_eq!(buffer.get(2), None);
    assert_eq!(buffer.enqueue(3), Ok(()));
    assert!(buffer.is_full());
    assert_eq!(buffer.enqueue(4), Err(4));
    assert_eq!(buffer.len(), 3);
    assert_eq!(buffer.dequeue(), Some(1));
    if let Some(item) = buffer.get_mut(1) {
        *item += 0;
    }
    assert!(buffer.get_mut(2).is_none());
    assert_eq!(buffer.enqueue(4), Ok(()));
    assert_eq!(buffer.get(0), Some(2));
    assert_eq!(buffer.get(2), Some(4));
    assert_eq!(buffer.dequeue(), Some(2));
    assert_eq!(buffer.dequeue(), Some(3));
    assert_eq!(buffer.dequeue(), Some(4));
    assert_eq!(buffer.dequeue(), None);
    assert!(buffer.is_empty());

    let mut buffer: RingBuffer<u32, 2> = RingBuffer::new();
    let _ = buffer.enqueue(5);
    *buffer.get_mut(0).expect("one item") = 6;
    assert_eq!(buffer.dequeue(), Some(6));
}

#[test]
fn buffered_walk_looks_ahead_as_far_as_its_buffer() {
    let mut iter: RingBufferedIterator<u32, 2> = RingBufferedIterator::new(vec![10, 20, 30, 40]);
    assert_eq!(iter.peek_nth(1), Some(20));
    assert_eq!(iter.peek(), Some(10));
    assert_eq!(iter.peek_nth(2), None);
    assert_eq!(iter.next(), Some(10));
    assert_eq!(iter.peek_nth(1), Some(30));
    assert_eq!(iter.next(), Some(20));
    assert_eq!(iter.next(), Some(30));
    assert_eq!(iter.peek_nth(1), None);
    assert_eq!(iter.next(), Some(40));
    assert_eq!(iter.next(), None);
    assert_eq!(iter.peek(), None);

    let mut other = vec![1u8, 2].buffered::<4>();
    assert_eq!(other.peek_nth(1), Some(2));
}

#[test]
fn two_items_of_lookahead() {
    let mut iter = peek_two(vec![1, 2, 3]);
    assert_eq!(iter.peek_first(), Some(&1));
    assert_eq!(iter.peek_second(), Some(&2));
    assert_eq!(iter.next(), Some(1));
    assert_eq!(iter.next(), Some(2));
    assert_eq!(iter.peek_first(), Some(&3));
    assert_eq!(iter.peek_second(), None);
    assert_eq!(iter.next(), Some(3));
    assert_eq!(iter.next(), None);
    assert_eq!(iter.base_iter(), &vec![1, 2, 3]);
    let other = vec!['a'].peek_two();
    assert_eq!(other.peek_first(), Some(&'a'));
}

#[test]
fn token_sets() {
    let empty = TokenSet::new();
    assert!(!empty.contains(LexToken::Eof));
    let set = TokenSet::from_slice(&[LexToken::Comma, LexToken::Eof, LexToken::Comma]);
    assert!(set.contains(LexToken::Comma));
    assert!(set.contains(LexToken::Eof));
    assert!(!set.contains(LexToken::CommandIdent));
    let more = set.insert(LexToken::CommandIdent);
    assert!(more.contains(LexToken::CommandIdent));
    assert!(more.contains(LexToken::Comma));
    assert!(!set.contains(LexToken::CommandIdent));
}

fn item(value: LexToken, start: usize, len: usize) -> TokenizerItem {
    Spanned { value, span: Span::new(CurrentFile::new(), start, len) }
}

#[test]
fn parser_records_events() {
    let tokens = vec![item(LexToken::AWord, 0, 3), item(LexToken::Whitespace, 3, 2)];
    let mut parser = Parser::new(tokens, ParserState::Markdown);
    assert!(!parser.eof());
    assert!(parser.at(LexToken::AWord));
    assert_eq!(parser.nth(1), LexToken::Whitespace);
    assert_eq!(parser.nth(2), LexToken::Eof);
    assert!(parser.at_any(TokenSet::from_slice(&[LexToken::AWord, LexToken::UWord])));
    let open = parser.open();
    assert_eq!(open, OpenMark::new(0));
    parser.advance();
    parser.advance();
    assert!(parser.eof());
    let close = parser.close(open, SyntaxKind::TEXT);
    assert_eq!(close, CloseMark::new(0));
    let around = parser.open_before(close);
    assert_eq!(around.get(), 0);
    let _ = parser.close(OpenMark::new(4), SyntaxKind::ROOT);
    assert_eq!(
        parser.finish(),
        vec![
            ParserEvent::Open { kind: SyntaxKind::TEXT, open_before: Some(4) },
            ParserEvent::Advance,
            ParserEvent::Advance,
            ParserEvent::Close { len: 5 },
            ParserEvent::Open { kind: SyntaxKind::ROOT, open_before: None },
            ParserEvent::Close { len: 0 },
        ]
    );
    assert_eq!(MAX_FUEL, 256);
}

#[test]
fn spans_and_errors() {
    let span = Span::new(CurrentFile::new(), 4, 3);
    assert_eq!(span.span(), 4..7);
    assert_eq!(span.len(), 3);
    let error = PreprocessError::new(
        PreprocessErrorKind::MissingGroupBegin,
        7,
        SyntaxKind::OpenBrace,
        Some(SyntaxKind::AWord),
    );
    assert_eq!(error.idx, 7);
    assert_eq!(error.kind, PreprocessErrorKind::MissingGroupBegin);
    assert_eq!(error.expected, SyntaxKind::OpenBrace);
    assert_eq!(error.found, Some(SyntaxKind::AWord));
}
