//! Tokens of a text and the tokenizer that groups grapheme clusters into them.

use super::cursor::{graphemes, lemma_span_len_split, span_len, to_chars, Cursor, CursorView};
use crate::text::utf8_len;
use crate::unicode::{is_ascii, is_ascii_alphabetic, is_digit, is_unicode_whitespace, white_space};
use vstd::prelude::*;

verus! {

/// A token of a text: its kind and its length in bytes.
#[derive(Debug, Clone, Copy, PartialEq, Eq, Structural)]
pub struct Token {
    /// The kind of the token.
    pub kind: TokenKind,
    /// The length of the token in bytes.
    pub len: usize,
}

impl Token {
    /// A token of the kind `kind` and of `len` bytes.
    pub fn new(kind: TokenKind, len: usize) -> (t: Token)
        ensures
            t == (Token { kind, len }),
    {
        Token { kind, len }
    }
}

/// The kinds of tokens.
#[derive(Clone, Copy, Debug, PartialEq, Eq, Structural)]
pub enum TokenKind {
    /// A backslash, which begins a command.
    CommandIdent,
    /// A run of spaces and tabs.
    Whitespace,
    /// A line ending.
    Newline,
    /// A comment line (starting with '%').
    Comment,
    /// An annotated comment line (which holds a second '%').
    AComment,
    /// A sequence of digits.
    Number,
    /// A sequence of characters forming a word.
    Word,
    /// A sequence of ASCII letters.
    AWord,
    /// '{'
    OpenBrace,
    /// '}'
    CloseBrace,
    /// '['
    OpenBracket,
    /// ']'
    CloseBracket,
    /// '('
    OpenParen,
    /// ')'
    CloseParen,
    /// '*'
    Star,
    /// '#'
    NumSign,
    /// '^'
    Carret,
    /// '<'
    Less,
    /// '>'
    Greater,
    /// '_'
    Underscore,
    /// "'"
    Apostrophe,
    /// '"'
    DoubleApostrophe,
    /// '/'
    Slash,
    /// '~'
    Tilde,
    /// ','
    Comma,
    /// ';'
    Semicolon,
    /// '&'
    Ampersand,
    /// '='
    Equal,
    /// '|'
    Pipe,
    /// ':'
    Colon,
    /// '$'
    Dollar,
    /// '-'
    Minus,
    /// '+'
    Plus,
    /// '.'
    Dot,
    /// '@'
    At,
    /// '?'
    Question,
    /// '!'
    Bang,
    /// A cluster without characters.
    Unknown,
    /// The end of the input.
    Eof,
}

/// Checks single chars for whitespace characters. This does not include newline
/// characters.
#[verifier::allow_in_spec]
pub fn is_whitespace(c: char) -> bool
    returns
        (c == '\u{0009}' || c == '\u{0020}' || c == '\u{00A0}' || c == '\u{1680}' || c
            == '\u{202F}' || c == '\u{3000}' || c == '\u{200E}' || c == '\u{200F}'),
{
    c == '\u{0009}' || c == '\u{0020}' || c == '\u{00A0}' || c == '\u{1680}' || c == '\u{202F}'
        || c == '\u{3000}' || c == '\u{200E}' || c == '\u{200F}'
}

/// Checks a single char for a newline character. A carriage return with its line feed is
/// one cluster of two characters and is not seen here.
#[verifier::allow_in_spec]
pub fn is_newline(c: char) -> bool
    returns
        (c == '\u{000A}' || c == '\u{000B}' || c == '\u{000C}' || c == '\u{000D}' || c
            == '\u{0085}' || c == '\u{2028}' || c == '\u{2029}'),
{
    c == '\u{000A}' || c == '\u{000B}' || c == '\u{000C}' || c == '\u{000D}' || c == '\u{0085}'
        || c == '\u{2028}' || c == '\u{2029}'
}

/// The kind of the token that the character `c` is by itself, if it is one.
#[verifier::allow_in_spec]
pub fn symbol_kind(c: char) -> Option<TokenKind>
    returns
        (if c == '{' {
            Some(TokenKind::OpenBrace)
        } else if c == '}' {
            Some(TokenKind::CloseBrace)
        } else if c == '(' {
            Some(TokenKind::OpenParen)
        } else if c == ')' {
            Some(TokenKind::CloseParen)
        } else if c == '[' {
            Some(TokenKind::OpenBracket)
        } else if c == ']' {
            Some(TokenKind::CloseBracket)
        } else if c == '*' {
            Some(TokenKind::Star)
        } else if c == '.' {
            Some(TokenKind::Dot)
        } else if c == ';' {
            Some(TokenKind::Semicolon)
        } else if c == ',' {
            Some(TokenKind::Comma)
        } else if c == ':' {
            Some(TokenKind::Colon)
        } else if c == '#' {
            Some(TokenKind::NumSign)
        } else if c == '~' {
            Some(TokenKind::Tilde)
        } else if c == '$' {
            Some(TokenKind::Dollar)
        } else if c == '?' {
            Some(TokenKind::Question)
        } else if c == '!' {
            Some(TokenKind::Bang)
        } else if c == '&' {
            Some(TokenKind::Ampersand)
        } else if c == '=' {
            Some(TokenKind::Equal)
        } else if c == '<' {
            Some(TokenKind::Less)
        } else if c == '>' {
            Some(TokenKind::Greater)
        } else if c == '-' {
            Some(TokenKind::Minus)
        } else if c == '+' {
            Some(TokenKind::Plus)
        } else if c == '|' {
            Some(TokenKind::Pipe)
        } else if c == '^' {
            Some(TokenKind::Carret)
        } else if c == '\'' {
            Some(TokenKind::Apostrophe)
        } else if c == '"' {
            Some(TokenKind::DoubleApostrophe)
        } else if c == '_' {
            Some(TokenKind::Underscore)
        } else if c == '/' {
            Some(TokenKind::Slash)
        } else if c == '@' {
            Some(TokenKind::At)
        } else {
            None
        }),
{
    if c == '{' {
        Some(TokenKind::OpenBrace)
    } else if c == '}' {
        Some(TokenKind::CloseBrace)
    } else if c == '(' {
        Some(TokenKind::OpenParen)
    } else if c == ')' {
        Some(TokenKind::CloseParen)
    } else if c == '[' {
        Some(TokenKind::OpenBracket)
    } else if c == ']' {
        Some(TokenKind::CloseBracket)
    } else if c == '*' {
        Some(TokenKind::Star)
    } else if c == '.' {
        Some(TokenKind::Dot)
    } else if c == ';' {
        Some(TokenKind::Semicolon)
    } else if c == ',' {
        Some(TokenKind::Comma)
    } else if c == ':' {
        Some(TokenKind::Colon)
    } else if c == '#' {
        Some(TokenKind::NumSign)
    } else if c == '~' {
        Some(TokenKind::Tilde)
    } else if c == '$' {
        Some(TokenKind::Dollar)
    } else if c == '?' {
        Some(TokenKind::Question)
    } else if c == '!' {
        Some(TokenKind::Bang)
    } else if c == '&' {
        Some(TokenKind::Ampersand)
    } else if c == '=' {
        Some(TokenKind::Equal)
    } else if c == '<' {
        Some(TokenKind::Less)
    } else if c == '>' {
        Some(TokenKind::Greater)
    } else if c == '-' {
        Some(TokenKind::Minus)
    } else if c == '+' {
        Some(TokenKind::Plus)
    } else if c == '|' {
        Some(TokenKind::Pipe)
    } else if c == '^' {
        Some(TokenKind::Carret)
    } else if c == '\'' {
        Some(TokenKind::Apostrophe)
    } else if c == '"' {
        Some(TokenKind::DoubleApostrophe)
    } else if c == '_' {
        Some(TokenKind::Underscore)
    } else if c == '/' {
        Some(TokenKind::Slash)
    } else if c == '@' {
        Some(TokenKind::At)
    } else {
        None
    }
}

/// The runs of clusters that a token takes in after its first cluster.
pub enum Run {
    Whitespace,
    Number,
    Word,
    AsciiWord,
}

/// Whether the cluster `c` goes on a run of the kind `run`.
pub open spec fn goes_on(run: Run, c: Seq<char>) -> bool {
    match run {
        Run::Whitespace => c.len() == 1 && is_whitespace(c[0]),
        Run::Number => c.len() > 0 && is_digit(c[0]),
        Run::Word => c.len() != 0 && !(c.len() == 1 && (white_space(c[0]) || is_ascii(c[0]))),
        Run::AsciiWord => c.len() == 1 && !white_space(c[0]) && is_ascii_alphabetic(c[0]),
    }
}

/// Whether the cluster `c` is a single whitespace character.
fn is_whitespace_cluster(c: &Vec<char>) -> (b: bool)
    ensures
        b == goes_on(Run::Whitespace, c@),
{
    c.len() == 1 && is_whitespace(c[0])
}

/// The index of the first cluster from `i` on that does not go on the run, or the number
/// of clusters.
pub open spec fn run_end(clusters: Seq<Seq<char>>, i: int, run: Run) -> int
    decreases clusters.len() - i,
{
    if 0 <= i < clusters.len() && goes_on(run, clusters[i]) {
        run_end(clusters, i + 1, run)
    } else {
        i
    }
}

/// The kind of a comment whose clusters are scanned from `i` on, and the index behind its
/// last cluster. A second '%' makes the comment an annotated one, and the line ending that
/// closes the comment belongs to it.
pub open spec fn comment_end(clusters: Seq<Seq<char>>, i: int, kind: TokenKind) -> (
    TokenKind,
    int,
)
    decreases clusters.len() - i,
{
    if 0 <= i < clusters.len() {
        let c = clusters[i];
        if c.len() == 0 {
            (kind, i)
        } else if c.len() == 1 && c[0] == '%' {
            comment_end(clusters, i + 1, TokenKind::AComment)
        } else if c.len() == 1 && is_newline(c[0]) {
            (kind, i + 1)
        } else if c.len() == 2 && c[0] == '\u{000D}' {
            (kind, i + 1)
        } else {
            comment_end(clusters, i + 1, kind)
        }
    } else {
        (kind, i)
    }
}

/// The kind of the token that begins with the cluster `i`, and the index behind its last
/// cluster.
pub open spec fn token_from(clusters: Seq<Seq<char>>, i: int) -> (TokenKind, int) {
    let c = clusters[i];
    let next = i + 1;
    if c.len() == 0 {
        (TokenKind::Unknown, next)
    } else if c.len() == 2 {
        if c[0] == '\u{000D}' {
            (TokenKind::Newline, next)
        } else {
            (TokenKind::Word, run_end(clusters, next, Run::Word))
        }
    } else if c.len() > 2 {
        (TokenKind::Word, run_end(clusters, next, Run::Word))
    } else {
        let a = c[0];
        if is_newline(a) {
            (TokenKind::Newline, next)
        } else if is_whitespace(a) {
            (TokenKind::Whitespace, run_end(clusters, next, Run::Whitespace))
        } else if a == '%' {
            comment_end(clusters, next, TokenKind::Comment)
        } else if a == '\u{005C}' {
            (TokenKind::CommandIdent, next)
        } else if is_digit(a) {
            (TokenKind::Number, run_end(clusters, next, Run::Number))
        } else if symbol_kind(a) is Some {
            (symbol_kind(a)->0, next)
        } else if is_ascii(a) {
            (TokenKind::AWord, run_end(clusters, next, Run::AsciiWord))
        } else {
            (TokenKind::Word, run_end(clusters, next, Run::Word))
        }
    }
}

/// The tokens of the clusters from `i` on.
pub open spec fn tokens_from(clusters: Seq<Seq<char>>, i: int) -> Seq<Token>
    decreases clusters.len() - i,
{
    if 0 <= i < clusters.len() {
        let (kind, end) = token_from(clusters, i);
        if i < end <= clusters.len() {
            seq![Token { kind, len: span_len(clusters, i, end) as usize }] + tokens_from(
                clusters,
                end,
            )
        } else {
            Seq::empty()
        }
    } else {
        Seq::empty()
    }
}

/// The tokens of a text, given by its grapheme clusters.
pub open spec fn tokens_of(clusters: Seq<Seq<char>>) -> Seq<Token> {
    tokens_from(clusters, 0)
}

/// A run ends behind where it began, inside the text.
pub proof fn lemma_run_end_bounds(clusters: Seq<Seq<char>>, i: int, run: Run)
    requires
        0 <= i <= clusters.len(),
    ensures
        i <= run_end(clusters, i, run) <= clusters.len(),
    decreases clusters.len() - i,
{
    if i < clusters.len() && goes_on(run, clusters[i]) {
        lemma_run_end_bounds(clusters, i + 1, run);
    }
}

/// A comment ends behind where its scan began, inside the text, and is a comment.
pub proof fn lemma_comment_end_bounds(clusters: Seq<Seq<char>>, i: int, kind: TokenKind)
    requires
        0 <= i <= clusters.len(),
        kind == TokenKind::Comment || kind == TokenKind::AComment,
    ensures
        i <= comment_end(clusters, i, kind).1 <= clusters.len(),
        comment_end(clusters, i, kind).0 == TokenKind::Comment || comment_end(clusters, i, kind).0
            == TokenKind::AComment,
    decreases clusters.len() - i,
{
    if i < clusters.len() {
        let c = clusters[i];
        if c.len() == 0 {
        } else if c.len() == 1 && c[0] == '%' {
            lemma_comment_end_bounds(clusters, i + 1, TokenKind::AComment);
        } else if c.len() == 1 && is_newline(c[0]) {
        } else if c.len() == 2 && c[0] == '\u{000D}' {
        } else {
            lemma_comment_end_bounds(clusters, i + 1, kind);
        }
    }
}

/// A token takes at least its first cluster, ends inside the text, and is never the end
/// of the input.
pub proof fn lemma_token_from_bounds(clusters: Seq<Seq<char>>, i: int)
    requires
        0 <= i < clusters.len(),
    ensures
        i < token_from(clusters, i).1 <= clusters.len(),
        token_from(clusters, i).0 != TokenKind::Eof,
{
    lemma_run_end_bounds(clusters, i + 1, Run::Whitespace);
    lemma_run_end_bounds(clusters, i + 1, Run::Number);
    lemma_run_end_bounds(clusters, i + 1, Run::Word);
    lemma_run_end_bounds(clusters, i + 1, Run::AsciiWord);
    lemma_comment_end_bounds(clusters, i + 1, TokenKind::Comment);
}

/// The run that begins at `i` ends at `end` where every cluster before `end` goes on it
/// and the one at `end` does not.
pub proof fn lemma_run_end_is(clusters: Seq<Seq<char>>, i: int, end: int, run: Run)
    requires
        0 <= i <= end <= clusters.len(),
        forall|j: int| i <= j < end ==> goes_on(run, #[trigger] clusters[j]),
        end < clusters.len() ==> !goes_on(run, clusters[end]),
    ensures
        run_end(clusters, i, run) == end,
    decreases end - i,
{
    if i < end {
        lemma_run_end_is(clusters, i + 1, end, run);
    }
}

/// Whether every token is of a kind that stands for a piece of text: none is the end of the
/// input, and none is unknown.
pub open spec fn clean(tokens: Seq<Token>) -> bool {
    forall|i: int|
        0 <= i < tokens.len() ==> (#[trigger] tokens[i]).kind != TokenKind::Eof && tokens[i].kind
            != TokenKind::Unknown
}

/// The tokens of clusters that are not empty are clean.
pub proof fn lemma_tokens_clean(clusters: Seq<Seq<char>>, i: int)
    requires
        0 <= i <= clusters.len(),
        forall|j: int| 0 <= j < clusters.len() ==> (#[trigger] clusters[j]).len() > 0,
    ensures
        clean(tokens_from(clusters, i)),
    decreases clusters.len() - i,
{
    if i < clusters.len() {
        lemma_token_from_bounds(clusters, i);
        let (kind, end) = token_from(clusters, i);
        lemma_tokens_clean(clusters, end);
        lemma_comment_end_bounds(clusters, i + 1, TokenKind::Comment);
        assert(clusters[i].len() > 0);
        assert(kind != TokenKind::Unknown);
    }
}

/// Whether every token ends on a character boundary of the text `bytes`: the lengths of any
/// number of tokens from the first one on add up to a boundary.
pub open spec fn tokens_fit(tokens: Seq<Token>, bytes: Seq<u8>) -> bool {
    forall|k: int|
        0 <= k <= tokens.len() ==> vstd::utf8::is_char_boundary(
            bytes,
            #[trigger] total_len(tokens.take(k)) as int,
        )
}

/// The index of the cluster behind the first `k` tokens that begin at the cluster `i`.
pub open spec fn end_after(clusters: Seq<Seq<char>>, i: int, k: nat) -> int
    decreases k,
{
    if k == 0 {
        i
    } else {
        end_after(clusters, token_from(clusters, i).1, (k - 1) as nat)
    }
}

/// The first `k` tokens from the cluster `i` on take in the clusters up to a cluster, and
/// have their bytes.
pub proof fn lemma_tokens_span(clusters: Seq<Seq<char>>, i: int, k: nat)
    requires
        0 <= i <= clusters.len(),
        k <= tokens_from(clusters, i).len(),
        span_len(clusters, 0, clusters.len() as int) <= usize::MAX,
    ensures
        i <= end_after(clusters, i, k) <= clusters.len(),
        total_len(tokens_from(clusters, i).take(k as int)) == span_len(
            clusters,
            i,
            end_after(clusters, i, k),
        ),
    decreases k,
{
    let tokens = tokens_from(clusters, i);
    if k == 0 {
        assert(tokens.take(0) =~= Seq::<Token>::empty());
    } else {
        lemma_token_from_bounds(clusters, i);
        let (kind, end) = token_from(clusters, i);
        let first = seq![Token { kind, len: span_len(clusters, i, end) as usize }];
        let rest = tokens_from(clusters, end);
        assert(tokens == first + rest);
        lemma_tokens_span(clusters, end, (k - 1) as nat);
        assert(tokens.take(k as int) =~= first + rest.take(k - 1));
        lemma_total_len_concat(first, rest.take(k - 1));
        assert(first.drop_last() =~= Seq::<Token>::empty());
        assert(total_len(first) == first.last().len as nat) by {
            reveal_with_fuel(total_len, 2);
        }
        let n = clusters.len() as int;
        lemma_span_len_split(clusters, 0, i, n);
        lemma_span_len_split(clusters, i, end, n);
        lemma_span_len_split(clusters, i, end, end_after(clusters, end, (k - 1) as nat));
    }
}

/// The tokens of a text end on character boundaries of the text.
pub proof fn lemma_tokens_fit(clusters: Seq<Seq<char>>)
    requires
        span_len(clusters, 0, clusters.len() as int) <= usize::MAX,
    ensures
        tokens_fit(tokens_of(clusters), vstd::utf8::encode_utf8(clusters.flatten())),
{
    let tokens = tokens_of(clusters);
    assert forall|k: int| 0 <= k <= tokens.len() implies vstd::utf8::is_char_boundary(
        vstd::utf8::encode_utf8(clusters.flatten()),
        #[trigger] total_len(tokens.take(k)) as int,
    ) by {
        lemma_tokens_span(clusters, 0, k as nat);
        super::cursor::lemma_cluster_boundary(clusters, end_after(clusters, 0, k as nat));
    }
}

/// The sum of the lengths of `tokens`.
pub open spec fn total_len(tokens: Seq<Token>) -> nat
    decreases tokens.len(),
{
    if tokens.len() == 0 {
        0
    } else {
        total_len(tokens.drop_last()) + tokens.last().len as nat
    }
}

/// The lengths of two sequences of tokens add up.
pub proof fn lemma_total_len_concat(a: Seq<Token>, b: Seq<Token>)
    ensures
        total_len(a + b) == total_len(a) + total_len(b),
    decreases b.len(),
{
    if b.len() == 0 {
        assert(a + b =~= a);
    } else {
        lemma_total_len_concat(a, b.drop_last());
        assert((a + b).drop_last() =~= a + b.drop_last());
    }
}

/// The tokens of a text leave no byte out and take none twice: from any cluster on, their
/// lengths add up to the bytes of the clusters.
pub proof fn lemma_tokens_cover(clusters: Seq<Seq<char>>, i: int)
    requires
        0 <= i <= clusters.len(),
        span_len(clusters, 0, clusters.len() as int) <= usize::MAX,
    ensures
        total_len(tokens_from(clusters, i)) == span_len(clusters, i, clusters.len() as int),
    decreases clusters.len() - i,
{
    let n = clusters.len() as int;
    if i < n {
        lemma_token_from_bounds(clusters, i);
        let (kind, end) = token_from(clusters, i);
        lemma_tokens_cover(clusters, end);
        lemma_span_len_split(clusters, i, end, n);
        lemma_span_len_split(clusters, 0, i, n);
        let first = seq![Token { kind, len: span_len(clusters, i, end) as usize }];
        lemma_total_len_concat(first, tokens_from(clusters, end));
        assert(first.drop_last() =~= Seq::<Token>::empty());
        assert(total_len(first) == first.last().len as nat) by {
            reveal_with_fuel(total_len, 2);
        }
    }
}

/// The cursor has consumed the run `run` that began at the next cluster of `before`.
pub open spec fn ran(before: CursorView, after: CursorView, run: Run) -> bool {
    &&& after.wf()
    &&& after.clusters == before.clusters
    &&& after.next == run_end(before.clusters, before.next, run)
    &&& after.token_len == before.token_len + span_len(before.clusters, before.next, after.next)
}

impl<'source> Cursor<'source> {
    /// Takes the next token off the text; at the end of the text it is the token of the
    /// kind `Eof`, of no length.
    pub fn advance_token(&mut self) -> (t: Token)
        requires
            old(self)@.wf(),
            old(self)@.token_len == 0,
        ensures
            final(self)@.wf(),
            final(self)@.clusters == old(self)@.clusters,
            final(self)@.token_len == 0,
            old(self)@.first() is None ==> t == (Token { kind: TokenKind::Eof, len: 0 })
                && final(self)@.next == old(self)@.next,
            old(self)@.first() is Some ==> ({
                let (kind, end) = token_from(old(self)@.clusters, old(self)@.next);
                &&& t.kind == kind
                &&& t.len == span_len(old(self)@.clusters, old(self)@.next, end)
                &&& final(self)@.next == end
            }),
    {
        match self.bump() {
            Some(c) => c,
            None => return Token::new(TokenKind::Eof, 0),
        };
        proof {
            lemma_token_from_bounds(self@.clusters, old(self)@.next);
        }
        let token_kind = self.token_kind();
        proof {
            lemma_span_len_split(
                self@.clusters,
                old(self)@.next,
                old(self)@.next + 1,
                self@.next,
            );
            assert(span_len(self@.clusters, old(self)@.next, old(self)@.next + 1) == utf8_len(
                self@.clusters[old(self)@.next],
            )) by {
                assert(span_len(self@.clusters, old(self)@.next, old(self)@.next) == 0);
            }
        }
        let res = Token::new(token_kind, self.token_len());
        self.reset_token_len();
        res
    }

    /// The kind of the token whose first cluster has just been consumed; the clusters that
    /// belong to the token are consumed with it.
    fn token_kind(&mut self) -> (kind: TokenKind)
        requires
            old(self)@.wf(),
            0 < old(self)@.next,
            old(self)@.buf == old(self)@.clusters[old(self)@.next - 1],
        ensures
            final(self)@.wf(),
            final(self)@.clusters == old(self)@.clusters,
            (kind, final(self)@.next) == token_from(old(self)@.clusters, old(self)@.next - 1),
            final(self)@.token_len == old(self)@.token_len + span_len(
                old(self)@.clusters,
                old(self)@.next,
                final(self)@.next,
            ),
    {
        let n = self.buf().len();
        // sort into ascii and non_ascii
        if n == 0 {
            return TokenKind::Unknown;
        } else if n == 2 {
            return self.word_or_newline();
        } else if n > 2 {
            return self.word();
        }
        let ascii_char = self.buf()[0];
        if is_newline(ascii_char) {
            TokenKind::Newline
        } else if is_whitespace(ascii_char) {
            self.whitespace()
        } else if ascii_char == '%' {
            self.comment()
        } else if ascii_char == '\u{005C}' {
            TokenKind::CommandIdent
        } else if is_digit(ascii_char) {
            self.number()
        } else if let Some(kind) = symbol_kind(ascii_char) {
            kind
        } else if is_ascii(ascii_char) {
            self.ascii_word()
        } else {
            self.word()
        }
    }

    fn whitespace(&mut self) -> (kind: TokenKind)
        requires
            old(self)@.wf(),
        ensures
            kind == TokenKind::Whitespace,
            ran(old(self)@, final(self)@, Run::Whitespace),
    {
        let ghost here = self@;
        self.eat_while(is_whitespace_cluster, Ghost(|c: Seq<char>| goes_on(Run::Whitespace, c)));
        proof {
            lemma_run_end_is(here.clusters, here.next, self@.next, Run::Whitespace);
        }
        TokenKind::Whitespace
    }

    fn word_or_newline(&mut self) -> (kind: TokenKind)
        requires
            old(self)@.wf(),
            old(self)@.buf.len() == 2,
        ensures
            final(self)@.wf(),
            final(self)@.clusters == old(self)@.clusters,
            old(self)@.buf[0] == '\u{000D}' ==> kind == TokenKind::Newline && final(self)@
                == old(self)@,
            old(self)@.buf[0] != '\u{000D}' ==> kind == TokenKind::Word && ran(old(self)@, final(self)@, Run::Word),
    {
        if self.buf()[0] == '\u{000D}' {
            TokenKind::Newline
        } else {
            self.word()
        }
    }

    fn comment(&mut self) -> (kind: TokenKind)
        requires
            old(self)@.wf(),
        ensures
            final(self)@.wf(),
            final(self)@.clusters == old(self)@.clusters,
            (kind, final(self)@.next) == comment_end(
                old(self)@.clusters,
                old(self)@.next,
                TokenKind::Comment,
            ),
            final(self)@.token_len == old(self)@.token_len + span_len(
                old(self)@.clusters,
                old(self)@.next,
                final(self)@.next,
            ),
    {
        let mut comment_ty = TokenKind::Comment;
        loop
            invariant_except_break
                comment_end(self@.clusters, self@.next, comment_ty) == comment_end(
                    old(self)@.clusters,
                    old(self)@.next,
                    TokenKind::Comment,
                ),
            invariant
                self@.wf(),
                self@.clusters == old(self)@.clusters,
                old(self)@.next <= self@.next,
                self@.token_len == old(self)@.token_len + span_len(
                    self@.clusters,
                    old(self)@.next,
                    self@.next,
                ),
            ensures
                (comment_ty, self@.next) == comment_end(
                    old(self)@.clusters,
                    old(self)@.next,
                    TokenKind::Comment,
                ),
            decreases self@.clusters.len() - self@.next,
        {
            let buf = match self.first() {
                None => {
                    break ;
                },
                Some(c) => to_chars(c),
            };
            let n = buf.len();
            if n == 0 {
                break ;
            } else if n == 1 && buf[0] == '%' {
                comment_ty = TokenKind::AComment;
                self.bump();
            } else if n == 1 && is_newline(buf[0]) {
                self.bump();
                break ;
            } else if n == 2 && buf[0] == '\u{000D}' {
                self.bump();
                break ;
            } else {
                self.bump();
            }
        }
        comment_ty
    }

    /// Numbers are treated as whole blocks.
    fn number(&mut self) -> (kind: TokenKind)
        requires
            old(self)@.wf(),
        ensures
            kind == TokenKind::Number,
            ran(old(self)@, final(self)@, Run::Number),
    {
        loop
            invariant
                self@.wf(),
                self@.clusters == old(self)@.clusters,
                old(self)@.next <= self@.next,
                run_end(self@.clusters, self@.next, Run::Number) == run_end(
                    old(self)@.clusters,
                    old(self)@.next,
                    Run::Number,
                ),
                self@.token_len == old(self)@.token_len + span_len(
                    self@.clusters,
                    old(self)@.next,
                    self@.next,
                ),
            ensures
                self@.next == run_end(old(self)@.clusters, old(self)@.next, Run::Number),
            decreases self@.clusters.len() - self@.next,
        {
            let buf = match self.first() {
                None => {
                    break ;
                },
                Some(c) => to_chars(c),
            };
            if buf.len() == 0 {
                break ;
            }
            if is_digit(buf[0]) {
                self.bump();
            } else {
                break ;
            }
        }
        TokenKind::Number
    }

    fn word(&mut self) -> (kind: TokenKind)
        requires
            old(self)@.wf(),
        ensures
            kind == TokenKind::Word,
            ran(old(self)@, final(self)@, Run::Word),
    {
        loop
            invariant
                self@.wf(),
                self@.clusters == old(self)@.clusters,
                old(self)@.next <= self@.next,
                run_end(self@.clusters, self@.next, Run::Word) == run_end(
                    old(self)@.clusters,
                    old(self)@.next,
                    Run::Word,
                ),
                self@.token_len == old(self)@.token_len + span_len(
                    self@.clusters,
                    old(self)@.next,
                    self@.next,
                ),
            ensures
                self@.next == run_end(old(self)@.clusters, old(self)@.next, Run::Word),
            decreases self@.clusters.len() - self@.next,
        {
            let buf = match self.first() {
                None => {
                    break ;
                },
                Some(c) => to_chars(c),
            };
            let n = buf.len();
            if n == 0 {
                break ;
            } else if n == 1 && is_unicode_whitespace(buf[0]) {
                break ;
            } else if n == 1 && is_ascii(buf[0]) {
                break ;
            } else {
                self.bump();
            }
        }
        TokenKind::Word
    }

    fn ascii_word(&mut self) -> (kind: TokenKind)
        requires
            old(self)@.wf(),
        ensures
            kind == TokenKind::AWord,
            ran(old(self)@, final(self)@, Run::AsciiWord),
    {
        loop
            invariant
                self@.wf(),
                self@.clusters == old(self)@.clusters,
                old(self)@.next <= self@.next,
                run_end(self@.clusters, self@.next, Run::AsciiWord) == run_end(
                    old(self)@.clusters,
                    old(self)@.next,
                    Run::AsciiWord,
                ),
                self@.token_len == old(self)@.token_len + span_len(
                    self@.clusters,
                    old(self)@.next,
                    self@.next,
                ),
            ensures
                self@.next == run_end(old(self)@.clusters, old(self)@.next, Run::AsciiWord),
            decreases self@.clusters.len() - self@.next,
        {
            let buf = match self.first() {
                None => {
                    break ;
                },
                Some(c) => to_chars(c),
            };
            let n = buf.len();
            if n == 0 {
                break ;
            } else if n == 1 && is_unicode_whitespace(buf[0]) {
                break ;
            } else if n == 1 && is_ascii_alphabetic(buf[0]) {
                self.bump();
            } else {
                break ;
            }
        }
        TokenKind::AWord
    }
}

/// Cuts a text into its tokens. The tokens are those of the grapheme clusters of the text,
/// so that no token boundary splits what a reader sees as one character, and their lengths
/// add up to the length of the text.
pub fn tokenize(input: &str) -> (tokens: Vec<Token>)
    ensures
        tokens@ == tokens_of(graphemes(input@)),
        total_len(tokens@) == utf8_len(input@),
        clean(tokens@),
        tokens_fit(tokens@, vstd::utf8::encode_utf8(input@)),
{
    let mut cursor = Cursor::new(input);
    let mut tokens: Vec<Token> = Vec::new();
    let ghost clusters = cursor@.clusters;
    proof {
        super::cursor::lemma_span_len_total(clusters, clusters.len() as int);
        assert(clusters.take(clusters.len() as int) =~= clusters);
        lemma_tokens_cover(clusters, 0);
        lemma_tokens_clean(clusters, 0);
        lemma_tokens_fit(clusters);
    }
    loop
        invariant
            cursor@.wf(),
            cursor@.clusters == clusters,
            cursor@.token_len == 0,
            tokens@ + tokens_from(clusters, cursor@.next) == tokens_from(clusters, 0),
        ensures
            tokens@ == tokens_from(clusters, 0),
        decreases clusters.len() - cursor@.next,
    {
        proof {
            if cursor@.next < clusters.len() {
                lemma_token_from_bounds(clusters, cursor@.next);
            }
        }
        let ghost before = cursor@.next;
        let token = cursor.advance_token();
        if token.kind != TokenKind::Eof {
            tokens.push(token);
            assert(tokens@ + tokens_from(clusters, cursor@.next) =~= tokens_from(clusters, 0)) by {
                assert(tokens_from(clusters, before) =~= seq![token] + tokens_from(
                    clusters,
                    cursor@.next,
                ));
            }
        } else {
            assert(tokens_from(clusters, cursor@.next) =~= Seq::<Token>::empty());
            assert(tokens@ + Seq::<Token>::empty() =~= tokens@);
            break ;
        }
    }
    tokens
}

} // verus!
