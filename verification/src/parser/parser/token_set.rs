//! Sets of lexical tokens.

use crate::parser::lexer::token::LexToken;
use vstd::prelude::*;

verus! {

/// A set of tokens to easily match against membership. Uses a bitset to store the tokens.
#[derive(Debug, Clone, Copy)]
pub struct TokenSet(u128);

/// Setting the bit `a` of `x` sets that bit and leaves the others as they are.
proof fn lemma_set_bit(x: u128, a: u128, b: u128)
    by (bit_vector)
    requires
        a < 128,
        b < 128,
    ensures
        ((x | (1u128 << a)) & (1u128 << b) != 0) == (a == b || (x & (1u128 << b)) != 0),
        (0u128 & (1u128 << b)) == 0,
{
}

/// Two kinds of tokens at the same place in the order of the kinds are the same.
pub proof fn lemma_ordinal_injective(a: LexToken, b: LexToken)
    requires
        a.ordinal() == b.ordinal(),
    ensures
        a == b,
{
}

impl View for TokenSet {
    type V = Set<LexToken>;

    closed spec fn view(&self) -> Set<LexToken> {
        Set::new(|token: LexToken| self.0 & (1u128 << (token.ordinal() as u128)) != 0)
    }
}

impl TokenSet {
    fn mask(token: LexToken) -> (m: u128)
        ensures
            m == 1u128 << (token.ordinal() as u128),
    {
        1u128 << (token.ordinal() as u128)
    }

    /// The empty set.
    pub fn new() -> (s: TokenSet)
        ensures
            s@ == Set::<LexToken>::empty(),
    {
        let s = TokenSet(0);
        assert forall|token: LexToken| !s@.contains(token) by {
            lemma_set_bit(0, 0, token.ordinal() as u128);
        }
        assert(s@ =~= Set::<LexToken>::empty());
        s
    }

    /// The set of the tokens in `tokens`.
    pub fn from_slice(tokens: &[LexToken]) -> (s: TokenSet)
        ensures
            s@ == tokens@.to_set(),
    {
        let mut set = TokenSet::new();
        let mut i: usize = 0;
        while i < tokens.len()
            invariant
                i <= tokens.len(),
                set@ == tokens@.take(i as int).to_set(),
            decreases tokens.len() - i,
        {
            let token = tokens[i];
            if !set.contains(token) {
                set = set.insert(token);
            }
            assert(tokens@.take(i + 1) =~= tokens@.take(i as int).push(token));
            assert(tokens@.take(i + 1).to_set() =~= tokens@.take(i as int).to_set().insert(
                token,
            )) by {
                assert forall|t: LexToken|
                    tokens@.take(i + 1).to_set().contains(t) == tokens@.take(
                        i as int,
                    ).to_set().insert(token).contains(t) by {
                    if tokens@.take(i as int).contains(t) {
                        let j = choose|j: int|
                            0 <= j < i && tokens@.take(i as int)[j] == t;
                        assert(tokens@.take(i + 1)[j] == t);
                    }
                    if t == token {
                        assert(tokens@.take(i + 1)[i as int] == t);
                    }
                }
            }
            i += 1;
        }
        assert(tokens@.take(tokens@.len() as int) =~= tokens@);
        set
    }

    /// The set with `token` added.
    pub fn insert(self, token: LexToken) -> (s: TokenSet)
        ensures
            s@ == self@.insert(token),
    {
        let s = TokenSet(self.0 | TokenSet::mask(token));
        assert forall|other: LexToken| s@.contains(other) == self@.insert(token).contains(
            other,
        ) by {
            lemma_set_bit(self.0, token.ordinal() as u128, other.ordinal() as u128);
            if token.ordinal() == other.ordinal() {
                lemma_ordinal_injective(token, other);
            }
        }
        assert(s@ =~= self@.insert(token));
        s
    }

    /// Whether `token` is in the set.
    pub fn contains(&self, token: LexToken) -> (b: bool)
        ensures
            b == self@.contains(token),
    {
        self.0 & TokenSet::mask(token) != 0
    }
}

} // verus!
