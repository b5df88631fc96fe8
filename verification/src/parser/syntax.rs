//! The kinds of syntax tokens.

use crate::lexer::TokenKind;
use vstd::prelude::*;

verus! {

/// The kind of a syntax token.
#[derive(Clone, Copy, PartialEq, Eq, PartialOrd, Ord, Hash, Debug, Structural)]
pub enum SyntaxKind {
    /// Command tokens
    Macro,
    /// A command
    Command,
    /// A name that may be the name of a command or of a function
    CommandOrFunction,
    /// Function Token
    Function,
    /// Whitespace token (e.g., ' ')
    Whitespace,
    /// Newline token (e.g., '\n')
    Newline,
    /// Multiple Newline tokens
    Break,
    /// Comment token (e.g., '% Comment')
    Comment,
    /// Annotated Comment token (e.g., '%% Annotated Comment')
    AComment,
    /// Unicode-Word token (e.g., 'wòad')
    Word,
    /// ASCII-Word token (e.g., 'ASCII')
    AWord,
    /// Number token (e.g., '123')
    Number,
    /// Float token (eg. '.123', '12.123')
    Float,
    /// String (eg. "....")
    String,
    /// Open brace token (e.g., '{')
    OpenBrace,
    /// Close brace token (e.g., '}')
    CloseBrace,
    /// Open bracket token (e.g., '[')
    OpenBracket,
    /// Close bracket token (e.g., ']')
    CloseBracket,
    /// Open parenthesis token (e.g., '(')
    OpenParen,
    /// Close parenthesis token (e.g., ')')
    CloseParen,
    /// Star token (e.g., '*')
    Star,
    /// Number sign token (e.g., '#')
    NumSign,
    /// Carret token (e.g., '^')
    Carret,
    /// Less than token (e.g., '<')
    Less,
    /// Less than or equal token (e.g., '<=')
    LessEq,
    /// Greater than token (e.g., '>')
    Greater,
    /// Greater than or equal token (e.g., '>=')
    GreaterEq,
    /// Comparison (e.g. '==')
    Comparison,
    /// Underscore token (e.g., '_')
    Underscore,
    /// Apostrophe token (e.g., '\'')
    SingleApostrophe,
    /// double Apostrophe token (e.g., '"')
    DoubleApostrophe,
    /// Slash token (e.g., '/')
    Slash,
    /// Tilde token (e.g., '~')
    Tilde,
    /// Comma token (e.g., ',')
    Comma,
    /// Semicolon token (e.g., ';')
    Semicolon,
    /// Ampersand token (e.g., '&')
    Ampersand,
    /// Equal token (e.g., '=')
    Equal,
    /// Pipe token (e.g., '|')
    Pipe,
    /// Colon token (e.g., ':')
    Colon,
    /// Minus token (e.g., '-')
    Minus,
    /// Plus token (e.g., '+')
    Plus,
    /// Dot token (e.g., '.')
    Dot,
    /// Question mark token (e.g., '?')
    Question,
    /// Exclamation mark token (e.g., '!')
    Bang,
    /// Not equal token (e.g., '!=')
    NotEq,
    /// At token (e.g., '@')
    At,
    /// Left arrow token (e.g., '<-')
    LeftArrow,
    /// Right arrow token (e.g., '->')
    RightArrow,
    /// macro expansion token (eg. #name_9_)
    ComplexMacroExpansionToken,
    /// macro expansion token only single number(eg. #1,)
    SimpleMacroExpansionToken,
    /// Raw delimiter Token (eg. '#>>')
    RawDelimiter,
    /// Math delimiter token (e.g., '$')
    MathDelimiter,
    /// ROOT token
    ROOT,
    /// PREAMBLE token
    PREAMBLE,
    /// DOCUMENT token
    DOCUMENT,
    /// CODE mode token
    CODE,
    /// TEXT mode token
    TEXT,
    /// MATH mode token
    MATH,
    /// BLOCK grouping token (e.g., '{...}')
    BLOCK,
    /// OPTIONBLOCK grouping token (e.g., '[...]')
    OPTIONBLOCK,
    /// The modul or package identifier in between '::'
    Namespace,
    /// module path seperator
    PathSeperator,
    /// Function declaration
    FunctionIdent,
    /// Module Declaration
    Module,
    /// Visibility statement
    Pub,
    /// Variable declaration
    Let,
    /// Variable (`\\@name`)
    Variable,
    /// Usage declaration, eg. `\\use ::a::b`
    Use,
    /// `\\pub` or `\\pub(crate)`
    Scope,
    /// Head of a definition (`\\def`)
    Def,
    /// Head of a macro definition (`\\newcommand`)
    NewCommand,
    /// Head of an environment definition (`\\newenvironment`)
    NewEnv,
    /// `\\usepackage`
    UsePackage,
    /// `\\input`
    Input,
    /// BeginGroup token (e.g., '\begin')
    BeginGroup,
    /// EndGroup token (e.g., '\end')
    EndGroup,
    /// DocClass token (e.g., '\usepackage')
    DocClass,
    /// FileInput token (e.g., '\import', '\include', '\input')
    FileInput,
    /// End-of-file token
    Eof,
    /// Error token
    Error,
}

impl SyntaxKind {
    /// Whether the resolver of definitions passes over a token of this kind.
    #[verifier::allow_in_spec]
    pub fn is_resolver_trivia(&self) -> bool
        returns
            (*self == SyntaxKind::Whitespace || *self == SyntaxKind::Newline || *self
                == SyntaxKind::Comment || *self == SyntaxKind::AComment || *self
                == SyntaxKind::Break),
    {
        match self {
            SyntaxKind::Whitespace
            | SyntaxKind::Newline
            | SyntaxKind::Comment
            | SyntaxKind::AComment
            | SyntaxKind::Break => true,
            _ => false,
        }
    }

    /// Whether a token of this kind names a command, a function, a variable or a part of a
    /// path, or is one of the fixed commands.
    #[verifier::allow_in_spec]
    pub fn is_special(&self) -> bool
        returns
            (*self == SyntaxKind::Command || *self == SyntaxKind::Function || *self
                == SyntaxKind::Namespace || *self == SyntaxKind::PathSeperator || *self
                == SyntaxKind::FunctionIdent || *self == SyntaxKind::Module || *self
                == SyntaxKind::Variable || *self == SyntaxKind::Use || *self
                == SyntaxKind::BeginGroup || *self == SyntaxKind::EndGroup || *self
                == SyntaxKind::DocClass || *self == SyntaxKind::FileInput),
    {
        match self {
            SyntaxKind::Command
            | SyntaxKind::Function
            | SyntaxKind::Namespace
            | SyntaxKind::PathSeperator
            | SyntaxKind::FunctionIdent
            | SyntaxKind::Module
            | SyntaxKind::Variable
            | SyntaxKind::Use
            | SyntaxKind::BeginGroup
            | SyntaxKind::EndGroup
            | SyntaxKind::DocClass
            | SyntaxKind::FileInput => true,
            _ => false,
        }
    }
}

/// Tokens that carry no meaning of their own.
pub trait Trivia {
    spec fn trivia(&self) -> bool;

    fn is_trivia(&self) -> (b: bool)
        ensures
            b == self.trivia(),
    ;
}

impl Trivia for SyntaxKind {
    open spec fn trivia(&self) -> bool {
        *self == SyntaxKind::Whitespace || *self == SyntaxKind::Newline || *self
            == SyntaxKind::Comment
    }

    fn is_trivia(&self) -> (b: bool) {
        match self {
            SyntaxKind::Whitespace | SyntaxKind::Newline | SyntaxKind::Comment => true,
            _ => false,
        }
    }
}

impl Trivia for TokenKind {
    open spec fn trivia(&self) -> bool {
        *self == TokenKind::Whitespace || *self == TokenKind::Newline || *self
            == TokenKind::Comment || *self == TokenKind::AComment
    }

    fn is_trivia(&self) -> (b: bool) {
        match self {
            TokenKind::Whitespace
            | TokenKind::Newline
            | TokenKind::Comment
            | TokenKind::AComment => true,
            _ => false,
        }
    }
}

} // verus!
