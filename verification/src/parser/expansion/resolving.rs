//! The rules of the resolver: how a definition is read, token by token.

use super::errors::{ResolverError, ResolverErrorKind, ResolverResult};
use super::resexp_parser::OptionalKind;
use super::resolver::{outcome, Res, Resolver};
use crate::parser::preparse::lexed_str::Lexed;
use crate::parser::utils::utils::Marker;
use crate::parser::SyntaxKind;
use vstd::prelude::*;

verus! {

impl Res {
    /// Whether the token behind the one that the walk looks at lets a name go on over an
    /// underscore.
    pub open spec fn is_allowed_in_name(self, l: Lexed) -> bool {
        let k = self.peek_second(l);
        k == SyntaxKind::AWord || k == SyntaxKind::Underscore || k == SyntaxKind::Number
    }

    /// Whether the token that the walk looks at goes on a name.
    pub open spec fn in_name(self, l: Lexed) -> bool {
        let k = self.peek(l);
        (k == SyntaxKind::Underscore && self.is_allowed_in_name(l)) || k == SyntaxKind::AWord || k
            == SyntaxKind::Number
    }

    /// The walk behind the tokens that go on a name.
    pub open spec fn name_rest(self, l: Lexed) -> Res
        decreases self.left(l),
        when l.tokens.len() <= usize::MAX
    {
        if self.in_name(l) {
            let a = self.advance(l);
            if a.failed() {
                a
            } else {
                a.name_rest(l)
            }
        } else {
            self
        }
    }

    /// Reads a name: an underscore or an ASCII word, and what goes on a name behind it.
    /// Where no name begins, the tokens from the mark `begin` on are reported.
    pub open spec fn match_name(self, l: Lexed, begin: int) -> Res {
        let k = self.peek(l);
        if k == SyntaxKind::Underscore || k == SyntaxKind::AWord {
            let a = self.advance(l);
            if a.failed() {
                a
            } else {
                a.name_rest(l)
            }
        } else {
            match l.text(begin, self.position(l)) {
                Some(_) => self.fail(
                    ResolverErrorKind::InvalidName { kind: k, name: self.range_from(l, begin) },
                ),
                None => self.fail(ResolverErrorKind::FailedToRetrieveText),
            }
        }
    }

    /// Reads the name of a command in braces.
    pub open spec fn cmd_name(self, l: Lexed) -> Res {
        let (opened, skip) = self.open_block(l, SyntaxKind::OpenBrace, OptionalKind::OptionalBlockIdent);
        if opened.failed() {
            opened
        } else {
            let at_name = opened.skip_trivia(l);
            let named = if at_name.at(l, SyntaxKind::Command) {
                let registered = at_name.register_cmd_name(l);
                if registered.failed() {
                    registered
                } else {
                    registered.advance(l)
                }
            } else {
                at_name
            };
            if named.failed() {
                named
            } else {
                named.close_block(l, SyntaxKind::CloseBrace, skip)
            }
        }
    }

    /// Reads the name of an environment in braces.
    pub open spec fn env_name(self, l: Lexed) -> Res {
        let (opened, skip) = self.open_block(l, SyntaxKind::OpenBrace, OptionalKind::Required);
        if opened.failed() {
            opened
        } else {
            let m = opened.position(l);
            let named = opened.skip_trivia(l).match_name(l, m);
            if named.failed() {
                named
            } else {
                let registered = named.register_env_name(l, m);
                if registered.failed() {
                    registered
                } else {
                    registered.close_block(l, SyntaxKind::CloseBrace, skip)
                }
            }
        }
    }

    /// Reads the count of arguments in brackets, which is 0 where there are no brackets.
    pub open spec fn args(self, l: Lexed) -> Res {
        let s = self.skip_trivia(l);
        if !(s.at(l, SyntaxKind::OpenBracket) || s.peek_second(l) == SyntaxKind::Number) {
            s.register_empty_arg_count()
        } else {
            let (opened, skip) = s.open_block(
                l,
                SyntaxKind::OpenBracket,
                OptionalKind::OptionalBlockIdent,
            );
            if opened.failed() {
                opened
            } else {
                let at_count = opened.skip_trivia(l);
                let counted = if at_count.at(l, SyntaxKind::Number) {
                    let registered = at_count.register_arg_count(l);
                    if registered.failed() {
                        registered
                    } else {
                        registered.advance(l)
                    }
                } else {
                    at_count
                };
                if counted.failed() {
                    counted
                } else {
                    counted.close_block(l, SyntaxKind::CloseBracket, skip)
                }
            }
        }
    }

    /// Reads the default value of an optional argument with a name, from its '=' to the
    /// comma or the bracket that ends it. `mark` is where the value begins.
    pub open spec fn named_value(self, l: Lexed, mark: int) -> Res
        decreases self.left(l),
        when l.tokens.len() <= usize::MAX
    {
        let k = self.peek(l);
        if k == SyntaxKind::CloseBracket {
            self.register_opt_named_arg(l, mark)
        } else if k == SyntaxKind::Comma {
            let registered = self.register_opt_named_arg(l, mark);
            if registered.failed() {
                registered
            } else {
                registered.advance(l)
            }
        } else if k == SyntaxKind::OpenBracket || k == SyntaxKind::OpenBrace || k
            == SyntaxKind::CloseBrace {
            self.fail(ResolverErrorKind::UnexpectedOpeningToken(k))
        } else {
            let a = self.advance(l);
            if a.failed() {
                a
            } else {
                a.named_value(l, mark)
            }
        }
    }

    /// Reads an optional argument with a name from behind its name on.
    pub open spec fn opt_named_arg(self, l: Lexed) -> Res {
        let at_equal = self.advance_to(l, SyntaxKind::Equal);
        if at_equal.failed() {
            at_equal
        } else {
            let behind = at_equal.advance(l);
            if behind.failed() {
                behind
            } else {
                behind.named_value(l, behind.position(l))
            }
        }
    }

    /// Reads the entries of the block of optional arguments. `mark` is where the entry
    /// that is read begins.
    pub open spec fn opt_entries(self, l: Lexed, mark: int) -> Res
        decreases self.left(l),
        when l.tokens.len() <= usize::MAX
    {
        let named = self.match_name(l, mark).cleared();
        let k = named.peek_skip_trivia(l);
        if k == SyntaxKind::CloseBracket {
            named.register_opt_arg(l, mark)
        } else {
            let (read, next_mark) = if k == SyntaxKind::Equal {
                (named.mark_opt_named_arg_name(l, mark).opt_named_arg(l), mark)
            } else if k == SyntaxKind::Comma {
                let a = named.register_opt_arg(l, mark).advance(l);
                (a, a.position(l))
            } else {
                (named.advance(l), mark)
            };
            if read.failed() || read.peek_skip_trivia(l) == SyntaxKind::CloseBracket {
                read
            } else if 0 <= read.left(l) < self.left(l) {
                read.opt_entries(l, next_mark)
            } else {
                read
            }
        }
    }

    /// Reads the block of optional arguments, if there is one.
    pub open spec fn opt_args(self, l: Lexed) -> Res {
        let (opened, skip) = self.open_block(l, SyntaxKind::OpenBracket, OptionalKind::OptionalBlock);
        if opened.failed() {
            opened
        } else if skip {
            opened.check_arg_count()
        } else {
            let read = opened.opt_entries(l, opened.position(l));
            if read.failed() {
                read
            } else {
                let closed = read.close_block(l, SyntaxKind::CloseBracket, skip);
                if closed.failed() {
                    closed
                } else {
                    closed.check_arg_count()
                }
            }
        }
    }

    /// Scans a body up to the brace that closes it, `level` braces deep, and records the
    /// tokens that refer to parameters.
    pub open spec fn body_scan(self, l: Lexed, level: nat) -> Res
        decreases self.left(l),
        when l.tokens.len() <= usize::MAX
    {
        let k = self.peek(l);
        if k == SyntaxKind::CloseBrace && level == 0 {
            self
        } else {
            let (seen, next_level) = if k == SyntaxKind::OpenBrace {
                (self, level + 1)
            } else if k == SyntaxKind::CloseBrace {
                (self, (level - 1) as nat)
            } else if k == SyntaxKind::SimpleMacroExpansionToken {
                (self.register_smpl_macro_token(l), level)
            } else if k == SyntaxKind::ComplexMacroExpansionToken {
                (self.register_complex_macro_token(l), level)
            } else {
                (self, level)
            };
            if seen.failed() {
                seen
            } else {
                let a = seen.advance(l);
                if a.failed() {
                    a
                } else {
                    a.body_scan(l, next_level)
                }
            }
        }
    }

    /// Reads a body in braces; `first_body` says whether it is the first of the definition.
    pub open spec fn body(self, l: Lexed, first_body: bool) -> Res {
        let (opened, skip) = self.open_block(l, SyntaxKind::OpenBrace, OptionalKind::Required);
        if opened.failed() {
            opened
        } else {
            let m = opened.position(l);
            let scanned = opened.body_scan(l, 0);
            if scanned.failed() {
                scanned
            } else {
                let registered = if first_body {
                    scanned.register_body(l, m)
                } else {
                    scanned.register_second_body(l, m)
                };
                registered.close_block(l, SyntaxKind::CloseBrace, skip)
            }
        }
    }

    /// Reads the definition of a command: its name, the count of its arguments, its
    /// optional arguments and its body.
    pub open spec fn new_command(self, l: Lexed) -> Res {
        let named = self.cmd_name(l);
        if named.failed() {
            named
        } else {
            let counted = named.args(l);
            if counted.failed() {
                counted
            } else {
                let optional = counted.opt_args(l);
                if optional.failed() {
                    optional
                } else {
                    optional.body(l, true)
                }
            }
        }
    }

    /// Reads the definition of an environment: its name, the count of its arguments, its
    /// optional arguments and its two bodies.
    pub open spec fn new_environment(self, l: Lexed) -> Res {
        let named = self.env_name(l);
        if named.failed() {
            named
        } else {
            let counted = named.args(l);
            if counted.failed() {
                counted
            } else {
                let optional = counted.opt_args(l);
                if optional.failed() {
                    optional
                } else {
                    let first = optional.body(l, true);
                    if first.failed() {
                        first
                    } else {
                        first.body(l, false)
                    }
                }
            }
        }
    }

    /// A `\def` is read as the definition of a command.
    pub open spec fn def(self, l: Lexed) -> Res {
        self.new_command(l)
    }
}

/// The scan of a body leaves the arguments as they are.
pub proof fn lemma_body_scan_keeps_args(s: Res, l: Lexed, level: nat)
    requires
        l.tokens.len() <= usize::MAX,
    ensures
        s.body_scan(l, level).item.args == s.item.args,
    decreases s.left(l),
{
    let k = s.peek(l);
    if !(k == SyntaxKind::CloseBrace && level == 0) {
        let (seen, next_level) = if k == SyntaxKind::OpenBrace {
            (s, level + 1)
        } else if k == SyntaxKind::CloseBrace {
            (s, (level - 1) as nat)
        } else if k == SyntaxKind::SimpleMacroExpansionToken {
            (s.register_smpl_macro_token(l), level)
        } else if k == SyntaxKind::ComplexMacroExpansionToken {
            (s.register_complex_macro_token(l), level)
        } else {
            (s, level)
        };
        if !seen.failed() {
            let a = seen.advance(l);
            if !a.failed() {
                lemma_body_scan_keeps_args(a, l, next_level);
            }
        }
    }
}

/// Reading a body leaves the arguments as they are.
pub proof fn lemma_body_keeps_args(s: Res, l: Lexed, first_body: bool)
    requires
        l.tokens.len() <= usize::MAX,
    ensures
        s.body(l, first_body).item.args == s.item.args,
{
    let (opened, skip) = s.open_block(l, SyntaxKind::OpenBrace, OptionalKind::Required);
    if !opened.failed() {
        lemma_body_scan_keeps_args(opened, l, 0);
    }
}

/// A definition that is resolved has no more optional arguments without a name than its
/// count of arguments allows: the number of its required arguments is not negative.
pub proof fn lemma_argument_count(s: Res, l: Lexed)
    requires
        l.tokens.len() <= usize::MAX,
    ensures
        !s.resolve(l).failed() ==> s.resolve(l).item.args.wf(),
{
    let named = if s.item.kind == crate::parser::preparse::DefinitionKind::Environment {
        s.env_name(l)
    } else {
        s.cmd_name(l)
    };
    if !named.failed() {
        let counted = named.args(l);
        if !counted.failed() {
            let optional = counted.opt_args(l);
            if !optional.failed() {
                assert(optional.item.args.wf());
                lemma_body_keeps_args(optional, l, true);
                let first = optional.body(l, true);
                if !first.failed() {
                    lemma_body_keeps_args(first, l, false);
                }
            }
        }
    }
}

/// Whether two classified texts have the same tokens at the same offsets of the same text.
pub open spec fn same_input(a: Lexed, b: Lexed) -> bool {
    &&& a.tokens == b.tokens
    &&& a.start == b.start
    &&& a.src == b.src
    &&& a.tokens.len() <= usize::MAX
}

/// On the same input the rest of a name is read alike.
pub proof fn lemma_name_rest_same(s: Res, a: Lexed, b: Lexed)
    requires
        same_input(a, b),
    ensures
        s.name_rest(a) == s.name_rest(b),
    decreases s.left(a),
{
    if s.in_name(a) {
        let next = s.advance(a);
        if !next.failed() {
            lemma_name_rest_same(next, a, b);
        }
    }
}

/// On the same input a name is read alike.
pub proof fn lemma_match_name_same(s: Res, a: Lexed, b: Lexed, begin: int)
    requires
        same_input(a, b),
    ensures
        s.match_name(a, begin) == s.match_name(b, begin),
{
    let next = s.advance(a);
    if !next.failed() {
        lemma_name_rest_same(next, a, b);
    }
}

/// On the same input the default value of a named argument is read alike.
pub proof fn lemma_named_value_same(s: Res, a: Lexed, b: Lexed, mark: int)
    requires
        same_input(a, b),
    ensures
        s.named_value(a, mark) == s.named_value(b, mark),
    decreases s.left(a),
{
    let k = s.peek(a);
    if k == SyntaxKind::CloseBracket || k == SyntaxKind::Comma || k == SyntaxKind::OpenBracket || k
        == SyntaxKind::OpenBrace || k == SyntaxKind::CloseBrace {
    } else {
        let next = s.advance(a);
        if !next.failed() {
            lemma_named_value_same(next, a, b, mark);
        }
    }
}

/// On the same input a named argument is read alike.
pub proof fn lemma_opt_named_arg_same(s: Res, a: Lexed, b: Lexed)
    requires
        same_input(a, b),
    ensures
        s.opt_named_arg(a) == s.opt_named_arg(b),
{
    let at_equal = s.advance_to(a, SyntaxKind::Equal);
    if !at_equal.failed() {
        let behind = at_equal.advance(a);
        if !behind.failed() {
            lemma_named_value_same(behind, a, b, behind.position(a));
        }
    }
}

/// On the same input the entries of the optional arguments are read alike.
pub proof fn lemma_opt_entries_same(s: Res, a: Lexed, b: Lexed, mark: int)
    requires
        same_input(a, b),
    ensures
        s.opt_entries(a, mark) == s.opt_entries(b, mark),
    decreases s.left(a),
{
    lemma_match_name_same(s, a, b, mark);
    let named = s.match_name(a, mark).cleared();
    let k = named.peek_skip_trivia(a);
    if k != SyntaxKind::CloseBracket {
        let (read, next_mark) = if k == SyntaxKind::Equal {
            lemma_opt_named_arg_same(named.mark_opt_named_arg_name(a, mark), a, b);
            (named.mark_opt_named_arg_name(a, mark).opt_named_arg(a), mark)
        } else if k == SyntaxKind::Comma {
            let moved = named.register_opt_arg(a, mark).advance(a);
            (moved, moved.position(a))
        } else {
            (named.advance(a), mark)
        };
        if !(read.failed() || read.peek_skip_trivia(a) == SyntaxKind::CloseBracket) {
            if 0 <= read.left(a) < s.left(a) {
                lemma_opt_entries_same(read, a, b, next_mark);
            }
        }
    }
}

/// On the same input a body is scanned alike.
pub proof fn lemma_body_scan_same(s: Res, a: Lexed, b: Lexed, level: nat)
    requires
        same_input(a, b),
    ensures
        s.body_scan(a, level) == s.body_scan(b, level),
    decreases s.left(a),
{
    let k = s.peek(a);
    if !(k == SyntaxKind::CloseBrace && level == 0) {
        let (seen, next_level) = if k == SyntaxKind::OpenBrace {
            (s, level + 1)
        } else if k == SyntaxKind::CloseBrace {
            (s, (level - 1) as nat)
        } else if k == SyntaxKind::SimpleMacroExpansionToken {
            (s.register_smpl_macro_token(a), level)
        } else if k == SyntaxKind::ComplexMacroExpansionToken {
            (s.register_complex_macro_token(a), level)
        } else {
            (s, level)
        };
        if !seen.failed() {
            let next = seen.advance(a);
            if !next.failed() {
                lemma_body_scan_same(next, a, b, next_level);
            }
        }
    }
}

/// On the same input a body is read alike.
pub proof fn lemma_body_same(s: Res, a: Lexed, b: Lexed, first_body: bool)
    requires
        same_input(a, b),
    ensures
        s.body(a, first_body) == s.body(b, first_body),
{
    let (opened, skip) = s.open_block(a, SyntaxKind::OpenBrace, OptionalKind::Required);
    if !opened.failed() {
        lemma_body_scan_same(opened, a, b, 0);
    }
}

/// On the same input the name of a command is read alike.
pub proof fn lemma_cmd_name_same(s: Res, a: Lexed, b: Lexed)
    requires
        same_input(a, b),
    ensures
        s.cmd_name(a) == s.cmd_name(b),
{
}

/// On the same input the name of an environment is read alike.
pub proof fn lemma_env_name_same(s: Res, a: Lexed, b: Lexed)
    requires
        same_input(a, b),
    ensures
        s.env_name(a) == s.env_name(b),
{
    let (opened, skip) = s.open_block(a, SyntaxKind::OpenBrace, OptionalKind::Required);
    if !opened.failed() {
        lemma_match_name_same(opened.skip_trivia(a), a, b, opened.position(a));
    }
}

/// On the same input the count of arguments is read alike.
pub proof fn lemma_args_same(s: Res, a: Lexed, b: Lexed)
    requires
        same_input(a, b),
    ensures
        s.args(a) == s.args(b),
{
}

/// On the same input the optional arguments are read alike.
pub proof fn lemma_opt_args_same(s: Res, a: Lexed, b: Lexed)
    requires
        same_input(a, b),
    ensures
        s.opt_args(a) == s.opt_args(b),
{
    let (opened, skip) = s.open_block(a, SyntaxKind::OpenBracket, OptionalKind::OptionalBlock);
    if !opened.failed() && !skip {
        lemma_opt_entries_same(opened, a, b, opened.position(a));
    }
}

/// On the same input what follows the name of a definition is read alike.
pub proof fn lemma_tail_same(named: Res, a: Lexed, b: Lexed)
    requires
        same_input(a, b),
    ensures
        named.args(a) == named.args(b),
        !named.args(a).failed() ==> named.args(a).opt_args(a) == named.args(b).opt_args(b),
        !named.args(a).failed() && !named.args(a).opt_args(a).failed() ==> {
            let optional = named.args(a).opt_args(a);
            &&& optional.body(a, true) == optional.body(b, true)
            &&& (!optional.body(a, true).failed() ==> optional.body(a, true).body(a, false)
                == optional.body(b, true).body(b, false))
        },
{
    lemma_args_same(named, a, b);
    let counted = named.args(a);
    if !counted.failed() {
        lemma_opt_args_same(counted, a, b);
        let optional = counted.opt_args(a);
        if !optional.failed() {
            lemma_body_same(optional, a, b, true);
            let first = optional.body(a, true);
            if !first.failed() {
                lemma_body_same(first, a, b, false);
            }
        }
    }
}

/// The resolution of a definition is a function of the tokens, their offsets and the
/// text: whatever else two classified texts hold, on the same input a definition is read
/// alike.
pub proof fn lemma_resolve_same(s: Res, a: Lexed, b: Lexed)
    requires
        same_input(a, b),
    ensures
        s.resolve(a) == s.resolve(b),
{
    lemma_cmd_name_same(s, a, b);
    lemma_env_name_same(s, a, b);
    lemma_tail_same(s.cmd_name(a), a, b);
    lemma_tail_same(s.env_name(a), a, b);
}

pub fn def(r: &mut Resolver) -> (res: ResolverResult)
    requires
        old(r).wf(),
    ensures
        final(r).wf(),
        final(r).follows(old(r)),
        outcome(final(r)@, res) == old(r)@.def(old(r).lexed()),
        res is Ok ==> final(r)@.item.args.wf(),
{
    new_command(r)
}

pub fn new_environment(r: &mut Resolver) -> (res: ResolverResult)
    requires
        old(r).wf(),
    ensures
        final(r).wf(),
        final(r).follows(old(r)),
        outcome(final(r)@, res) == old(r)@.new_environment(old(r).lexed()),
        res is Ok ==> final(r)@.item.args.wf(),
{
    match env_name(r) {
        Ok(_) => {},
        Err(e) => {
            return Err(e);
        },
    }
    match args(r) {
        Ok(_) => {},
        Err(e) => {
            return Err(e);
        },
    }
    match opt_args(r) {
        Ok(_) => {},
        Err(e) => {
            return Err(e);
        },
    }
    match body(r, true) {
        Ok(_) => {},
        Err(e) => {
            return Err(e);
        },
    }
    body(r, false)
}

pub fn new_command(r: &mut Resolver) -> (res: ResolverResult)
    requires
        old(r).wf(),
    ensures
        final(r).wf(),
        final(r).follows(old(r)),
        outcome(final(r)@, res) == old(r)@.new_command(old(r).lexed()),
        res is Ok ==> final(r)@.item.args.wf(),
{
    match cmd_name(r) {
        Ok(_) => {},
        Err(e) => {
            return Err(e);
        },
    }
    match args(r) {
        Ok(_) => {},
        Err(e) => {
            return Err(e);
        },
    }
    match opt_args(r) {
        Ok(_) => {},
        Err(e) => {
            return Err(e);
        },
    }
    body(r, true)
}

fn cmd_name(r: &mut Resolver) -> (res: ResolverResult)
    requires
        old(r).wf(),
    ensures
        final(r).wf(),
        final(r).follows(old(r)),
        outcome(final(r)@, res) == old(r)@.cmd_name(old(r).lexed()),
{
    let skip = match r.open_brace(OptionalKind::OptionalBlockIdent) {
        Ok(skip) => skip,
        Err(e) => {
            return Err(e);
        },
    };
    r.skip_trivia();
    if r.at(SyntaxKind::Command) {
        match r.register_cmd_name() {
            Ok(_) => {},
            Err(e) => {
                return Err(e);
            },
        }
        match r.advance() {
            Ok(_) => {},
            Err(e) => {
                return Err(e);
            },
        }
    }
    r.close_brace(skip)
}

fn env_name(r: &mut Resolver) -> (res: ResolverResult)
    requires
        old(r).wf(),
    ensures
        final(r).wf(),
        final(r).follows(old(r)),
        outcome(final(r)@, res) == old(r)@.env_name(old(r).lexed()),
{
    let skip = match r.open_brace(OptionalKind::Required) {
        Ok(skip) => skip,
        Err(e) => {
            return Err(e);
        },
    };
    let m = r.mark();
    r.skip_trivia();
    match match_name(r, m) {
        Ok(_) => {},
        Err(e) => {
            return Err(e);
        },
    }
    match r.register_env_name(m) {
        Ok(_) => {},
        Err(e) => {
            return Err(e);
        },
    }
    r.close_brace(skip)
}

fn args(r: &mut Resolver) -> (res: ResolverResult)
    requires
        old(r).wf(),
    ensures
        final(r).wf(),
        final(r).follows(old(r)),
        outcome(final(r)@, res) == old(r)@.args(old(r).lexed()),
{
    r.skip_trivia();
    if !(r.at(SyntaxKind::OpenBracket) || r.at_peek(SyntaxKind::Number)) {
        r.register_empty_arg_count();
        return Ok(());
    }
    let skip = match r.open_bracket(OptionalKind::OptionalBlockIdent) {
        Ok(skip) => skip,
        Err(e) => {
            return Err(e);
        },
    };
    r.skip_trivia();
    if r.at(SyntaxKind::Number) {
        match r.register_arg_count() {
            Ok(_) => {},
            Err(e) => {
                return Err(e);
            },
        }
        match r.advance() {
            Ok(_) => {},
            Err(e) => {
                return Err(e);
            },
        }
    }
    r.close_bracket(skip)
}

#[verifier::loop_isolation(false)]
fn opt_args(r: &mut Resolver) -> (res: ResolverResult)
    requires
        old(r).wf(),
    ensures
        final(r).wf(),
        final(r).follows(old(r)),
        outcome(final(r)@, res) == old(r)@.opt_args(old(r).lexed()),
        res is Ok ==> final(r)@.item.args.wf(),
{
    let skip = match r.open_bracket(OptionalKind::OptionalBlock) {
        Ok(skip) => skip,
        Err(e) => {
            return Err(e);
        },
    };
    if skip {
        return r.check_arg_count();
    }
    let ghost l = r.lexed();
    let ghost opened = r@;
    let mut m = r.mark();
    loop
        invariant
            outcome(r@, Ok::<(), ResolverErrorKind>(())).opt_entries(l, m.index() as int)
                == opened.opt_entries(l, opened.position(l)),
            r.wf(),
            r.follows(old(r)),
            l == r.lexed(),
            l == old(r).lexed(),
        decreases r@.left(l),
    {
        let ghost before = r@;
        let _ = match_name(r, m);
        match r.peek_skip_trivia() {
            SyntaxKind::CloseBracket => {
                let _ = r.register_opt_arg(m);
                break ;
            },
            SyntaxKind::Equal => {
                r.mark_opt_named_arg_name(m);
                match opt_named_arg(r) {
                    Ok(_) => {},
                    Err(e) => {
                        return Err(e);
                    },
                }
            },
            SyntaxKind::Comma => {
                let _ = r.register_opt_arg(m);
                match r.advance() {
                    Ok(_) => {},
                    Err(e) => {
                        return Err(e);
                    },
                }
                m = r.mark();
            },
            _ => {
                match r.advance() {
                    Ok(_) => {},
                    Err(e) => {
                        return Err(e);
                    },
                }
            },
        }
        if r.peek_skip_trivia() == SyntaxKind::CloseBracket {
            break ;
        }
    }
    match r.close_bracket(skip) {
        Ok(_) => {},
        Err(e) => {
            return Err(e);
        },
    }
    r.check_arg_count()
}

#[verifier::loop_isolation(false)]
fn match_name(r: &mut Resolver, begin: Marker) -> (res: ResolverResult)
    requires
        old(r).wf(),
    ensures
        final(r).wf(),
        final(r).follows(old(r)),
        final(r)@.item == old(r)@.item,
        outcome(final(r)@, res) == old(r)@.match_name(old(r).lexed(), begin.index() as int),
{
    let kind = r.peek();
    if kind == SyntaxKind::Underscore || kind == SyntaxKind::AWord {
        match r.advance() {
            Ok(_) => {},
            Err(e) => {
                return Err(e);
            },
        }
    } else {
        let range = r.range_from_mark(begin);
        return match r.text(range.start, range.end) {
            Ok(_) => Err(ResolverErrorKind::InvalidName { name: range, kind }),
            Err(e) => Err(e),
        };
    }
    let ghost l = r.lexed();
    let ghost begun = r@;
    loop
        invariant
            r@.name_rest(l) == begun.name_rest(l),
            r.wf(),
            r.follows(old(r)),
            r@.item == old(r)@.item,
            r@.option_name == old(r)@.option_name,
            l == r.lexed(),
            l == old(r).lexed(),
        decreases r@.left(l),
    {
        let kind = r.peek();
        if (kind == SyntaxKind::Underscore && is_allowed_in_name(r)) || kind == SyntaxKind::AWord
            || kind == SyntaxKind::Number {
            match r.advance() {
                Ok(_) => {},
                Err(e) => {
                    return Err(e);
                },
            }
        } else {
            break ;
        }
    }
    Ok(())
}

#[verifier::loop_isolation(false)]
fn opt_named_arg(r: &mut Resolver) -> (res: ResolverResult)
    requires
        old(r).wf(),
        old(r)@.option_name is Some,
    ensures
        final(r).wf(),
        final(r).follows(old(r)),
        outcome(final(r)@, res) == old(r)@.opt_named_arg(old(r).lexed()),
        res is Ok ==> final(r)@.left(final(r).lexed()) < old(r)@.left(old(r).lexed()),
{
    match r.advance_to(SyntaxKind::Equal) {
        Ok(_) => {},
        Err(e) => {
            return Err(e);
        },
    }
    match r.advance() {
        Ok(_) => {},
        Err(e) => {
            return Err(e);
        },
    }
    let m = r.mark();
    let ghost l = r.lexed();
    let ghost begun = r@;
    loop
        invariant
            r.wf(),
            r.follows(old(r)),
            r@.option_name is Some,
            l == r.lexed(),
            l == old(r).lexed(),
            r@.left(l) < old(r)@.left(l),
            r@.named_value(l, m.index() as int) == begun.named_value(l, m.index() as int),
        decreases r@.left(l),
    {
        let kind = r.peek();
        if kind == SyntaxKind::CloseBracket {
            return r.register_opt_named_arg(m);
        } else if kind == SyntaxKind::Comma {
            match r.register_opt_named_arg(m) {
                Ok(_) => {},
                Err(e) => {
                    return Err(e);
                },
            }
            return r.advance();
        } else if kind == SyntaxKind::OpenBracket || kind == SyntaxKind::OpenBrace || kind
            == SyntaxKind::CloseBrace {
            return Err(ResolverErrorKind::UnexpectedOpeningToken(kind));
        } else {
            match r.advance() {
                Ok(_) => {},
                Err(e) => {
                    return Err(e);
                },
            }
        }
    }
}

/// Reads the body of a definition and collects the tokens in it that refer to
/// parameters.
#[verifier::loop_isolation(false)]
fn body(r: &mut Resolver, first_body: bool) -> (res: ResolverResult)
    requires
        old(r).wf(),
    ensures
        final(r).wf(),
        final(r).follows(old(r)),
        final(r)@.item.args == old(r)@.item.args,
        outcome(final(r)@, res) == old(r)@.body(old(r).lexed(), first_body),
{
    let skip = match r.open_brace(OptionalKind::Required) {
        Ok(skip) => skip,
        Err(e) => {
            return Err(e);
        },
    };
    let m = r.mark();
    let ghost l = r.lexed();
    let ghost opened = r@;
    let mut brace_level: usize = 0;
    loop
        invariant
            r@.body_scan(l, brace_level as nat) == opened.body_scan(l, 0),
            r.wf(),
            r.follows(old(r)),
            r@.item.args == old(r)@.item.args,
            l == r.lexed(),
            l == old(r).lexed(),
            brace_level + r@.left(l) <= l.tokens.len(),
        decreases r@.left(l),
    {
        let kind = r.peek();
        if kind == SyntaxKind::CloseBrace && brace_level == 0 {
            break ;
        } else if kind == SyntaxKind::OpenBrace {
            brace_level += 1;
        } else if kind == SyntaxKind::CloseBrace {
            brace_level -= 1;
        } else if kind == SyntaxKind::SimpleMacroExpansionToken {
            match r.register_smpl_macro_token() {
                Ok(_) => {},
                Err(e) => {
                    return Err(e);
                },
            }
        } else if kind == SyntaxKind::ComplexMacroExpansionToken {
            match r.register_complex_macro_token() {
                Ok(_) => {},
                Err(e) => {
                    return Err(e);
                },
            }
        }
        match r.advance() {
            Ok(_) => {},
            Err(e) => {
                return Err(e);
            },
        }
    }
    if first_body {
        r.register_body(m);
    } else {
        r.register_second_body(m);
    }
    r.close_brace(skip)
}

fn is_allowed_in_name(r: &Resolver) -> (b: bool)
    requires
        r.wf(),
    ensures
        b == r@.is_allowed_in_name(r.lexed()),
{
    let k = r.peek_second();
    k == SyntaxKind::AWord || k == SyntaxKind::Underscore || k == SyntaxKind::Number
}

} // verus!
