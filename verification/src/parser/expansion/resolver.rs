//! The resolver of definitions: what it holds while it reads a definition, and the steps
//! that record what was read.

use super::errors::{ResolverError, ResolverErrorKind, ResolverResult};
use super::resexp_parser::{
    behind_marker, expected, first_solid, number_at, skip_marker, OptionalKind, ResExpParser,
};
use crate::parser::preparse::lexed_str::{handed, left, peek_at, position, skip, stepped, Skip};
use super::resolving::{def, new_command, new_environment};
use super::store::{
    default_entries, defaults_insert, names_at, positions_at, push_named_position, push_position,
    ArgsView, ExpansionStore, ExpansionStoreItem, ItemView, StoreView,
};
use crate::parser::preparse::lexed_str::Lexed;
use crate::parser::preparse::{Definition, DefinitionKind, LexedStr, LexerIter};
use crate::parser::utils::utils::Marker;
use crate::parser::SyntaxKind;
use itertools::Itertools;
use std::ops::Range;
use vstd::prelude::*;

verus! {

/// What the resolver holds while it reads a definition: the index of its walk, what it
/// has found of the definition, the tokens of the name of the optional argument that it
/// is reading, and the failure that stopped it.
pub struct Res {
    pub index: Option<usize>,
    pub item: ItemView,
    pub option_name: Option<Range<usize>>,
    pub error: Option<ResolverErrorKind>,
}

/// The state `s` with the failure of `r`, if it is one.
pub open spec fn outcome(s: Res, r: ResolverResult) -> Res {
    match r {
        Ok(_) => Res { error: None, ..s },
        Err(e) => Res { error: Some(e), ..s },
    }
}

impl Res {
    /// The resolver at the head token of the definition `def`, nothing found yet.
    pub open spec fn start(def: Definition) -> Res {
        Res {
            index: Some(def.idx),
            item: ItemView::empty(def.kind),
            option_name: None,
            error: None,
        }
    }

    pub open spec fn failed(self) -> bool {
        self.error is Some
    }

    pub open spec fn fail(self, e: ResolverErrorKind) -> Res {
        Res { error: Some(e), ..self }
    }

    /// The state without its failure.
    pub open spec fn cleared(self) -> Res {
        Res { error: None, ..self }
    }

    pub open spec fn with_item(self, item: ItemView) -> Res {
        Res { item, ..self }
    }

    pub open spec fn left(self, l: Lexed) -> int {
        left(l.tokens, self.index)
    }

    /// The kind of the token that the walk looks at.
    pub open spec fn peek(self, l: Lexed) -> SyntaxKind {
        peek_at(l.tokens, self.index, 1)
    }

    pub open spec fn peek_second(self, l: Lexed) -> SyntaxKind {
        peek_at(l.tokens, self.index, 2)
    }

    pub open spec fn peek_skip_trivia(self, l: Lexed) -> SyntaxKind {
        first_solid(l.tokens, self.index, 1)
    }

    pub open spec fn at(self, l: Lexed, kind: SyntaxKind) -> bool {
        self.peek(l) == kind
    }

    /// The index of the token that the walk looks at.
    pub open spec fn position(self, l: Lexed) -> int {
        position(l.tokens, self.index)
    }

    /// One step of the walk; a failure at the closing token.
    pub open spec fn advance(self, l: Lexed) -> Res {
        let moved = Res { index: stepped(l.tokens, self.index), ..self };
        if handed(l.tokens, self.index) is Some {
            moved
        } else {
            moved.fail(ResolverErrorKind::EofReached)
        }
    }

    pub open spec fn skip_trivia(self, l: Lexed) -> Res {
        Res { index: skip(l.tokens, self.index, Skip::Trivia), ..self }
    }

    pub open spec fn advance_to(self, l: Lexed, kind: SyntaxKind) -> Res {
        let moved = Res { index: skip(l.tokens, self.index, Skip::Until(kind)), ..self };
        if moved.peek(l) != SyntaxKind::Eof {
            moved
        } else {
            moved.fail(ResolverErrorKind::EofReached)
        }
    }

    pub open spec fn expect(self, l: Lexed, kind: SyntaxKind, optional: bool) -> Res {
        let (index, r) = expected(l.tokens, self.index, kind, optional);
        outcome(Res { index, ..self }, r)
    }

    /// The tokens from the mark `mark` to the one that the walk looks at.
    pub open spec fn range_from(self, l: Lexed, mark: int) -> Range<usize> {
        (mark as usize)..(self.position(l) as usize)
    }

    /// Looks for the opening token `open` of a block. The flag says whether the closing
    /// token is to be taken without a look at it.
    pub open spec fn open_block(self, l: Lexed, open: SyntaxKind, optional: OptionalKind) -> (
        Res,
        bool,
    ) {
        let s = self.skip_trivia(l);
        if optional == OptionalKind::OptionalBlock && !s.at(l, open) {
            (s, true)
        } else {
            let opt = optional == OptionalKind::OptionalBlockIdent;
            (s.expect(l, open, opt), opt)
        }
    }

    pub open spec fn close_block(self, l: Lexed, close: SyntaxKind, skip: bool) -> Res {
        self.skip_trivia(l).expect(l, close, skip)
    }

    /// The name of the command is the text of the token that the walk looks at.
    pub open spec fn register_cmd_name(self, l: Lexed) -> Res {
        match l.text(self.position(l), self.position(l) + 1) {
            Some(name) => self.with_item(ItemView { name, ..self.item }),
            None => self.fail(ResolverErrorKind::FailedToRetrieveText),
        }
    }

    /// The name of the environment is the text from the mark on.
    pub open spec fn register_env_name(self, l: Lexed, mark: int) -> Res {
        match l.text(mark, self.position(l)) {
            Some(name) => self.with_item(ItemView { name, ..self.item }),
            None => self.fail(ResolverErrorKind::FailedToRetrieveText),
        }
    }

    pub open spec fn with_arg_count(self, arg_count: u16) -> Res {
        self.with_item(ItemView { args: ArgsView { arg_count, ..self.item.args }, ..self.item })
    }

    pub open spec fn register_empty_arg_count(self) -> Res {
        self.with_arg_count(0)
    }

    /// The count of arguments is the number that the token that the walk looks at spells.
    pub open spec fn register_arg_count(self, l: Lexed) -> Res {
        match number_at(l, self.position(l), self.position(l) + 1, false) {
            Ok(n) => self.with_arg_count(n),
            Err(e) => self.fail(e),
        }
    }

    /// The tokens from the mark on are the default value of one more optional argument
    /// without a name.
    pub open spec fn register_opt_arg(self, l: Lexed, mark: int) -> Res {
        self.with_item(
            ItemView {
                args: ArgsView {
                    optional: self.item.args.optional.push(self.range_from(l, mark)),
                    ..self.item.args
                },
                ..self.item
            },
        )
    }

    /// The tokens from the mark on are the name of the optional argument that is read.
    pub open spec fn mark_opt_named_arg_name(self, l: Lexed, mark: int) -> Res {
        Res { option_name: Some(self.range_from(l, mark)), ..self }
    }

    /// The tokens from the mark on are the default value of the optional argument whose
    /// name was marked.
    pub open spec fn register_opt_named_arg(self, l: Lexed, mark: int) -> Res {
        let range = self.range_from(l, mark);
        let taken = Res { option_name: None, ..self };
        match self.option_name {
            Some(name) => match l.text(name.start as int, name.end as int) {
                Some(key) => taken.with_item(
                    ItemView {
                        args: ArgsView {
                            optional_named: self.item.args.optional_named.insert(key, range),
                            ..self.item.args
                        },
                        ..self.item
                    },
                ),
                None => taken.fail(ResolverErrorKind::FailedToRetrieveText),
            },
            None => taken.fail(ResolverErrorKind::FailedToRetrieveText),
        }
    }

    /// The token that the walk looks at refers to the parameter whose number it spells
    /// behind its '#'.
    pub open spec fn register_smpl_macro_token(self, l: Lexed) -> Res {
        let idx = self.position(l);
        match number_at(l, idx, idx + 1, true) {
            Ok(key) => self.with_item(
                ItemView {
                    req_expansion: self.item.req_expansion.insert(
                        key,
                        positions_at(self.item.req_expansion, key).push(idx as usize),
                    ),
                    ..self.item
                },
            ),
            Err(e) => self.fail(e),
        }
    }

    /// The token that the walk looks at refers to the parameter whose name it spells
    /// behind its '#'.
    pub open spec fn register_complex_macro_token(self, l: Lexed) -> Res {
        let idx = self.position(l);
        match l.text(idx, idx + 1) {
            Some(text) => match behind_marker(text) {
                Some(key) => self.with_item(
                    ItemView {
                        opt_expansion: self.item.opt_expansion.insert(
                            key,
                            names_at(self.item.opt_expansion, key).push(idx as usize),
                        ),
                        ..self.item
                    },
                ),
                None => self.fail(ResolverErrorKind::FailedToRetrieveText),
            },
            None => self.fail(ResolverErrorKind::FailedToRetrieveText),
        }
    }

    pub open spec fn register_body(self, l: Lexed, mark: int) -> Res {
        self.with_item(ItemView { body: self.range_from(l, mark), ..self.item })
    }

    pub open spec fn register_second_body(self, l: Lexed, mark: int) -> Res {
        self.with_item(ItemView { second_body: Some(self.range_from(l, mark)), ..self.item })
    }

    /// More optional arguments without a name than the count of arguments allows are a
    /// failure.
    pub open spec fn check_arg_count(self) -> Res {
        if self.item.args.optional.len() > self.item.args.arg_count {
            self.fail(
                ResolverErrorKind::WrongArgumentCount {
                    expected: self.item.args.arg_count as usize,
                    found: self.item.args.optional.len() as usize,
                },
            )
        } else {
            self
        }
    }

    /// The definition read to its end, by the rules of its kind.
    pub open spec fn resolve(self, l: Lexed) -> Res {
        match self.item.kind {
            DefinitionKind::Macro => self.new_command(l),
            DefinitionKind::Environment => self.new_environment(l),
            DefinitionKind::Def => self.def(l),
        }
    }
}

/// What the resolution of a definition gives: what was found of it, or the failure.
pub enum Resolved {
    Item(ItemView),
    Failure(ResolverError),
}

/// The resolution of the definition `def` of the classified text `l`. It depends on
/// nothing but the tokens, their text and the definition.
pub open spec fn resolve_definition(l: Lexed, def: Definition) -> Resolved {
    let end = Res::start(def).resolve(l);
    match end.error {
        Some(e) => Resolved::Failure(ResolverError { idx: end.position(l) as usize, source: e }),
        None => Resolved::Item(end.item),
    }
}

/// What a result of the resolver shows.
pub open spec fn result_view(r: Result<ExpansionStoreItem, ResolverError>) -> Resolved {
    match r {
        Ok(item) => Resolved::Item(item@),
        Err(e) => Resolved::Failure(e),
    }
}

/// Resolving a definition twice from the same input gives the same: the resolution is a
/// function of the tokens, their offsets, the text and the definition, and of nothing else
/// that a classified text holds.
pub proof fn lemma_resolve_idempotent(a: Lexed, b: Lexed, def: Definition)
    requires
        super::resolving::same_input(a, b),
    ensures
        resolve_definition(a, def) == resolve_definition(b, def),
{
    super::resolving::lemma_resolve_same(Res::start(def), a, b);
}

/// The resolutions of all the definitions of the classified text `l`, in their order.
pub open spec fn resolutions(l: Lexed) -> Seq<Resolved> {
    Seq::new(l.definitions.len(), |i: int| resolve_definition(l, l.definitions[i]))
}

/// What was found of the definitions among `resolved` that could be resolved.
pub open spec fn items_of(resolved: Seq<Resolved>) -> Seq<ItemView>
    decreases resolved.len(),
{
    if resolved.len() == 0 {
        Seq::empty()
    } else {
        match resolved.last() {
            Resolved::Item(item) => items_of(resolved.drop_last()).push(item),
            Resolved::Failure(_) => items_of(resolved.drop_last()),
        }
    }
}

/// The failures among `resolved`.
pub open spec fn failures_of(resolved: Seq<Resolved>) -> Seq<ResolverError>
    decreases resolved.len(),
{
    if resolved.len() == 0 {
        Seq::empty()
    } else {
        match resolved.last() {
            Resolved::Item(_) => failures_of(resolved.drop_last()),
            Resolved::Failure(e) => failures_of(resolved.drop_last()).push(e),
        }
    }
}

/// The values of the results `results` that are `Ok`, in their order.
pub open spec fn oks<'s>(results: Seq<Result<ExpansionStoreItem<'s>, ResolverError>>) -> Seq<
    ExpansionStoreItem<'s>,
>
    decreases results.len(),
{
    if results.len() == 0 {
        Seq::empty()
    } else {
        match results.last() {
            Ok(item) => oks(results.drop_last()).push(item),
            Err(_) => oks(results.drop_last()),
        }
    }
}

/// The values of the results `results` that are `Err`, in their order.
pub open spec fn errs(results: Seq<Result<ExpansionStoreItem, ResolverError>>) -> Seq<
    ResolverError,
>
    decreases results.len(),
{
    if results.len() == 0 {
        Seq::empty()
    } else {
        match results.last() {
            Ok(_) => errs(results.drop_last()),
            Err(e) => errs(results.drop_last()).push(e),
        }
    }
}

/// Calls `Itertools::partition_result` on the results, which puts the values of those that
/// are `Ok` into one list and the values of those that are `Err` into another, each in
/// the order of the results.
#[verifier::external_body]
fn partition<'s>(results: Vec<Result<ExpansionStoreItem<'s>, ResolverError>>) -> (r: (
    Vec<ExpansionStoreItem<'s>>,
    Vec<ResolverError>,
))
    ensures
        r.0@ == oks(results@),
        r.1@ == errs(results@),
{
    results.into_iter().partition_result()
}

/// Whether each of the definitions `items` has no more optional arguments without a name
/// than its count of arguments allows.
pub open spec fn counted(items: Seq<ItemView>) -> bool {
    forall|i: int| 0 <= i < items.len() ==> (#[trigger] items[i]).args.wf()
}

/// Every definition that is resolved has no more optional arguments without a name than
/// its count of arguments allows.
pub proof fn lemma_resolutions_counted(l: Lexed, n: int)
    requires
        l.tokens.len() <= usize::MAX,
        0 <= n <= l.definitions.len(),
    ensures
        counted(items_of(resolutions(l).take(n))),
    decreases n,
{
    if n > 0 {
        let resolved = resolutions(l).take(n);
        lemma_resolutions_counted(l, n - 1);
        assert(resolved.drop_last() =~= resolutions(l).take(n - 1));
        assert(resolved.last() == resolve_definition(l, l.definitions[n - 1]));
        super::resolving::lemma_argument_count(Res::start(l.definitions[n - 1]), l);
    }
}

/// What the results show is what the lists of their values show.
proof fn lemma_partition_views(
    results: Seq<Result<ExpansionStoreItem, ResolverError>>,
    resolved: Seq<Resolved>,
)
    requires
        results.len() == resolved.len(),
        forall|i: int| 0 <= i < results.len() ==> result_view(#[trigger] results[i]) == resolved[i],
    ensures
        super::store::item_views(oks(results)) == items_of(resolved),
        errs(results) == failures_of(resolved),
        oks(results).len() <= results.len(),
    decreases results.len(),
{
    if results.len() > 0 {
        lemma_partition_views(results.drop_last(), resolved.drop_last());
        assert(result_view(results.last()) == resolved.last());
        assert(super::store::item_views(oks(results)) =~= items_of(resolved));
    } else {
        assert(super::store::item_views(oks(results)) =~= items_of(resolved));
    }
}

/// Resolves every definition of a classified text. What could be resolved stands in the
/// store, in the order of the definitions; for the others the failures are handed out, in
/// the same order. The resolution of one definition reads nothing of another.
pub fn resolve<'source>(lexed: &'source LexedStr<'source>) -> (r: (
    ExpansionStore<'source>,
    Vec<ResolverError>,
))
    requires
        lexed@.complete(),
    ensures
        r.0@ == StoreView::empty().extend(items_of(resolutions(lexed@))),
        r.0@.wf(),
        r.1@ == failures_of(resolutions(lexed@)),
        counted(items_of(resolutions(lexed@))),
{
    let definitions = lexed.definitions();
    let ghost l = lexed@;
    // the number of tokens is a machine word
    let _ = lexed.get(0);
    proof {
        lexed.lemma_raw();
    }
    let mut results: Vec<Result<ExpansionStoreItem<'source>, ResolverError>> = Vec::new();
    let mut i: usize = 0;
    while i < definitions.len()
        invariant
            l == lexed@,
            l.complete(),
            l.tokens.len() <= usize::MAX,
            definitions@ == l.definitions,
            i <= definitions.len(),
            results.len() == i,
            forall|j: int|
                0 <= j < i ==> result_view(#[trigger] results@[j]) == resolve_definition(
                    l,
                    l.definitions[j],
                ),
        decreases definitions.len() - i,
    {
        let def = definitions[i];
        assert(def == l.definitions[i as int]);
        let resolver = Resolver::new(lexed.iter_from(def.idx), def.kind);
        results.push(resolver.finish());
        i += 1;
    }
    proof {
        lemma_partition_views(results@, resolutions(l));
        lemma_resolutions_counted(l, l.definitions.len() as int);
        assert(resolutions(l).take(l.definitions.len() as int) =~= resolutions(l));
    }
    let (items, errors) = partition(results);
    (ExpansionStore::from_items(items), errors)
}

/// The resolver at work on one definition.
pub struct Resolver<'s> {
    pub item: ExpansionStoreItem<'s>,
    pub parser: ResExpParser<'s>,
    pub option_name: Option<Range<usize>>,
}

impl<'s> View for Resolver<'s> {
    type V = Res;

    open spec fn view(&self) -> Res {
        Res {
            index: self.parser.iter.index,
            item: self.item@,
            option_name: self.option_name,
            error: None,
        }
    }
}

impl<'s> Resolver<'s> {
    /// The classified text that is read.
    pub open spec fn lexed(&self) -> Lexed {
        self.parser.lexed()
    }

    pub open spec fn wf(&self) -> bool {
        self.parser.wf()
    }

    /// Whether `self` comes behind `before` in the same walk over the same text.
    pub open spec fn follows(&self, before: &Resolver<'s>) -> bool {
        &&& self.parser.iter.base == before.parser.iter.base
        &&& self@.left(self.lexed()) <= before@.left(before.lexed())
    }

    pub fn new(iter: LexerIter<'s>, kind: DefinitionKind) -> (r: Resolver<'s>)
        ensures
            r.parser.iter == iter,
            r@ == (Res {
                index: iter.index,
                item: ItemView::empty(kind),
                option_name: None,
                error: None,
            }),
    {
        Resolver {
            item: ExpansionStoreItem::empty(kind),
            parser: ResExpParser::new(iter),
            option_name: None,
        }
    }

    /// Reads the definition to its end and hands out what was found, or the failure with
    /// the index of the token at which the resolver stopped. What is handed out has no
    /// more optional arguments without a name than its count of arguments allows.
    pub fn finish(self) -> (r: Result<ExpansionStoreItem<'s>, ResolverError>)
        requires
            self.wf(),
        ensures
            match r {
                Ok(item) => {
                    &&& !self@.resolve(self.lexed()).failed()
                    &&& item@ == self@.resolve(self.lexed()).item
                    &&& item@.args.wf()
                },
                Err(e) => {
                    &&& self@.resolve(self.lexed()).error == Some(e.source)
                    &&& e.idx == self@.resolve(self.lexed()).position(self.lexed())
                },
            },
    {
        let mut resolver = self;
        match resolver.resolve() {
            Ok(_) => Ok(resolver.item),
            Err(e) => Err(e),
        }
    }

    fn resolve(&mut self) -> (r: Result<(), ResolverError>)
        requires
            old(self).wf(),
        ensures
            final(self).wf(),
            final(self).follows(old(self)),
            match r {
                Ok(_) => {
                    &&& final(self)@ == old(self)@.resolve(old(self).lexed())
                    &&& final(self)@.item.args.wf()
                },
                Err(e) => {
                    &&& old(self)@.resolve(old(self).lexed()).error == Some(e.source)
                    &&& e.idx == old(self)@.resolve(old(self).lexed()).position(old(self).lexed())
                },
            },
    {
        let kind = self.item.kind;
        let res = match kind {
            DefinitionKind::Macro => new_command(self),
            DefinitionKind::Environment => new_environment(self),
            DefinitionKind::Def => def(self),
        };
        // Add the index where the failure occurred.
        match res {
            Ok(_) => Ok(()),
            Err(e) => Err(e.attach_marker(self.mark())),
        }
    }

    pub fn text(&self, first: usize, behind: usize) -> (r: Result<&'s str, ResolverErrorKind>)
        requires
            self.wf(),
        ensures
            match r {
                Ok(s) => self.lexed().text(first as int, behind as int) == Some(s@),
                Err(e) => self.lexed().text(first as int, behind as int) is None && e
                    == ResolverErrorKind::FailedToRetrieveText,
            },
    {
        self.parser.text(first..behind)
    }

    /// The text of the token `idx`.
    fn token_text(&self, idx: usize) -> (r: Result<&'s str, ResolverErrorKind>)
        requires
            self.wf(),
        ensures
            match r {
                Ok(s) => self.lexed().text(idx as int, idx + 1) == Some(s@),
                Err(e) => self.lexed().text(idx as int, idx + 1) is None && e
                    == ResolverErrorKind::FailedToRetrieveText,
            },
    {
        if idx == usize::MAX {
            return Err(ResolverErrorKind::FailedToRetrieveText);
        }
        self.parser.text(idx)
    }

    /// The number that the token `idx` spells.
    fn token_number(&self, idx: usize, skip: bool) -> (r: Result<u16, ResolverErrorKind>)
        requires
            self.wf(),
        ensures
            r == number_at(self.lexed(), idx as int, idx + 1, skip),
    {
        if idx == usize::MAX {
            return Err(ResolverErrorKind::FailedToRetrieveText);
        }
        self.parser.parse(idx, skip)
    }

    pub fn register_cmd_name(&mut self) -> (r: ResolverResult)
        requires
            old(self).wf(),
        ensures
            final(self).wf(),
            final(self).follows(old(self)),
            outcome(final(self)@, r) == old(self)@.register_cmd_name(old(self).lexed()),
    {
        match self.token_text(self.index()) {
            Ok(name) => {
                self.item.name = name;
                Ok(())
            },
            Err(e) => Err(e),
        }
    }

    pub fn register_env_name(&mut self, mark: Marker) -> (r: ResolverResult)
        requires
            old(self).wf(),
        ensures
            final(self).wf(),
            final(self).follows(old(self)),
            outcome(final(self)@, r) == old(self)@.register_env_name(
                old(self).lexed(),
                mark.index() as int,
            ),
    {
        let range = self.range_from_mark(mark);
        match self.text(range.start, range.end) {
            Ok(name) => {
                self.item.name = name;
                Ok(())
            },
            Err(e) => Err(e),
        }
    }

    pub fn register_empty_arg_count(&mut self)
        requires
            old(self).wf(),
        ensures
            final(self).wf(),
            final(self).follows(old(self)),
            final(self)@ == old(self)@.register_empty_arg_count(),
    {
        self.item.args.arg_count = 0;
    }

    pub fn register_arg_count(&mut self) -> (r: ResolverResult)
        requires
            old(self).wf(),
        ensures
            final(self).wf(),
            final(self).follows(old(self)),
            outcome(final(self)@, r) == old(self)@.register_arg_count(old(self).lexed()),
    {
        match self.token_number(self.index(), false) {
            Ok(num) => {
                self.item.args.arg_count = num;
                Ok(())
            },
            Err(e) => Err(e),
        }
    }

    pub fn register_opt_arg(&mut self, mark: Marker) -> (r: ResolverResult)
        requires
            old(self).wf(),
        ensures
            final(self).wf(),
            final(self).follows(old(self)),
            r is Ok,
            final(self)@ == old(self)@.register_opt_arg(old(self).lexed(), mark.index() as int),
    {
        let range = self.range_from_mark(mark);
        // The default value of an argument without a name goes into the list, in the
        // order of the arguments.
        self.item.args.optional.push(range);
        Ok(())
    }

    pub fn mark_opt_named_arg_name(&mut self, mark: Marker)
        requires
            old(self).wf(),
        ensures
            final(self).wf(),
            final(self).follows(old(self)),
            final(self)@ == old(self)@.mark_opt_named_arg_name(
                old(self).lexed(),
                mark.index() as int,
            ),
    {
        let range = self.range_from_mark(mark);
        self.option_name = Some(range);
    }

    /// Can only be called after the name of the argument was marked.
    pub fn register_opt_named_arg(&mut self, mark: Marker) -> (r: ResolverResult)
        requires
            old(self).wf(),
            old(self)@.option_name is Some,
        ensures
            final(self).wf(),
            final(self).follows(old(self)),
            outcome(final(self)@, r) == old(self)@.register_opt_named_arg(
                old(self).lexed(),
                mark.index() as int,
            ),
    {
        let range = self.range_from_mark(mark);
        let name = match self.option_name.take() {
            Some(name) => name,
            None => {
                return Err(ResolverErrorKind::FailedToRetrieveText);
            },
        };
        let key = match self.text(name.start, name.end) {
            Ok(key) => key,
            Err(e) => {
                return Err(e);
            },
        };
        defaults_insert(&mut self.item.args.optional_named, key, range);
        Ok(())
    }

    pub fn register_smpl_macro_token(&mut self) -> (r: ResolverResult)
        requires
            old(self).wf(),
        ensures
            final(self).wf(),
            final(self).follows(old(self)),
            outcome(final(self)@, r) == old(self)@.register_smpl_macro_token(old(self).lexed()),
    {
        let idx = self.index();
        let key = match self.token_number(idx, true) {
            Ok(key) => key,
            Err(e) => {
                return Err(e);
            },
        };
        push_position(&mut self.item.req_expansion, key, idx);
        Ok(())
    }

    pub fn register_complex_macro_token(&mut self) -> (r: ResolverResult)
        requires
            old(self).wf(),
        ensures
            final(self).wf(),
            final(self).follows(old(self)),
            outcome(final(self)@, r) == old(self)@.register_complex_macro_token(old(self).lexed()),
    {
        let idx = self.index();
        let text = match self.token_text(idx) {
            Ok(text) => text,
            Err(e) => {
                return Err(e);
            },
        };
        let key = match skip_marker(text) {
            Some(key) => key,
            None => {
                return Err(ResolverErrorKind::FailedToRetrieveText);
            },
        };
        push_named_position(&mut self.item.opt_expansion, key, idx);
        Ok(())
    }

    pub fn register_body(&mut self, marker: Marker)
        requires
            old(self).wf(),
        ensures
            final(self).wf(),
            final(self).follows(old(self)),
            final(self)@ == old(self)@.register_body(old(self).lexed(), marker.index() as int),
    {
        let range = self.range_from_mark(marker);
        self.item.body = range;
    }

    pub fn register_second_body(&mut self, marker: Marker)
        requires
            old(self).wf(),
        ensures
            final(self).wf(),
            final(self).follows(old(self)),
            final(self)@ == old(self)@.register_second_body(
                old(self).lexed(),
                marker.index() as int,
            ),
    {
        let range = self.range_from_mark(marker);
        self.item.second_body = Some(range);
    }

    pub fn check_arg_count(&self) -> (r: ResolverResult)
        requires
            self.wf(),
        ensures
            outcome(self@, r) == self@.check_arg_count(),
    {
        let found = self.item.args.optional.len();
        let expected = self.item.args.arg_count as usize;
        if found > expected {
            Err(ResolverErrorKind::WrongArgumentCount { expected, found })
        } else {
            Ok(())
        }
    }

    /// Looks for the opening token `open` of a block. The result says whether the closing
    /// token is to be taken without a look at it: that is so where `optional` is
    /// `OptionalBlock` and no opening token is found, and where it is `OptionalBlockIdent`.
    fn open_block(&mut self, open: SyntaxKind, optional: OptionalKind) -> (r: Result<
        bool,
        ResolverErrorKind,
    >)
        requires
            old(self).wf(),
        ensures
            final(self).wf(),
            final(self).follows(old(self)),
            final(self)@.item == old(self)@.item,
            final(self)@.option_name == old(self)@.option_name,
            match r {
                Ok(skip) => (final(self)@, skip) == old(self)@.open_block(
                    old(self).lexed(),
                    open,
                    optional,
                ),
                Err(e) => Res { error: Some(e), ..final(self)@ } == old(self)@.open_block(
                    old(self).lexed(),
                    open,
                    optional,
                ).0,
            },
    {
        self.parser.skip_trivia();
        if optional == OptionalKind::OptionalBlock && !self.parser.at(open) {
            return Ok(true);
        }
        let opt = optional == OptionalKind::OptionalBlockIdent;
        match self.parser.expect(open, opt) {
            Ok(_) => Ok(opt),
            Err(e) => Err(e),
        }
    }

    fn close_block(&mut self, close: SyntaxKind, skip: bool) -> (r: ResolverResult)
        requires
            old(self).wf(),
        ensures
            final(self).wf(),
            final(self).follows(old(self)),
            final(self)@.item == old(self)@.item,
            outcome(final(self)@, r) == old(self)@.close_block(old(self).lexed(), close, skip),
    {
        self.parser.skip_trivia();
        self.parser.expect(close, skip)
    }

    pub fn open_brace(&mut self, optional: OptionalKind) -> (r: Result<bool, ResolverErrorKind>)
        requires
            old(self).wf(),
        ensures
            final(self).wf(),
            final(self).follows(old(self)),
            final(self)@.item == old(self)@.item,
            final(self)@.option_name == old(self)@.option_name,
            match r {
                Ok(skip) => (final(self)@, skip) == old(self)@.open_block(
                    old(self).lexed(),
                    SyntaxKind::OpenBrace,
                    optional,
                ),
                Err(e) => Res { error: Some(e), ..final(self)@ } == old(self)@.open_block(
                    old(self).lexed(),
                    SyntaxKind::OpenBrace,
                    optional,
                ).0,
            },
    {
        self.open_block(SyntaxKind::OpenBrace, optional)
    }

    pub fn close_brace(&mut self, skip: bool) -> (r: ResolverResult)
        requires
            old(self).wf(),
        ensures
            final(self).wf(),
            final(self).follows(old(self)),
            final(self)@.item == old(self)@.item,
            outcome(final(self)@, r) == old(self)@.close_block(
                old(self).lexed(),
                SyntaxKind::CloseBrace,
                skip,
            ),
    {
        self.close_block(SyntaxKind::CloseBrace, skip)
    }

    pub fn open_bracket(&mut self, optional: OptionalKind) -> (r: Result<bool, ResolverErrorKind>)
        requires
            old(self).wf(),
        ensures
            final(self).wf(),
            final(self).follows(old(self)),
            final(self)@.item == old(self)@.item,
            final(self)@.option_name == old(self)@.option_name,
            match r {
                Ok(skip) => (final(self)@, skip) == old(self)@.open_block(
                    old(self).lexed(),
                    SyntaxKind::OpenBracket,
                    optional,
                ),
                Err(e) => Res { error: Some(e), ..final(self)@ } == old(self)@.open_block(
                    old(self).lexed(),
                    SyntaxKind::OpenBracket,
                    optional,
                ).0,
            },
    {
        self.open_block(SyntaxKind::OpenBracket, optional)
    }

    pub fn close_bracket(&mut self, skip: bool) -> (r: ResolverResult)
        requires
            old(self).wf(),
        ensures
            final(self).wf(),
            final(self).follows(old(self)),
            final(self)@.item == old(self)@.item,
            outcome(final(self)@, r) == old(self)@.close_block(
                old(self).lexed(),
                SyntaxKind::CloseBracket,
                skip,
            ),
    {
        self.close_block(SyntaxKind::CloseBracket, skip)
    }

    // What follows hands the walk of the parser on.

    pub fn advance(&mut self) -> (r: ResolverResult)
        requires
            old(self).wf(),
        ensures
            final(self).wf(),
            final(self).follows(old(self)),
            final(self)@.item == old(self)@.item,
            outcome(final(self)@, r) == old(self)@.advance(old(self).lexed()),
            r is Ok ==> final(self)@.left(final(self).lexed()) < old(self)@.left(old(self).lexed()),
    {
        match self.parser.advance() {
            Ok(_) => Ok(()),
            Err(e) => Err(e),
        }
    }

    pub fn advance_to(&mut self, kind: SyntaxKind) -> (r: ResolverResult)
        requires
            old(self).wf(),
        ensures
            final(self).wf(),
            final(self).follows(old(self)),
            final(self)@.item == old(self)@.item,
            outcome(final(self)@, r) == old(self)@.advance_to(old(self).lexed(), kind),
    {
        self.parser.advance_to(kind)
    }

    pub fn skip_trivia(&mut self)
        requires
            old(self).wf(),
        ensures
            final(self).wf(),
            final(self).follows(old(self)),
            final(self)@ == old(self)@.skip_trivia(old(self).lexed()),
    {
        self.parser.skip_trivia()
    }

    pub fn peek(&self) -> (k: SyntaxKind)
        requires
            self.wf(),
        ensures
            k == self@.peek(self.lexed()),
    {
        self.parser.peek()
    }

    pub fn peek_second(&self) -> (k: SyntaxKind)
        requires
            self.wf(),
        ensures
            k == self@.peek_second(self.lexed()),
    {
        self.parser.peek_second()
    }

    pub fn peek_skip_trivia(&self) -> (k: SyntaxKind)
        requires
            self.wf(),
        ensures
            k == self@.peek_skip_trivia(self.lexed()),
    {
        self.parser.peek_skip_trivia()
    }

    pub fn at(&self, kind: SyntaxKind) -> (b: bool)
        requires
            self.wf(),
        ensures
            b == self@.at(self.lexed(), kind),
    {
        self.parser.at(kind)
    }

    pub fn at_peek(&self, kind: SyntaxKind) -> (b: bool)
        requires
            self.wf(),
        ensures
            b == (self@.peek_second(self.lexed()) == kind),
    {
        self.parser.at_peek(kind)
    }

    pub fn mark(&self) -> (m: Marker)
        requires
            self.wf(),
        ensures
            m.index() == self@.position(self.lexed()),
    {
        self.parser.mark()
    }

    pub fn range_from_mark(&self, mark: Marker) -> (r: Range<usize>)
        requires
            self.wf(),
        ensures
            r == self@.range_from(self.lexed(), mark.index() as int),
    {
        self.parser.range_from_mark(mark)
    }

    pub fn index(&self) -> (i: usize)
        requires
            self.wf(),
        ensures
            i == self@.position(self.lexed()),
    {
        self.parser.index()
    }
}

} // verus!
