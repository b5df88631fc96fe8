//! The store of resolved definitions, and the tables that a resolved definition holds.

use crate::parser::preparse::DefinitionKind;
use rustc_hash::FxHashMap;
use std::ops::Range;
use vstd::prelude::*;

verus! {

/// `rustc_hash::FxBuildHasher`, the hasher of the tables. Nothing is stated of it.
#[verifier::external_type_specification]
#[verifier::external_body]
pub struct ExFxBuildHasher(rustc_hash::FxBuildHasher);

/// What a table from parameter numbers to token indices holds.
pub uninterp spec fn positional_entries(m: FxHashMap<u16, Vec<usize>>) -> Map<u16, Seq<usize>>;

/// What a table from parameter names to token indices holds.
pub uninterp spec fn named_entries(m: FxHashMap<&str, Vec<usize>>) -> Map<Seq<char>, Seq<usize>>;

/// What a table from argument names to the token ranges of their default values holds.
pub uninterp spec fn default_entries(m: FxHashMap<&str, Range<usize>>) -> Map<
    Seq<char>,
    Range<usize>,
>;

/// What the index of a store holds: where the definition of each name stands.
pub uninterp spec fn index_entries(m: FxHashMap<&str, StoreIndex>) -> Map<Seq<char>, StoreIndex>;

pub open spec fn no_positions() -> Map<u16, Seq<usize>> {
    Map::empty()
}

pub open spec fn no_names() -> Map<Seq<char>, Seq<usize>> {
    Map::empty()
}

pub open spec fn no_defaults() -> Map<Seq<char>, Range<usize>> {
    Map::empty()
}

pub open spec fn no_index() -> Map<Seq<char>, StoreIndex> {
    Map::empty()
}

/// Calls `FxHashMap::default`, which makes an empty table.
#[verifier::external_body]
pub(crate) fn positional_new() -> (r: FxHashMap<u16, Vec<usize>>)
    ensures
        positional_entries(r) == no_positions(),
{
    FxHashMap::default()
}

/// Calls `HashMap::insert`, which puts `value` at `key` in the place of what was there.
#[verifier::external_body]
pub(crate) fn positional_insert(m: &mut FxHashMap<u16, Vec<usize>>, key: u16, value: Vec<usize>)
    ensures
        positional_entries(*final(m)) == positional_entries(*old(m)).insert(key, value@),
{
    m.insert(key, value);
}

/// Calls `HashMap::remove`, which takes out what was at `key` and returns it.
#[verifier::external_body]
pub(crate) fn positional_remove(m: &mut FxHashMap<u16, Vec<usize>>, key: u16) -> (r: Option<
    Vec<usize>,
>)
    ensures
        positional_entries(*final(m)) == positional_entries(*old(m)).remove(key),
        r is Some == positional_entries(*old(m)).contains_key(key),
        r is Some ==> r->0@ == positional_entries(*old(m))[key],
{
    m.remove(&key)
}

/// Calls `FxHashMap::default`, which makes an empty table.
#[verifier::external_body]
pub(crate) fn named_new<'a>() -> (r: FxHashMap<&'a str, Vec<usize>>)
    ensures
        named_entries(r) == no_names(),
{
    FxHashMap::default()
}

/// Calls `HashMap::insert`, which puts `value` at `key` in the place of what was there.
/// Keys are compared by their text.
#[verifier::external_body]
pub(crate) fn named_insert<'a>(
    m: &mut FxHashMap<&'a str, Vec<usize>>,
    key: &'a str,
    value: Vec<usize>,
)
    ensures
        named_entries(*final(m)) == named_entries(*old(m)).insert(key@, value@),
{
    m.insert(key, value);
}

/// Calls `HashMap::remove`, which takes out what was at `key` and returns it.
#[verifier::external_body]
pub(crate) fn named_remove<'a>(m: &mut FxHashMap<&'a str, Vec<usize>>, key: &str) -> (r: Option<
    Vec<usize>,
>)
    ensures
        named_entries(*final(m)) == named_entries(*old(m)).remove(key@),
        r is Some == named_entries(*old(m)).contains_key(key@),
        r is Some ==> r->0@ == named_entries(*old(m))[key@],
{
    m.remove(key)
}

/// Calls `FxHashMap::default`, which makes an empty table.
#[verifier::external_body]
pub(crate) fn defaults_new<'a>() -> (r: FxHashMap<&'a str, Range<usize>>)
    ensures
        default_entries(r) == no_defaults(),
{
    FxHashMap::default()
}

/// Calls `HashMap::insert`, which puts `value` at `key` in the place of what was there.
/// Keys are compared by their text.
#[verifier::external_body]
pub(crate) fn defaults_insert<'a>(
    m: &mut FxHashMap<&'a str, Range<usize>>,
    key: &'a str,
    value: Range<usize>,
)
    ensures
        default_entries(*final(m)) == default_entries(*old(m)).insert(key@, value),
{
    m.insert(key, value);
}

/// Calls `FxHashMap::default`, which makes an empty table.
#[verifier::external_body]
pub(crate) fn index_new<'a>() -> (r: FxHashMap<&'a str, StoreIndex>)
    ensures
        index_entries(r) == no_index(),
{
    FxHashMap::default()
}

/// Calls `HashMap::insert`, which puts `value` at `key` in the place of what was there.
/// Keys are compared by their text.
#[verifier::external_body]
pub(crate) fn index_insert<'a>(
    m: &mut FxHashMap<&'a str, StoreIndex>,
    key: &'a str,
    value: StoreIndex,
)
    ensures
        index_entries(*final(m)) == index_entries(*old(m)).insert(key@, value),
{
    m.insert(key, value);
}

/// Calls `HashMap::get`, which finds what is at `key`, and copies it.
#[verifier::external_body]
pub(crate) fn index_get(m: &FxHashMap<&str, StoreIndex>, key: &str) -> (r: Option<StoreIndex>)
    ensures
        r is Some == index_entries(*m).contains_key(key@),
        r is Some ==> r->0 == index_entries(*m)[key@],
{
    m.get(key).copied()
}

/// Adds the token index `idx` to those that the table holds for the parameter `key`.
pub fn push_position(table: &mut FxHashMap<u16, Vec<usize>>, key: u16, idx: usize)
    ensures
        positional_entries(*final(table)) == positional_entries(*old(table)).insert(
            key,
            positions_at(positional_entries(*old(table)), key).push(idx),
        ),
{
    let mut list = match positional_remove(table, key) {
        Some(list) => list,
        None => Vec::new(),
    };
    list.push(idx);
    positional_insert(table, key, list);
    assert(positional_entries(*old(table)).remove(key).insert(key, list@) =~= positional_entries(
        *old(table),
    ).insert(key, list@));
}

/// Adds the token index `idx` to those that the table holds for the parameter `key`.
pub fn push_named_position<'a>(table: &mut FxHashMap<&'a str, Vec<usize>>, key: &'a str, idx: usize)
    ensures
        named_entries(*final(table)) == named_entries(*old(table)).insert(
            key@,
            names_at(named_entries(*old(table)), key@).push(idx),
        ),
{
    let mut list = match named_remove(table, key) {
        Some(list) => list,
        None => Vec::new(),
    };
    list.push(idx);
    named_insert(table, key, list);
    assert(named_entries(*old(table)).remove(key@).insert(key@, list@) =~= named_entries(
        *old(table),
    ).insert(key@, list@));
}

/// The token indices that `entries` holds for `key`, none where it has no such key.
pub open spec fn positions_at(entries: Map<u16, Seq<usize>>, key: u16) -> Seq<usize> {
    if entries.contains_key(key) {
        entries[key]
    } else {
        Seq::empty()
    }
}

/// The token indices that `entries` holds for `key`, none where it has no such key.
pub open spec fn names_at(entries: Map<Seq<char>, Seq<usize>>, key: Seq<char>) -> Seq<usize> {
    if entries.contains_key(key) {
        entries[key]
    } else {
        Seq::empty()
    }
}

/// Where a definition stands in the store: in the list of its kind, at `idx`.
#[derive(Debug, Clone, Copy, PartialEq, Eq)]
pub struct StoreIndex {
    pub idx: usize,
    pub kind: DefinitionKind,
}

impl StoreIndex {
    pub fn new(idx: usize, kind: DefinitionKind) -> (s: StoreIndex)
        ensures
            s == (StoreIndex { idx, kind }),
    {
        StoreIndex { idx, kind }
    }
}

/// The arguments of a definition. `arg_count` is the count that the definition gives; it
/// counts the optional arguments that have no name with the required ones.
#[derive(Debug, Clone, PartialEq, Eq)]
pub struct ExpansionArgs<'source> {
    pub arg_count: u16,
    /// The token ranges of the default values of the optional arguments without a name.
    pub optional: Vec<Range<usize>>,
    /// The token ranges of the default values of the optional arguments with a name.
    pub optional_named: FxHashMap<&'source str, Range<usize>>,
}

/// What the arguments of a definition hold.
pub struct ArgsView {
    pub arg_count: u16,
    pub optional: Seq<Range<usize>>,
    pub optional_named: Map<Seq<char>, Range<usize>>,
}

impl ArgsView {
    /// No more optional arguments without a name than the count of arguments allows.
    pub open spec fn wf(self) -> bool {
        self.optional.len() <= self.arg_count
    }

    /// The number of required arguments.
    pub open spec fn required(self) -> int {
        self.arg_count - self.optional.len()
    }
}

impl<'source> View for ExpansionArgs<'source> {
    type V = ArgsView;

    open spec fn view(&self) -> ArgsView {
        ArgsView {
            arg_count: self.arg_count,
            optional: self.optional@,
            optional_named: default_entries(self.optional_named),
        }
    }
}

impl<'source> ExpansionArgs<'source> {
    /// No argument at all.
    pub fn new() -> (a: ExpansionArgs<'source>)
        ensures
            a@ == (ArgsView { arg_count: 0, optional: Seq::empty(), optional_named: no_defaults() }),
    {
        ExpansionArgs { arg_count: 0, optional: Vec::new(), optional_named: defaults_new() }
    }

    /// The number of required arguments.
    pub fn required(&self) -> (n: u16)
        requires
            self@.wf(),
        ensures
            n == self@.required(),
    {
        self.arg_count - self.optional.len() as u16
    }
}

/// A resolved definition: its name, its arguments, the token ranges of its bodies, and for
/// each parameter the indices of the tokens in the bodies that refer to it.
#[derive(Debug, PartialEq, Eq)]
pub struct ExpansionStoreItem<'source> {
    pub kind: DefinitionKind,
    pub body: Range<usize>,
    /// The second body, which only an environment has.
    pub second_body: Option<Range<usize>>,
    pub name: &'source str,
    pub args: ExpansionArgs<'source>,
    pub req_expansion: FxHashMap<u16, Vec<usize>>,
    pub opt_expansion: FxHashMap<&'source str, Vec<usize>>,
}

/// What a resolved definition holds.
pub struct ItemView {
    pub kind: DefinitionKind,
    pub body: Range<usize>,
    pub second_body: Option<Range<usize>>,
    pub name: Seq<char>,
    pub args: ArgsView,
    pub req_expansion: Map<u16, Seq<usize>>,
    pub opt_expansion: Map<Seq<char>, Seq<usize>>,
}

impl ItemView {
    /// The definition of the kind `kind` of which nothing is known yet.
    pub open spec fn empty(kind: DefinitionKind) -> ItemView {
        ItemView {
            kind,
            body: 0..0,
            second_body: None,
            name: Seq::empty(),
            args: ArgsView { arg_count: 0, optional: Seq::empty(), optional_named: no_defaults() },
            req_expansion: no_positions(),
            opt_expansion: no_names(),
        }
    }
}

impl<'source> View for ExpansionStoreItem<'source> {
    type V = ItemView;

    open spec fn view(&self) -> ItemView {
        ItemView {
            kind: self.kind,
            body: self.body,
            second_body: self.second_body,
            name: self.name@,
            args: self.args@,
            req_expansion: positional_entries(self.req_expansion),
            opt_expansion: named_entries(self.opt_expansion),
        }
    }
}

impl<'source> ExpansionStoreItem<'source> {
    /// The definition of the kind `kind` of which nothing is known yet.
    pub fn empty(kind: DefinitionKind) -> (item: ExpansionStoreItem<'source>)
        ensures
            item@ == ItemView::empty(kind),
    {
        proof {
            reveal_strlit("");
        }
        let item = ExpansionStoreItem {
            body: 0..0,
            second_body: None,
            kind,
            name: "",
            args: ExpansionArgs::new(),
            req_expansion: positional_new(),
            opt_expansion: named_new(),
        };
        assert(item@.name =~= Seq::<char>::empty());
        item
    }
}

/// The resolved definitions of a text, one list for each kind, and an index from the names
/// to the places in the lists. A definition whose name stood in the store before takes
/// the place of the earlier one in the index; both stay in their lists.
#[derive(Debug)]
pub struct ExpansionStore<'source> {
    def: Vec<ExpansionStoreItem<'source>>,
    mac: Vec<ExpansionStoreItem<'source>>,
    env: Vec<ExpansionStoreItem<'source>>,
    index: FxHashMap<&'source str, StoreIndex>,
}

/// What a store holds.
pub struct StoreView {
    pub def: Seq<ItemView>,
    pub mac: Seq<ItemView>,
    pub env: Seq<ItemView>,
    pub index: Map<Seq<char>, StoreIndex>,
}

impl StoreView {
    pub open spec fn empty() -> StoreView {
        StoreView { def: Seq::empty(), mac: Seq::empty(), env: Seq::empty(), index: no_index() }
    }

    /// The list of the definitions of the kind `kind`.
    pub open spec fn list(self, kind: DefinitionKind) -> Seq<ItemView> {
        match kind {
            DefinitionKind::Macro => self.mac,
            DefinitionKind::Def => self.def,
            DefinitionKind::Environment => self.env,
        }
    }

    /// The store with `item` added at the end of the list of its kind, and its name
    /// pointing there.
    pub open spec fn insert(self, item: ItemView) -> StoreView {
        let index = self.index.insert(
            item.name,
            StoreIndex { idx: self.list(item.kind).len() as usize, kind: item.kind },
        );
        match item.kind {
            DefinitionKind::Macro => StoreView { mac: self.mac.push(item), index, ..self },
            DefinitionKind::Def => StoreView { def: self.def.push(item), index, ..self },
            DefinitionKind::Environment => StoreView { env: self.env.push(item), index, ..self },
        }
    }

    /// The definition that the index has for the name `key`.
    pub open spec fn get(self, key: Seq<char>) -> Option<ItemView> {
        if self.index.contains_key(key) {
            let at = self.index[key];
            if at.idx < self.list(at.kind).len() {
                Some(self.list(at.kind)[at.idx as int])
            } else {
                None
            }
        } else {
            None
        }
    }

    /// The store with the definitions `items` added, one after the other.
    pub open spec fn extend(self, items: Seq<ItemView>) -> StoreView
        decreases items.len(),
    {
        if items.len() == 0 {
            self
        } else {
            self.extend(items.drop_last()).insert(items.last())
        }
    }

    /// Every entry of the index points at a definition of its name.
    pub open spec fn wf(self) -> bool {
        forall|key: Seq<char>| #[trigger]
            self.index.contains_key(key) ==> self.index[key].idx < self.list(
                self.index[key].kind,
            ).len() && self.list(self.index[key].kind)[self.index[key].idx as int].name == key
    }
}

/// The views of the definitions `items`.
pub open spec fn item_views(items: Seq<ExpansionStoreItem>) -> Seq<ItemView> {
    Seq::new(items.len(), |i: int| items[i]@)
}

impl<'source> View for ExpansionStore<'source> {
    type V = StoreView;

    closed spec fn view(&self) -> StoreView {
        StoreView {
            def: item_views(self.def@),
            mac: item_views(self.mac@),
            env: item_views(self.env@),
            index: index_entries(self.index),
        }
    }
}

impl<'source> ExpansionStore<'source> {
    /// A store without definitions.
    pub fn new() -> (s: ExpansionStore<'source>)
        ensures
            s@ == StoreView::empty(),
            s@.wf(),
    {
        let s = ExpansionStore {
            def: Vec::new(),
            mac: Vec::new(),
            env: Vec::new(),
            index: index_new(),
        };
        assert(s@.def =~= Seq::<ItemView>::empty());
        assert(s@.mac =~= Seq::<ItemView>::empty());
        assert(s@.env =~= Seq::<ItemView>::empty());
        s
    }

    /// Adds a definition at the end of the list of its kind and lets its name point there.
    pub fn insert(&mut self, item: ExpansionStoreItem<'source>)
        requires
            old(self)@.wf(),
        ensures
            final(self)@ == old(self)@.insert(item@),
            final(self)@.wf(),
            final(self)@.get(item@.name) == Some(item@),
    {
        let name = item.name;
        let kind = item.kind;
        let ghost view = item@;
        let idx = match kind {
            DefinitionKind::Macro => {
                self.mac.push(item);
                assert(item_views(self.mac@) =~= item_views(old(self).mac@).push(view));
                self.mac.len() - 1
            },
            DefinitionKind::Def => {
                self.def.push(item);
                assert(item_views(self.def@) =~= item_views(old(self).def@).push(view));
                self.def.len() - 1
            },
            DefinitionKind::Environment => {
                self.env.push(item);
                assert(item_views(self.env@) =~= item_views(old(self).env@).push(view));
                self.env.len() - 1
            },
        };
        let index = StoreIndex::new(idx, kind);
        index_insert(&mut self.index, name, index);
    }

    /// The definition that the index has for the name `key`.
    pub fn get(&self, key: &str) -> (r: Option<&ExpansionStoreItem<'source>>)
        ensures
            match r {
                Some(item) => self@.get(key@) == Some(item@),
                None => self@.get(key@) is None,
            },
    {
        let at = match index_get(&self.index, key) {
            Some(at) => at,
            None => {
                return None;
            },
        };
        let list = match at.kind {
            DefinitionKind::Macro => &self.mac,
            DefinitionKind::Def => &self.def,
            DefinitionKind::Environment => &self.env,
        };
        if at.idx < list.len() {
            Some(&list[at.idx])
        } else {
            None
        }
    }

    /// Adds the definitions `items`, one after the other.
    pub fn extend(&mut self, items: Vec<ExpansionStoreItem<'source>>)
        requires
            old(self)@.wf(),
        ensures
            final(self)@ == old(self)@.extend(item_views(items@)),
            final(self)@.wf(),
    {
        let ghost all = item_views(items@);
        assert(all.take(0) =~= Seq::<ItemView>::empty());
        for item in it: items
            invariant
                all == item_views(it.seq()),
                self@.wf(),
                self@ == old(self)@.extend(all.take(it.index() as int)),
        {
            assert(all.take(it.index() + 1).drop_last() =~= all.take(it.index() as int));
            self.insert(item);
        }
        assert(all.take(all.len() as int) =~= all);
    }

    /// A store of the definitions `items`.
    pub fn from_items(items: Vec<ExpansionStoreItem<'source>>) -> (s: ExpansionStore<'source>)
        ensures
            s@ == StoreView::empty().extend(item_views(items@)),
            s@.wf(),
    {
        let mut store = ExpansionStore::new();
        store.extend(items);
        store
    }
}

} // verus!
