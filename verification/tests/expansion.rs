use neotex::parser::expansion::errors::ResolverErrorKind;
use neotex::parser::expansion::resolver::resolve;
use neotex::parser::expansion::store::{ExpansionArgs, ExpansionStore, ExpansionStoreItem};
use neotex::parser::preparse::{DefinitionKind, LexedStr};
use neotex::parser::SyntaxKind;
use rustc_hash::FxHashMap;

fn check(src: &str, expected: ExpansionStoreItem) {
    let lexed = LexedStr::new(src);
    let res = resolve(&lexed);
    let found = res.0.get(expected.name).expect("given key not found");
    assert_eq!(*found, expected);
}

#[test]
fn simple() {
    let src = "\\newcommand{\\name}{as#1dfasdf}";
    let args = ExpansionArgs {
        arg_count: 0,
        optional: Vec::default(),
        optional_named: FxHashMap::default(),
    };
    let mut req_expansion = FxHashMap::default();
    req_expansion.insert(1, vec![6]);

    let expected = ExpansionStoreItem {
        body: 5..8,
        second_body: None,
        name: "\\name",
        kind: DefinitionKind::Macro,
        opt_expansion: FxHashMap::default(),
        req_expansion,
        args,
    };

    check(src, expected)
}

#[test]
fn arg_count_without_bracket() {
    let src = "\\newcommand{\\name}[3]{as#1dfasdf#3}";
    let args = ExpansionArgs {
        arg_count: 3,
        optional: Vec::default(),
        optional_named: FxHashMap::default(),
    };
    let mut req_expansion = FxHashMap::default();
    req_expansion.insert(1, vec![9]);
    req_expansion.insert(3, vec![11]);

    let expected = ExpansionStoreItem {
        body: 8..12,
        second_body: None,
        name: "\\name",
        kind: DefinitionKind::Macro,
        opt_expansion: FxHashMap::default(),
        req_expansion,
        args,
    };

    check(src, expected)
}

#[test]
fn optional_arg() {
    let src = "\\newcommand{\\name}[1][Leon Fuss]{as#1dfasdf#3}";
    let args = ExpansionArgs {
        arg_count: 1,
        optional: vec![8..11],
        optional_named: FxHashMap::default(),
    };
    let mut req_expansion = FxHashMap::default();
    req_expansion.insert(1, vec![14]);
    req_expansion.insert(3, vec![16]);

    let expected = ExpansionStoreItem {
        body: 13..17,
        second_body: None,
        name: "\\name",
        kind: DefinitionKind::Macro,
        opt_expansion: FxHashMap::default(),
        req_expansion,
        args,
    };

    check(src, expected)
}

#[test]
fn optional_named_arg() {
    let src = "\\newcommand{\\name}[1][name = Leon Fuss]{as#name dfasdf#3}";
    let mut optional_named = FxHashMap::default();
    optional_named.insert("name", 11..15);
    let args = ExpansionArgs {
        arg_count: 1,
        optional: Vec::default(),
        optional_named,
    };
    let mut req_expansion = FxHashMap::default();
    req_expansion.insert(3, vec![21]);
    let mut opt_expansion = FxHashMap::default();
    opt_expansion.insert("name", vec![18]);

    let expected = ExpansionStoreItem {
        body: 17..22,
        second_body: None,
        name: "\\name",
        kind: DefinitionKind::Macro,
        opt_expansion,
        req_expansion,
        args,
    };

    check(src, expected)
}

#[test]
// the declaration of a new environment
fn new_environment() {
    let src = "\\newenvironment{env_name}[1][Leon Fuss]{as#1dfasdf#3} {asdf#2}";
    let args = ExpansionArgs {
        arg_count: 1,
        optional: vec![10..13],
        optional_named: FxHashMap::default(),
    };
    let mut req_expansion = FxHashMap::default();
    req_expansion.insert(1, vec![16]);
    req_expansion.insert(3, vec![18]);
    req_expansion.insert(2, vec![23]);
    let expected = ExpansionStoreItem {
        body: 15..19,
        second_body: Some(22..24),
        name: "env_name",
        kind: DefinitionKind::Environment,
        opt_expansion: FxHashMap::default(),
        req_expansion,
        args,
    };
    check(src, expected)
}

#[test]
fn ranges_give_back_the_text() {
    let src = "\\newcommand{\\name}[1][name = Leon Fuss]{as#name dfasdf#3}";
    let lexed = LexedStr::new(src);
    let (store, errors) = resolve(&lexed);
    assert!(errors.is_empty());
    let item = store.get("\\name").expect("resolved");
    assert_eq!(lexed.text(item.body.clone()), Some("as#name dfasdf#3"));
    let default = item.args.optional_named.get("name").expect("named argument");
    assert_eq!(lexed.text(default.clone()), Some(" Leon Fuss"));
}

#[test]
fn repeated_parameters_keep_their_order() {
    let src = "\\def{\\d}{#2 #1 #2 {#2} #x #x}";
    let lexed = LexedStr::new(src);
    let (store, errors) = resolve(&lexed);
    assert!(errors.is_empty());
    let item = store.get("\\d").expect("resolved");
    assert_eq!(item.kind, DefinitionKind::Def);
    assert_eq!(item.req_expansion.get(&2), Some(&vec![5, 9, 12]));
    assert_eq!(item.req_expansion.get(&1), Some(&vec![7]));
    assert_eq!(item.opt_expansion.get("x"), Some(&vec![15, 17]));
    assert_eq!(item.body, 5..18);
}

#[test]
fn resolving_twice_gives_the_same() {
    let src = "\\newcommand{\\a}[2][x, y]{#1#2} \\newenvironment{e}{a}{b} \\newcommand{\\b}";
    let lexed = LexedStr::new(src);
    let (first, first_errors) = resolve(&lexed);
    let (second, second_errors) = resolve(&lexed);
    assert_eq!(first_errors, second_errors);
    for name in ["\\a", "e", "\\b"] {
        assert_eq!(first.get(name), second.get(name));
    }
    assert!(first.get("\\a").is_some());
    assert!(first.get("e").is_some());
    assert!(first.get("\\b").is_none());
}

#[test]
fn argument_count_is_at_least_the_optional_arguments() {
    let lexed = LexedStr::new("\\newcommand{\\ok}[2][a, b]{} \\newcommand{\\bad}[1][a, b]{}");
    let (store, errors) = resolve(&lexed);
    let ok = store.get("\\ok").expect("resolved");
    assert_eq!(ok.args.arg_count, 2);
    assert_eq!(ok.args.optional.len(), 2);
    assert_eq!(ok.args.required(), 0);
    assert!(store.get("\\bad").is_none());
    assert_eq!(errors.len(), 1);
    assert_eq!(
        errors[0].source,
        ResolverErrorKind::WrongArgumentCount { expected: 1, found: 2 }
    );
}

#[test]
fn failures_leave_the_other_definitions_alone() {
    let src = "\\newcommand{\\a}(x) \\newcommand{\\b}{ok} \\newcommand{\\c}[1][x = [} \\newenvironment{1}{}{} \\newcommand{\\d}{";
    let lexed = LexedStr::new(src);
    let (store, errors) = resolve(&lexed);
    assert!(store.get("\\b").is_some());
    assert!(store.get("\\a").is_none());
    assert_eq!(errors.len(), 4);
    assert_eq!(
        errors[0].source,
        ResolverErrorKind::UnexpectedToken {
            expected: SyntaxKind::OpenBrace,
            found: SyntaxKind::OpenParen
        }
    );
    assert_eq!(
        errors[1].source,
        ResolverErrorKind::UnexpectedOpeningToken(SyntaxKind::OpenBracket)
    );
    assert!(matches!(
        errors[2].source,
        ResolverErrorKind::InvalidName { kind: SyntaxKind::Number, .. }
    ));
    assert_eq!(errors[3].source, ResolverErrorKind::EofReached);
    assert_eq!(errors[3].idx, lexed.len() + 1);
}

#[test]
fn a_count_of_arguments_has_to_fit_sixteen_bits() {
    let lexed = LexedStr::new("\\newcommand{\\a}[65535]{} \\newcommand{\\b}[65536]{} \\def{\\c}{#70000}");
    let (store, errors) = resolve(&lexed);
    assert_eq!(store.get("\\a").map(|it| it.args.arg_count), Some(65535));
    assert!(store.get("\\b").is_none());
    assert!(store.get("\\c").is_none());
    assert_eq!(errors.len(), 2);
    assert_eq!(errors[0].source, ResolverErrorKind::FailedToRetrieveTextRange(15..16));
    assert_eq!(errors[0].idx, 15);
    assert_eq!(errors[1].source, ResolverErrorKind::FailedToRetrieveTextRange(25..26));
}

#[test]
fn a_later_definition_shadows_an_earlier_one() {
    let lexed = LexedStr::new("\\newcommand{\\a}{one} \\newcommand{\\a}{two #1}");
    let (store, errors) = resolve(&lexed);
    assert!(errors.is_empty());
    let item = store.get("\\a").expect("resolved");
    assert_eq!(lexed.text(item.body.clone()), Some("two #1"));
}

#[test]
fn store_by_hand() {
    let mut store = ExpansionStore::new();
    assert!(store.get("x").is_none());
    let mut item = ExpansionStoreItem::empty(DefinitionKind::Environment);
    item.name = "x";
    store.insert(item);
    assert_eq!(store.get("x").map(|it| it.kind), Some(DefinitionKind::Environment));
    assert!(store.get("y").is_none());
}
