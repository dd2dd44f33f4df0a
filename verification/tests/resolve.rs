use hvm_lang::ast::{Definition, DefinitionBook, Pattern, Rule, Term};
use hvm_lang::names::{DefId, Name};

fn name(s: &str) -> Name {
    Name(String::from(s))
}

fn var(s: &str) -> Pattern {
    Pattern::Var(Some(name(s)))
}

fn ctr0(s: &str) -> Pattern {
    Pattern::Ctr(name(s), vec![])
}

fn book_with(pats_per_rule: Vec<Vec<Pattern>>, ctrs: Vec<&str>) -> DefinitionBook {
    let mut book = DefinitionBook::new();
    for (i, pats) in pats_per_rule.into_iter().enumerate() {
        let id = DefId(i as u64);
        book.def_names.insert(id, name(&format!("Def{}", i)));
        book.defs.push(Definition {
            def_id: id,
            rules: vec![Rule { def_id: id, pats, body: Term::Era }],
        });
    }
    book.ctrs = ctrs.into_iter().map(name).collect();
    book
}

#[test]
fn scenario_list_constructors() {
    let mut book = book_with(
        vec![vec![var("Cons"), var("x"), Pattern::Var(None)]],
        vec!["Cons", "Nil"],
    );
    book.resolve_ctrs_in_pats();
    assert_eq!(
        book.defs[0].rules[0].pats,
        vec![ctr0("Cons"), var("x"), Pattern::Var(None)]
    );
}

#[test]
fn scenario_nested_arguments() {
    let mut pat = Pattern::Ctr(name("Pair"), vec![var("Nil"), var("y")]);
    let ctrs = vec![name("Nil")];
    pat.resolve_ctrs(&ctrs);
    assert_eq!(pat, Pattern::Ctr(name("Pair"), vec![ctr0("Nil"), var("y")]));
}

#[test]
fn scenario_empty_oracle_is_noop() {
    let pats = || vec![var("Cons"), var("x"), Pattern::Var(None), Pattern::U32(3)];
    let mut book = book_with(vec![pats()], vec![]);
    book.resolve_ctrs_in_pats();
    assert_eq!(book.defs[0].rules[0].pats, pats());
}

#[test]
fn resolution_is_idempotent() {
    let mut once = book_with(
        vec![vec![var("Cons"), Pattern::Ctr(name("Pair"), vec![var("Nil"), var("z")])]],
        vec!["Cons", "Nil"],
    );
    once.resolve_ctrs_in_pats();
    let mut twice = book_with(
        vec![vec![var("Cons"), Pattern::Ctr(name("Pair"), vec![var("Nil"), var("z")])]],
        vec!["Cons", "Nil"],
    );
    twice.resolve_ctrs_in_pats();
    twice.resolve_ctrs_in_pats();
    assert_eq!(once.defs[0].rules[0].pats, twice.defs[0].rules[0].pats);
}

#[test]
fn resolution_is_local_to_each_rule() {
    let mut book = book_with(
        vec![vec![var("Nil")], vec![var("keep"), Pattern::I32(-1)]],
        vec!["Nil"],
    );
    book.resolve_ctrs_in_pats();
    assert_eq!(book.defs[0].rules[0].pats, vec![ctr0("Nil")]);
    assert_eq!(book.defs[1].rules[0].pats, vec![var("keep"), Pattern::I32(-1)]);
}

#[test]
fn resolution_never_touches_wildcards_numbers_or_explicit_ctrs() {
    let nested = Pattern::Ctr(name("Cons"), vec![var("Nil"), Pattern::Var(None)]);
    let mut book = book_with(
        vec![vec![Pattern::Var(None), Pattern::U32(7), Pattern::I32(-3), nested]],
        vec!["Nil", "Cons"],
    );
    book.resolve_ctrs_in_pats();
    assert_eq!(
        book.defs[0].rules[0].pats,
        vec![
            Pattern::Var(None),
            Pattern::U32(7),
            Pattern::I32(-3),
            Pattern::Ctr(name("Cons"), vec![ctr0("Nil"), Pattern::Var(None)]),
        ]
    );
}

#[test]
fn resolution_reaches_every_depth() {
    let mut pat = Pattern::Ctr(
        name("A"),
        vec![Pattern::Ctr(name("B"), vec![Pattern::Ctr(name("C"), vec![var("Nil")])])],
    );
    let ctrs = vec![name("Nil")];
    pat.resolve_ctrs(&ctrs);
    assert_eq!(
        pat,
        Pattern::Ctr(
            name("A"),
            vec![Pattern::Ctr(name("B"), vec![Pattern::Ctr(name("C"), vec![ctr0("Nil")])])],
        )
    );
}

#[test]
fn resolved_rule_renders_constructor_pattern() {
    let id = DefId(0);
    let mut book = DefinitionBook::new();
    assert!(book.def_names.insert(id, name("Main")));
    book.defs.push(Definition {
        def_id: id,
        rules: vec![Rule { def_id: id, pats: vec![var("Nil"), var("rest")], body: Term::Era }],
    });
    book.ctrs = vec![name("Nil")];
    book.resolve_ctrs_in_pats();
    let rendered = book.defs[0].rules[0].to_string(&book.def_names);
    assert_eq!(rendered, "(Main (Nil) rest) = *");
}

#[test]
fn resolution_keeps_bodies_names_and_order() {
    let id = DefId(9);
    let mut book = DefinitionBook::new();
    book.def_names.insert(id, name("Main"));
    book.defs.push(Definition {
        def_id: id,
        rules: vec![
            Rule { def_id: id, pats: vec![var("Nil")], body: Term::U32 { val: 1 } },
            Rule { def_id: id, pats: vec![var("x")], body: Term::U32 { val: 2 } },
        ],
    });
    book.ctrs = vec![name("Nil")];
    book.resolve_ctrs_in_pats();
    assert_eq!(book.defs[0].def_id, id);
    assert_eq!(book.defs[0].rules.len(), 2);
    assert_eq!(book.defs[0].rules[0].body, Term::U32 { val: 1 });
    assert_eq!(book.defs[0].rules[1].body, Term::U32 { val: 2 });
    assert_eq!(book.defs[0].rules[0].pats, vec![ctr0("Nil")]);
    assert_eq!(book.defs[0].rules[1].pats, vec![var("x")]);
    assert_eq!(book.def_names.name_of(id), Some(&name("Main")));
}
