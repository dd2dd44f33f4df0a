use hvm_lang::ast::{Definition, DefinitionBook, Pattern, Rule, Term};
use hvm_lang::names::{DefId, DefNames, Name};
use hvm_lang::ops::Opr;

fn name(s: &str) -> Name {
    Name(String::from(s))
}

fn b(t: Term) -> Box<Term> {
    Box::new(t)
}

#[test]
fn zero_argument_constructor_renders_in_parentheses() {
    let pat = Pattern::Ctr(name("Nil"), vec![]);
    assert_eq!(pat.to_string(), "(Nil)");
}

#[test]
fn wildcard_renders_as_star() {
    assert_eq!(Pattern::Var(None).to_string(), "*");
}

#[test]
fn signed_literals_render_with_explicit_sign() {
    assert_eq!(Pattern::I32(-3).to_string(), "-3");
    assert_eq!(Pattern::I32(3).to_string(), "+3");
    assert_eq!(Pattern::I32(0).to_string(), "+0");
    assert_eq!(Pattern::I32(i32::MIN).to_string(), "-2147483648");
    assert_eq!(Pattern::I32(i32::MAX).to_string(), "+2147483647");
}

#[test]
fn unsigned_literals_render_plain() {
    assert_eq!(Pattern::U32(7).to_string(), "7");
    assert_eq!(Pattern::U32(0).to_string(), "0");
    assert_eq!(Pattern::U32(1230).to_string(), "1230");
    assert_eq!(Pattern::U32(u32::MAX).to_string(), "4294967295");
}

#[test]
fn constructor_arguments_render_space_separated() {
    let pat = Pattern::Ctr(
        name("Cons"),
        vec![Pattern::Var(Some(name("x"))), Pattern::Var(None), Pattern::U32(2)],
    );
    assert_eq!(pat.to_string(), "(Cons x * 2)");
}

#[test]
fn bound_variable_renders_as_its_name() {
    assert_eq!(Pattern::Var(Some(name("head"))).to_string(), "head");
}

#[test]
fn operator_symbols() {
    let cases: Vec<(Opr, &str)> = vec![
        (Opr::Add, "+"),
        (Opr::Sub, "-"),
        (Opr::Mul, "*"),
        (Opr::Div, "/"),
        (Opr::Mod, "%"),
        (Opr::And, "&"),
        (Opr::Or, "|"),
        (Opr::Xor, "^"),
        (Opr::Shl, "<<"),
        (Opr::Shr, ">>"),
        (Opr::Ltn, "<"),
        (Opr::Lte, "<="),
        (Opr::Gtn, ">"),
        (Opr::Gte, ">="),
        (Opr::Eql, "=="),
        (Opr::Neq, "!="),
    ];
    for (op, expected) in cases {
        assert_eq!(op.to_string(), expected);
    }
}

#[test]
fn lambda_and_application_render() {
    let names = DefNames::new();
    let t = Term::Lam {
        nam: Some(name("x")),
        bod: b(Term::App {
            fun: b(Term::Var { nam: name("x") }),
            arg: b(Term::Var { nam: name("x") }),
        }),
    };
    assert_eq!(t.to_string(&names), "λx (x x)");
    let unnamed = Term::Lam { nam: None, bod: b(Term::Era) };
    assert_eq!(unnamed.to_string(&names), "λ* *");
}

#[test]
fn channel_binder_and_link_render() {
    let names = DefNames::new();
    let t = Term::Chn { nam: name("a"), bod: b(Term::Lnk { nam: name("a") }) };
    assert_eq!(t.to_string(&names), "λ$a $a");
}

#[test]
fn duplication_renders() {
    let names = DefNames::new();
    let t = Term::Dup {
        fst: Some(name("p")),
        snd: None,
        val: b(Term::U32 { val: 5 }),
        nxt: b(Term::Var { nam: name("p") }),
    };
    assert_eq!(t.to_string(&names), "dup p * = 5; p");
}

#[test]
fn superposition_erasure_and_numbers_render() {
    let names = DefNames::new();
    let t = Term::Sup { fst: b(Term::U32 { val: 1 }), snd: b(Term::I32 { val: -2 }) };
    assert_eq!(t.to_string(&names), "{1 -2}");
    assert_eq!(Term::Era.to_string(&names), "*");
}

#[test]
fn numeric_operation_renders_prefix() {
    let names = DefNames::new();
    let t = Term::Opx {
        op: Opr::Add,
        fst: b(Term::U32 { val: 1 }),
        snd: b(Term::U32 { val: 2 }),
    };
    assert_eq!(t.to_string(&names), "(+ 1 2)");
}

#[test]
fn reference_renders_as_definition_name() {
    let mut names = DefNames::new();
    assert!(names.insert(DefId(4), name("Main")));
    let t = Term::Ref { def_id: DefId(4) };
    assert_eq!(t.to_string(&names), "Main");
}

#[test]
fn rule_renders_head_and_body() {
    let mut names = DefNames::new();
    assert!(names.insert(DefId(0), name("Id")));
    let rule = Rule {
        def_id: DefId(0),
        pats: vec![Pattern::Var(Some(name("x")))],
        body: Term::Var { nam: name("x") },
    };
    assert_eq!(rule.to_string(&names), "(Id x) = x");
}

#[test]
fn definition_renders_rules_back_to_back() {
    let mut names = DefNames::new();
    assert!(names.insert(DefId(0), name("F")));
    let def = Definition {
        def_id: DefId(0),
        rules: vec![
            Rule { def_id: DefId(0), pats: vec![Pattern::U32(0)], body: Term::U32 { val: 1 } },
            Rule { def_id: DefId(0), pats: vec![Pattern::Var(None)], body: Term::U32 { val: 0 } },
        ],
    };
    assert_eq!(def.to_string(&names), "(F 0) = 1(F *) = 0");
}

#[test]
fn book_renders_definitions_line_by_line() {
    let mut book = DefinitionBook::new();
    assert!(book.def_names.insert(DefId(0), name("A")));
    assert!(book.def_names.insert(DefId(1), name("B")));
    book.defs.push(Definition {
        def_id: DefId(0),
        rules: vec![Rule { def_id: DefId(0), pats: vec![], body: Term::Era }],
    });
    book.defs.push(Definition {
        def_id: DefId(1),
        rules: vec![Rule { def_id: DefId(1), pats: vec![], body: Term::Ref { def_id: DefId(0) } }],
    });
    let rendered = book.to_string(&book.def_names);
    assert_eq!(rendered, "(A) = *\n(B) = A");
}
