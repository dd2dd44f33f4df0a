use hvm_lang::ast::DefinitionBook;
use hvm_lang::names::{DefId, DefNames, Name};

fn name(s: &str) -> Name {
    Name(String::from(s))
}

#[test]
fn insert_and_look_up_both_ways() {
    let mut names = DefNames::new();
    assert!(names.insert(DefId(1), name("Main")));
    assert!(names.insert(DefId(2), name("Aux")));
    assert_eq!(names.name_of(DefId(1)), Some(&name("Main")));
    assert_eq!(names.name_of(DefId(2)), Some(&name("Aux")));
    assert_eq!(names.id_of(&name("Main")), Some(DefId(1)));
    assert_eq!(names.id_of(&name("Aux")), Some(DefId(2)));
    assert_eq!(names.name_of(DefId(3)), None);
    assert_eq!(names.id_of(&name("Gone")), None);
}

#[test]
fn duplicate_id_is_refused() {
    let mut names = DefNames::new();
    assert!(names.insert(DefId(1), name("Main")));
    assert!(!names.insert(DefId(1), name("Other")));
    assert_eq!(names.name_of(DefId(1)), Some(&name("Main")));
    assert_eq!(names.id_of(&name("Other")), None);
}

#[test]
fn duplicate_name_is_refused() {
    let mut names = DefNames::new();
    assert!(names.insert(DefId(1), name("Main")));
    assert!(!names.insert(DefId(2), name("Main")));
    assert_eq!(names.id_of(&name("Main")), Some(DefId(1)));
    assert_eq!(names.name_of(DefId(2)), None);
}

#[test]
fn containment_follows_insertion() {
    let mut names = DefNames::new();
    assert!(!names.contains_id(DefId(7)));
    assert!(!names.contains_name(&name("X")));
    assert!(names.insert(DefId(7), name("X")));
    assert!(names.contains_id(DefId(7)));
    assert!(names.contains_name(&name("X")));
}

#[test]
fn new_book_is_empty() {
    let book = DefinitionBook::new();
    assert!(book.defs.is_empty());
    assert!(book.ctrs.is_empty());
    assert!(!book.def_names.contains_id(DefId(0)));
    let defaulted = DefinitionBook::default();
    assert!(defaulted.defs.is_empty());
}
