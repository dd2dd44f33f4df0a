//! The term/pattern model: the closed set of node shapes for rule patterns
//! and for definition bodies, and the containers that aggregate them into a
//! whole program.

use vstd::prelude::*;
use crate::names::{DefId, DefNames, Name};
use crate::ops::Opr;

verus! {

/// One parameter pattern of a rewrite rule.
#[derive(Debug, PartialEq)]
pub enum Pattern {
    /// Application of a data constructor to zero or more sub-patterns.
    Ctr(Name, Vec<Pattern>),
    /// A literal unsigned machine-number match.
    U32(u32),
    /// A literal signed machine-number match.
    I32(i32),
    /// A bound bare identifier, or a wildcard that binds nothing if the name
    /// is absent.
    Var(Option<Name>),
}

/// The mathematical shape of a `Pattern`: names as character sequences,
/// argument lists as sequences.
pub enum SpecPat {
    Ctr(Seq<char>, Seq<SpecPat>),
    U32(u32),
    I32(i32),
    Var(Option<Seq<char>>),
}

/// The shape of a pattern, recursively over its constructor arguments.
pub open spec fn pat_view(p: Pattern) -> SpecPat
    decreases p, 1int,
{
    match p {
        Pattern::Ctr(n, args) => SpecPat::Ctr(n@, pats_view_rec(args@)),
        Pattern::U32(v) => SpecPat::U32(v),
        Pattern::I32(v) => SpecPat::I32(v),
        Pattern::Var(Some(n)) => SpecPat::Var(Some(n@)),
        Pattern::Var(None) => SpecPat::Var(None),
    }
}

/// The shapes of a list of patterns, element by element.
pub open spec fn pats_view_rec(s: Seq<Pattern>) -> Seq<SpecPat>
    decreases s, 0int,
{
    if s.len() == 0 {
        Seq::empty()
    } else {
        pats_view_rec(s.subrange(0, s.len() - 1)).push(pat_view(s[s.len() - 1]))
    }
}

/// The element-wise reading of `pats_view_rec`.
pub proof fn lemma_pats_view_rec(s: Seq<Pattern>)
    ensures
        pats_view_rec(s).len() == s.len(),
        forall|i: int| 0 <= i < s.len() ==> pats_view_rec(s)[i] == pat_view(#[trigger] s[i]),
    decreases s.len(),
{
    if s.len() > 0 {
        let sub = s.subrange(0, s.len() - 1);
        lemma_pats_view_rec(sub);
        assert forall|i: int| 0 <= i < s.len() implies pats_view_rec(s)[i] == pat_view(
            #[trigger] s[i],
        ) by {
            if i < s.len() - 1 {
                assert(sub[i] == s[i]);
                assert(pats_view_rec(s)[i] == pats_view_rec(sub)[i]);
            }
        }
    }
}

impl View for Pattern {
    type V = SpecPat;

    open spec fn view(&self) -> SpecPat {
        pat_view(*self)
    }
}

/// One body expression of a rewrite rule.
#[derive(Debug, PartialEq)]
pub enum Term {
    /// A lambda; its bound name, if any, is visible only inside its own body.
    Lam { nam: Option<Name>, bod: Box<Term> },
    /// A reference to a lexically bound variable.
    Var { nam: Name },
    /// A channel binder: like a lambda, but the bound name may occur outside
    /// the body, anywhere in the same top-level definition.
    Chn { nam: Name, bod: Box<Term> },
    /// The use of a channel-bound name.
    Lnk { nam: Name },
    /// A reference to a top-level definition.
    Ref { def_id: DefId },
    /// An application of a function to an argument.
    App { fun: Box<Term>, arg: Box<Term> },
    /// A duplication binder: `fst` and `snd` both alias the value of `val`
    /// and are in scope over `nxt` only.
    Dup { fst: Option<Name>, snd: Option<Name>, val: Box<Term>, nxt: Box<Term> },
    /// An unsigned machine-number literal.
    U32 { val: u32 },
    /// A signed machine-number literal.
    I32 { val: i32 },
    /// A numeric operation between built-in numbers.
    Opx { op: Opr, fst: Box<Term>, snd: Box<Term> },
    /// A superposition: two simultaneous alternative values.
    Sup { fst: Box<Term>, snd: Box<Term> },
    /// An explicit discard marker.
    Era,
}

/// One rewrite rule: for a definition, an ordered list of parameter patterns
/// and the body they rewrite to. Rules of one definition are tried in
/// declaration order.
#[derive(Debug, PartialEq)]
pub struct Rule {
    pub def_id: DefId,
    pub pats: Vec<Pattern>,
    pub body: Term,
}

/// One top-level definition: its handle and its ordered rules.
#[derive(Debug, PartialEq)]
pub struct Definition {
    pub def_id: DefId,
    pub rules: Vec<Rule>,
}

/// A whole program: the definition-name table, every definition, and the set
/// of declared constructor names that the resolution pass reads.
#[derive(Debug)]
pub struct DefinitionBook {
    pub def_names: DefNames,
    pub defs: Vec<Definition>,
    pub ctrs: Vec<Name>,
}

impl DefinitionBook {
    pub fn new() -> (r: Self)
        ensures
            r.def_names.wf(),
            r.def_names@ == Map::<u64, Seq<char>>::empty(),
            r.defs@ == Seq::<Definition>::empty(),
            r.ctrs@ == Seq::<Name>::empty(),
    {
        DefinitionBook { def_names: DefNames::new(), defs: Vec::new(), ctrs: Vec::new() }
    }
}

impl Default for DefinitionBook {
    fn default() -> (r: Self)
        ensures
            r.def_names.wf(),
            r.def_names@ == Map::<u64, Seq<char>>::empty(),
            r.defs@ == Seq::<Definition>::empty(),
            r.ctrs@ == Seq::<Name>::empty(),
    {
        DefinitionBook::new()
    }
}

} // verus!
