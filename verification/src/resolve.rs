//! The constructor-resolution pass. When a rule is parsed, the whole
//! program's constructor set is not known yet, so a bare identifier in a
//! pattern cannot be told apart from a zero-argument constructor. Once every
//! declaration has been read, this pass rewrites, throughout every rule's
//! parameter patterns, each bare identifier that names a declared constructor
//! into that constructor applied to nothing. The constructor namespace is
//! global: a name declared as a constructor anywhere in the program is never
//! again read as a pattern-bound variable.

use vstd::prelude::*;
use crate::ast::{Definition, DefinitionBook, Pattern, Rule, SpecPat, lemma_pats_view_rec,
    pats_view_rec};
use crate::names::Name;

verus! {

/// The set of declared constructor names, read as character sequences: the
/// oracle the pass consults.
pub open spec fn ctr_set(ctrs: Seq<Name>) -> Set<Seq<char>> {
    Set::new(|v: Seq<char>| exists|i: int| 0 <= i < ctrs.len() && (#[trigger] ctrs[i])@ == v)
}

/// What resolution makes of one pattern shape: a bare identifier naming a
/// declared constructor becomes that constructor applied to nothing;
/// wildcards and numeric matches stay as they are; a constructor pattern
/// keeps its name and arity and is resolved inside its arguments.
pub open spec fn resolve_pat(p: SpecPat, ctrs: Set<Seq<char>>) -> SpecPat
    decreases p, 1int,
{
    match p {
        SpecPat::Ctr(n, args) => SpecPat::Ctr(n, resolve_pats(args, ctrs)),
        SpecPat::U32(v) => SpecPat::U32(v),
        SpecPat::I32(v) => SpecPat::I32(v),
        SpecPat::Var(Some(n)) => if ctrs.contains(n) {
            SpecPat::Ctr(n, Seq::empty())
        } else {
            SpecPat::Var(Some(n))
        },
        SpecPat::Var(None) => SpecPat::Var(None),
    }
}

/// What resolution makes of a list of pattern shapes, element by element.
pub open spec fn resolve_pats(s: Seq<SpecPat>, ctrs: Set<Seq<char>>) -> Seq<SpecPat>
    decreases s, 0int,
{
    if s.len() == 0 {
        Seq::empty()
    } else {
        resolve_pats(s.subrange(0, s.len() - 1), ctrs).push(resolve_pat(s[s.len() - 1], ctrs))
    }
}

/// The element-wise reading of `resolve_pats`.
pub proof fn lemma_resolve_pats(s: Seq<SpecPat>, ctrs: Set<Seq<char>>)
    ensures
        resolve_pats(s, ctrs).len() == s.len(),
        forall|i: int|
            0 <= i < s.len() ==> resolve_pats(s, ctrs)[i] == resolve_pat(#[trigger] s[i], ctrs),
    decreases s.len(),
{
    if s.len() > 0 {
        let sub = s.subrange(0, s.len() - 1);
        lemma_resolve_pats(sub, ctrs);
        assert forall|i: int| 0 <= i < s.len() implies resolve_pats(s, ctrs)[i] == resolve_pat(
            #[trigger] s[i],
            ctrs,
        ) by {
            if i < s.len() - 1 {
                assert(sub[i] == s[i]);
                assert(resolve_pats(s, ctrs)[i] == resolve_pats(sub, ctrs)[i]);
            }
        }
    }
}

/// Whether this name is a declared constructor.
fn is_ctr(nam: &Name, ctrs: &Vec<Name>) -> (r: bool)
    ensures
        r == ctr_set(ctrs@).contains(nam@),
{
    let n = ctrs.len();
    for i in 0..n
        invariant
            n == ctrs@.len(),
            forall|k: int| 0 <= k < i ==> (#[trigger] ctrs@[k])@ != nam@,
    {
        if &ctrs[i] == nam {
            proof {
                assert((ctrs@[i as int])@ == nam@);
            }
            return true;
        }
    }
    false
}

/// Builds the resolved reading of one pattern.
#[verifier::loop_isolation(false)]
fn resolve_pat_exec(p: &Pattern, ctrs: &Vec<Name>) -> (r: Pattern)
    ensures
        r@ == resolve_pat(p@, ctr_set(ctrs@)),
    decreases *p,
{
    match p {
        Pattern::Var(Some(nam)) => {
            if is_ctr(nam, ctrs) {
                Pattern::Ctr(nam.clone(), Vec::new())
            } else {
                Pattern::Var(Some(nam.clone()))
            }
        },
        Pattern::Var(None) => Pattern::Var(None),
        Pattern::U32(v) => Pattern::U32(*v),
        Pattern::I32(v) => Pattern::I32(*v),
        Pattern::Ctr(nam, args) => {
            let mut new_args: Vec<Pattern> = Vec::new();
            let n = args.len();
            for i in 0..n
                invariant
                    n == args@.len(),
                    new_args@.len() == i,
                    forall|k: int|
                        0 <= k < i ==> (#[trigger] new_args@[k])@ == resolve_pat(
                            args@[k]@,
                            ctr_set(ctrs@),
                        ),
                decreases n - i,
            {
                let resolved = resolve_pat_exec(&args[i], ctrs);
                new_args.push(resolved);
            }
            proof {
                lemma_pats_view_rec(args@);
                lemma_pats_view_rec(new_args@);
                lemma_resolve_pats(pats_view_rec(args@), ctr_set(ctrs@));
                assert forall|k: int| 0 <= k < n implies pats_view_rec(new_args@)[k]
                    == resolve_pats(pats_view_rec(args@), ctr_set(ctrs@))[k] by {
                    assert((new_args@[k])@ == resolve_pat(args@[k]@, ctr_set(ctrs@)));
                    assert(pats_view_rec(args@)[k] == args@[k]@);
                }
                assert(pats_view_rec(new_args@) =~= resolve_pats(
                    pats_view_rec(args@),
                    ctr_set(ctrs@),
                ));
            }
            Pattern::Ctr(nam.clone(), new_args)
        },
    }
}

impl Pattern {
    /// Rewrites, throughout this pattern, every bare identifier that names a
    /// declared constructor into that constructor applied to nothing. Total:
    /// no pattern is rejected.
    pub fn resolve_ctrs(&mut self, ctrs: &Vec<Name>)
        ensures
            (*final(self))@ == resolve_pat((*old(self))@, ctr_set(ctrs@)),
    {
        let resolved = resolve_pat_exec(self, ctrs);
        *self = resolved;
    }
}

/// How one resolved rule relates to the rule it came from: same definition
/// handle, same body, and each parameter pattern resolved in place.
pub open spec fn rule_resolved(pre: Rule, post: Rule, ctrs: Set<Seq<char>>) -> bool {
    &&& post.def_id == pre.def_id
    &&& post.body == pre.body
    &&& post.pats@.len() == pre.pats@.len()
    &&& forall|k: int|
        0 <= k < pre.pats@.len() ==> (#[trigger] post.pats@[k])@ == resolve_pat(
            pre.pats@[k]@,
            ctrs,
        )
}

/// How one resolved definition relates to the definition it came from: same
/// handle, and each rule resolved in place.
pub open spec fn def_resolved(pre: Definition, post: Definition, ctrs: Set<Seq<char>>) -> bool {
    &&& post.def_id == pre.def_id
    &&& post.rules@.len() == pre.rules@.len()
    &&& forall|r: int|
        0 <= r < pre.rules@.len() ==> rule_resolved(pre.rules@[r], #[trigger] post.rules@[r], ctrs)
}

/// Resolves every parameter pattern of one rule.
fn resolve_rule(rule: &mut Rule, ctrs: &Vec<Name>)
    ensures
        rule_resolved(*old(rule), *final(rule), ctr_set(ctrs@)),
{
    let n = rule.pats.len();
    for k in 0..n
        invariant
            n == rule.pats@.len(),
            rule.def_id == old(rule).def_id,
            rule.body == old(rule).body,
            forall|j: int|
                0 <= j < k ==> (#[trigger] rule.pats@[j])@ == resolve_pat(
                    old(rule).pats@[j]@,
                    ctr_set(ctrs@),
                ),
            forall|j: int| k <= j < n ==> rule.pats@[j] == old(rule).pats@[j],
    {
        let pat: &mut Pattern = &mut rule.pats[k];
        pat.resolve_ctrs(ctrs);
    }
}

/// Resolves every rule of one definition.
fn resolve_def(def: &mut Definition, ctrs: &Vec<Name>)
    ensures
        def_resolved(*old(def), *final(def), ctr_set(ctrs@)),
{
    let n = def.rules.len();
    for r in 0..n
        invariant
            n == def.rules@.len(),
            def.def_id == old(def).def_id,
            forall|j: int|
                0 <= j < r ==> rule_resolved(
                    old(def).rules@[j],
                    #[trigger] def.rules@[j],
                    ctr_set(ctrs@),
                ),
            forall|j: int| r <= j < n ==> def.rules@[j] == old(def).rules@[j],
    {
        let rule: &mut Rule = &mut def.rules[r];
        resolve_rule(rule, ctrs);
    }
}

impl DefinitionBook {
    /// The constructor-resolution pass over the whole program: every rule's
    /// parameter patterns are resolved against the program's declared
    /// constructor names; the name table, the constructor set, every
    /// definition handle and every rule body stay as they were, and each
    /// rule's result depends on that rule's own patterns alone.
    pub fn resolve_ctrs_in_pats(&mut self)
        ensures
            final(self).def_names == old(self).def_names,
            final(self).ctrs == old(self).ctrs,
            final(self).defs@.len() == old(self).defs@.len(),
            forall|d: int|
                0 <= d < old(self).defs@.len() ==> def_resolved(
                    old(self).defs@[d],
                    #[trigger] final(self).defs@[d],
                    ctr_set(old(self).ctrs@),
                ),
    {
        let n = self.defs.len();
        for d in 0..n
            invariant
                n == self.defs@.len(),
                self.def_names == old(self).def_names,
                self.ctrs == old(self).ctrs,
                forall|j: int|
                    0 <= j < d ==> def_resolved(
                        old(self).defs@[j],
                        #[trigger] self.defs@[j],
                        ctr_set(old(self).ctrs@),
                    ),
                forall|j: int| d <= j < n ==> self.defs@[j] == old(self).defs@[j],
        {
            let def: &mut Definition = &mut self.defs[d];
            resolve_def(def, &self.ctrs);
        }
    }
}

/// Idempotence: resolving a pattern a second time changes nothing, because
/// the only rewrite target — a bare identifier naming a declared constructor
/// — no longer exists after the first resolution.
pub proof fn lemma_resolve_pat_idempotent(p: SpecPat, ctrs: Set<Seq<char>>)
    ensures
        resolve_pat(resolve_pat(p, ctrs), ctrs) == resolve_pat(p, ctrs),
    decreases p, 1int,
{
    match p {
        SpecPat::Ctr(n, args) => {
            lemma_resolve_pats_idempotent(args, ctrs);
        },
        _ => {},
    }
}

/// Idempotence, for a whole pattern list: resolving it a second time changes
/// nothing.
pub proof fn lemma_resolve_pats_idempotent(s: Seq<SpecPat>, ctrs: Set<Seq<char>>)
    ensures
        resolve_pats(resolve_pats(s, ctrs), ctrs) == resolve_pats(s, ctrs),
    decreases s, 0int,
{
    let once = resolve_pats(s, ctrs);
    lemma_resolve_pats(s, ctrs);
    lemma_resolve_pats(once, ctrs);
    assert forall|i: int| 0 <= i < s.len() implies resolve_pats(once, ctrs)[i] == once[i] by {
        lemma_resolve_pat_idempotent(s[i], ctrs);
    }
    assert(resolve_pats(once, ctrs) =~= once);
}

/// Idempotence, at the level of the pass's own contract: a rule that came out
/// of resolution comes out of a second resolution unchanged, so running the
/// pass twice produces the same program as running it once.
pub proof fn lemma_rule_resolved_idempotent(pre: Rule, mid: Rule, post: Rule, ctrs: Set<
    Seq<char>,
>)
    requires
        rule_resolved(pre, mid, ctrs),
        rule_resolved(mid, post, ctrs),
    ensures
        post.def_id == mid.def_id,
        post.body == mid.body,
        pats_view_rec(post.pats@) == pats_view_rec(mid.pats@),
{
    lemma_pats_view_rec(mid.pats@);
    lemma_pats_view_rec(post.pats@);
    assert forall|k: int| 0 <= k < post.pats@.len() implies pats_view_rec(post.pats@)[k]
        == pats_view_rec(mid.pats@)[k] by {
        assert((mid.pats@[k])@ == resolve_pat(pre.pats@[k]@, ctrs));
        assert((post.pats@[k])@ == resolve_pat(mid.pats@[k]@, ctrs));
        lemma_resolve_pat_idempotent(pre.pats@[k]@, ctrs);
    }
    assert(pats_view_rec(post.pats@) =~= pats_view_rec(mid.pats@));
}

/// After resolution, no bare identifier anywhere in the pattern names a
/// declared constructor.
pub open spec fn pat_complete(p: SpecPat, ctrs: Set<Seq<char>>) -> bool
    decreases p, 1int,
{
    match p {
        SpecPat::Ctr(_, args) => pats_complete(args, ctrs),
        SpecPat::U32(_) => true,
        SpecPat::I32(_) => true,
        SpecPat::Var(Some(n)) => !ctrs.contains(n),
        SpecPat::Var(None) => true,
    }
}

/// `pat_complete`, over every pattern of a list.
pub open spec fn pats_complete(s: Seq<SpecPat>, ctrs: Set<Seq<char>>) -> bool
    decreases s, 0int,
{
    if s.len() == 0 {
        true
    } else {
        pats_complete(s.subrange(0, s.len() - 1), ctrs) && pat_complete(s[s.len() - 1], ctrs)
    }
}

/// The element-wise reading of `pats_complete`.
pub proof fn lemma_pats_complete(s: Seq<SpecPat>, ctrs: Set<Seq<char>>)
    ensures
        pats_complete(s, ctrs) <==> (forall|i: int|
            0 <= i < s.len() ==> pat_complete(#[trigger] s[i], ctrs)),
    decreases s.len(),
{
    if s.len() > 0 {
        let sub = s.subrange(0, s.len() - 1);
        lemma_pats_complete(sub, ctrs);
        assert(forall|i: int| 0 <= i < sub.len() ==> #[trigger] s[i] == sub[i]);
    }
}

/// Completeness: resolution leaves no bare identifier that names a declared
/// constructor anywhere in the pattern it returns.
pub proof fn lemma_resolve_pat_complete(p: SpecPat, ctrs: Set<Seq<char>>)
    ensures
        pat_complete(resolve_pat(p, ctrs), ctrs),
    decreases p, 1int,
{
    match p {
        SpecPat::Ctr(n, args) => {
            lemma_resolve_pats_complete(args, ctrs);
        },
        SpecPat::Var(Some(n)) => {
            if ctrs.contains(n) {
                assert(pats_complete(Seq::empty(), ctrs));
            }
        },
        _ => {},
    }
}

/// Completeness, for a whole pattern list.
pub proof fn lemma_resolve_pats_complete(s: Seq<SpecPat>, ctrs: Set<Seq<char>>)
    ensures
        pats_complete(resolve_pats(s, ctrs), ctrs),
    decreases s, 0int,
{
    let post = resolve_pats(s, ctrs);
    lemma_resolve_pats(s, ctrs);
    lemma_pats_complete(post, ctrs);
    assert forall|i: int| 0 <= i < post.len() implies pat_complete(#[trigger] post[i], ctrs) by {
        lemma_resolve_pat_complete(s[i], ctrs);
    }
}

/// Completeness, at the level of the pass's own contract: in a rule that came
/// out of resolution, no bare identifier anywhere in any parameter pattern
/// names a declared constructor.
pub proof fn lemma_rule_resolved_complete(pre: Rule, post: Rule, ctrs: Set<Seq<char>>)
    requires
        rule_resolved(pre, post, ctrs),
    ensures
        forall|k: int| 0 <= k < post.pats@.len() ==> pat_complete((#[trigger] post.pats@[k])@, ctrs),
{
    assert forall|k: int| 0 <= k < post.pats@.len() implies pat_complete(
        (#[trigger] post.pats@[k])@,
        ctrs,
    ) by {
        assert((post.pats@[k])@ == resolve_pat(pre.pats@[k]@, ctrs));
        lemma_resolve_pat_complete(pre.pats@[k]@, ctrs);
    }
}

/// Non-interference: resolution never alters a wildcard or a numeric match,
/// and an explicit constructor pattern keeps its name and its argument count
/// — it is never demoted to a variable; only its sub-patterns are resolved.
pub proof fn lemma_resolve_pat_non_interference(p: SpecPat, ctrs: Set<Seq<char>>)
    ensures
        p matches SpecPat::Var(None) ==> resolve_pat(p, ctrs) == p,
        p matches SpecPat::U32(_) ==> resolve_pat(p, ctrs) == p,
        p matches SpecPat::I32(_) ==> resolve_pat(p, ctrs) == p,
        p matches SpecPat::Ctr(n, args) ==> resolve_pat(p, ctrs) == SpecPat::Ctr(
            n,
            resolve_pats(args, ctrs),
        ) && resolve_pats(args, ctrs).len() == args.len(),
{
    if let SpecPat::Ctr(n, args) = p {
        lemma_resolve_pats(args, ctrs);
    }
}

/// Locality: what resolution makes of a rule is a function of that rule's own
/// patterns and the constructor set alone, so resolving one rule can never
/// change another — two rules with the same patterns resolve to the same
/// patterns, whatever stands around them.
pub proof fn lemma_resolve_locality(
    pre_a: Rule,
    post_a: Rule,
    pre_b: Rule,
    post_b: Rule,
    ctrs: Set<Seq<char>>,
)
    requires
        rule_resolved(pre_a, post_a, ctrs),
        rule_resolved(pre_b, post_b, ctrs),
        pats_view_rec(pre_a.pats@) == pats_view_rec(pre_b.pats@),
    ensures
        pats_view_rec(post_a.pats@) == pats_view_rec(post_b.pats@),
{
    lemma_pats_view_rec(pre_a.pats@);
    lemma_pats_view_rec(pre_b.pats@);
    lemma_pats_view_rec(post_a.pats@);
    lemma_pats_view_rec(post_b.pats@);
    assert(pre_a.pats@.len() == pre_b.pats@.len());
    assert forall|i: int| 0 <= i < post_a.pats@.len() implies pats_view_rec(post_a.pats@)[i]
        == pats_view_rec(post_b.pats@)[i] by {
        assert(pats_view_rec(pre_a.pats@)[i] == pre_a.pats@[i]@);
        assert(pats_view_rec(pre_b.pats@)[i] == pre_b.pats@[i]@);
        assert((post_a.pats@[i])@ == resolve_pat(pre_a.pats@[i]@, ctrs));
        assert((post_b.pats@[i])@ == resolve_pat(pre_b.pats@[i]@, ctrs));
        assert(pats_view_rec(post_a.pats@)[i] == post_a.pats@[i]@);
        assert(pats_view_rec(post_b.pats@)[i] == post_b.pats@[i]@);
    }
    assert(pats_view_rec(post_a.pats@) =~= pats_view_rec(post_b.pats@));
}

} // verus!
