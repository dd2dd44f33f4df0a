//! The pretty-printer: renders operators, patterns, terms, rules,
//! definitions and whole programs to the surface syntax. It is a display
//! format for diagnostics and golden tests, not a serialization format.

use vstd::prelude::*;
use vstd::string::StringExecFns;
use crate::ast::{Definition, DefinitionBook, Pattern, Rule, SpecPat, Term, pats_view_rec};
use crate::names::{DefNames, Name};
use crate::ops::Opr;

verus! {

/// The decimal digit character of one digit value.
pub open spec fn dec_digit(d: int) -> char {
    if d == 0 {
        '0'
    } else if d == 1 {
        '1'
    } else if d == 2 {
        '2'
    } else if d == 3 {
        '3'
    } else if d == 4 {
        '4'
    } else if d == 5 {
        '5'
    } else if d == 6 {
        '6'
    } else if d == 7 {
        '7'
    } else if d == 8 {
        '8'
    } else {
        '9'
    }
}

/// The plain decimal rendering of an unsigned number.
pub open spec fn u32_dec(n: int) -> Seq<char>
    decreases n,
{
    if n < 10 {
        seq![dec_digit(n)]
    } else {
        u32_dec(n / 10).push(dec_digit(n % 10))
    }
}

/// The decimal rendering of a signed number, always with an explicit sign.
pub open spec fn i32_dec(v: i32) -> Seq<char> {
    if v >= 0 {
        seq!['+'] + u32_dec(v as int)
    } else {
        seq!['-'] + u32_dec(-(v as int))
    }
}

/// The surface symbol of a numeric operator.
pub open spec fn opr_str(op: Opr) -> Seq<char> {
    match op {
        Opr::Add => seq!['+'],
        Opr::Sub => seq!['-'],
        Opr::Mul => seq!['*'],
        Opr::Div => seq!['/'],
        Opr::Mod => seq!['%'],
        Opr::And => seq!['&'],
        Opr::Or => seq!['|'],
        Opr::Xor => seq!['^'],
        Opr::Shl => seq!['<', '<'],
        Opr::Shr => seq!['>', '>'],
        Opr::Ltn => seq!['<'],
        Opr::Lte => seq!['<', '='],
        Opr::Gtn => seq!['>'],
        Opr::Gte => seq!['>', '='],
        Opr::Eql => seq!['=', '='],
        Opr::Neq => seq!['!', '='],
    }
}

/// A binder position: the bound name, or a star for a wildcard.
pub open spec fn name_or_star(n: Option<Name>) -> Seq<char> {
    match n {
        Some(nam) => nam@,
        None => seq!['*'],
    }
}

/// The rendering of one pattern shape: a constructor as its name and
/// arguments in parentheses, numbers in decimal (signed ones with an explicit
/// sign), a bound name as itself, a wildcard as a star.
pub open spec fn pat_str(p: SpecPat) -> Seq<char>
    decreases p, 1int,
{
    match p {
        SpecPat::Ctr(n, args) => seq!['('] + n + pats_str(args) + seq![')'],
        SpecPat::U32(v) => u32_dec(v as int),
        SpecPat::I32(v) => i32_dec(v),
        SpecPat::Var(Some(n)) => n,
        SpecPat::Var(None) => seq!['*'],
    }
}

/// The rendering of a pattern list: each pattern prefixed by one space.
pub open spec fn pats_str(s: Seq<SpecPat>) -> Seq<char>
    decreases s, 0int,
{
    if s.len() == 0 {
        Seq::empty()
    } else {
        pats_str(s.subrange(0, s.len() - 1)) + seq![' '] + pat_str(s[s.len() - 1])
    }
}

/// Whether every top-level reference within the term is a key of the name
/// table; rendering a dangling reference is a programming error, not an
/// input error, so rendering demands this.
pub open spec fn term_refs_bound(t: Term, m: Map<u64, Seq<char>>) -> bool
    decreases t,
{
    match t {
        Term::Lam { nam, bod } => term_refs_bound(*bod, m),
        Term::Var { nam } => true,
        Term::Chn { nam, bod } => term_refs_bound(*bod, m),
        Term::Lnk { nam } => true,
        Term::Ref { def_id } => m.contains_key(def_id.0),
        Term::App { fun, arg } => term_refs_bound(*fun, m) && term_refs_bound(*arg, m),
        Term::Dup { fst, snd, val, nxt } => term_refs_bound(*val, m) && term_refs_bound(*nxt, m),
        Term::U32 { val } => true,
        Term::I32 { val } => true,
        Term::Opx { op, fst, snd } => term_refs_bound(*fst, m) && term_refs_bound(*snd, m),
        Term::Sup { fst, snd } => term_refs_bound(*fst, m) && term_refs_bound(*snd, m),
        Term::Era => true,
    }
}

/// The rendering of one term, given the name table's forward index.
pub open spec fn term_str(t: Term, m: Map<u64, Seq<char>>) -> Seq<char>
    decreases t,
{
    match t {
        Term::Lam { nam, bod } => seq!['λ'] + name_or_star(nam) + seq![' '] + term_str(*bod, m),
        Term::Var { nam } => nam@,
        Term::Chn { nam, bod } => seq!['λ', '$'] + nam@ + seq![' '] + term_str(*bod, m),
        Term::Lnk { nam } => seq!['$'] + nam@,
        Term::Ref { def_id } => m[def_id.0],
        Term::App { fun, arg } => seq!['('] + term_str(*fun, m) + seq![' '] + term_str(*arg, m)
            + seq![')'],
        Term::Dup { fst, snd, val, nxt } => seq!['d', 'u', 'p', ' '] + name_or_star(fst)
            + seq![' '] + name_or_star(snd) + seq![' ', '=', ' '] + term_str(*val, m)
            + seq![';', ' '] + term_str(*nxt, m),
        Term::U32 { val } => u32_dec(val as int),
        Term::I32 { val } => i32_dec(val),
        Term::Opx { op, fst, snd } => seq!['('] + opr_str(op) + seq![' '] + term_str(*fst, m)
            + seq![' '] + term_str(*snd, m) + seq![')'],
        Term::Sup { fst, snd } => seq!['{'] + term_str(*fst, m) + seq![' '] + term_str(*snd, m)
            + seq!['}'],
        Term::Era => seq!['*'],
    }
}

/// Whether a rule can be rendered against this name table: its definition id
/// is named, and its body holds no dangling reference.
pub open spec fn rule_refs_bound(r: Rule, m: Map<u64, Seq<char>>) -> bool {
    m.contains_key(r.def_id.0) && term_refs_bound(r.body, m)
}

/// `rule_refs_bound`, over every rule of a definition.
pub open spec fn def_refs_bound(d: Definition, m: Map<u64, Seq<char>>) -> bool {
    forall|i: int| 0 <= i < d.rules@.len() ==> rule_refs_bound(#[trigger] d.rules@[i], m)
}

/// `def_refs_bound`, over every definition of a program.
pub open spec fn book_refs_bound(defs: Seq<Definition>, m: Map<u64, Seq<char>>) -> bool {
    forall|i: int| 0 <= i < defs.len() ==> def_refs_bound(#[trigger] defs[i], m)
}

/// The rendering of one rule: its definition's name and its patterns in
/// parentheses, an equals sign, then its body.
pub open spec fn rule_str(r: Rule, m: Map<u64, Seq<char>>) -> Seq<char> {
    seq!['('] + m[r.def_id.0] + pats_str(pats_view_rec(r.pats@)) + seq![')', ' ', '=', ' ']
        + term_str(r.body, m)
}

/// The rendering of a definition's rules, one after the other.
pub open spec fn rules_str(s: Seq<Rule>, m: Map<u64, Seq<char>>) -> Seq<char>
    decreases s,
{
    if s.len() == 0 {
        Seq::empty()
    } else {
        rules_str(s.subrange(0, s.len() - 1), m) + rule_str(s[s.len() - 1], m)
    }
}

/// The rendering of a program's definitions, separated by line breaks.
pub open spec fn defs_str(s: Seq<Definition>, m: Map<u64, Seq<char>>) -> Seq<char>
    decreases s,
{
    if s.len() == 0 {
        Seq::empty()
    } else if s.len() == 1 {
        rules_str(s[0].rules@, m)
    } else {
        defs_str(s.subrange(0, s.len() - 1), m) + seq!['\n'] + rules_str(s[s.len() - 1].rules@, m)
    }
}

/// Appends one decimal digit.
fn push_digit(out: &mut String, d: u32)
    requires
        d < 10,
    ensures
        final(out)@ == old(out)@ + seq![dec_digit(d as int)],
{
    proof {
        reveal_strlit("0");
        reveal_strlit("1");
        reveal_strlit("2");
        reveal_strlit("3");
        reveal_strlit("4");
        reveal_strlit("5");
        reveal_strlit("6");
        reveal_strlit("7");
        reveal_strlit("8");
        reveal_strlit("9");
    }
    let s: &str = if d == 0 {
        "0"
    } else if d == 1 {
        "1"
    } else if d == 2 {
        "2"
    } else if d == 3 {
        "3"
    } else if d == 4 {
        "4"
    } else if d == 5 {
        "5"
    } else if d == 6 {
        "6"
    } else if d == 7 {
        "7"
    } else if d == 8 {
        "8"
    } else {
        "9"
    };
    proof {
        assert(s@ =~= seq![dec_digit(d as int)]);
    }
    out.append(s);
}

/// Appends the plain decimal rendering of an unsigned number.
fn push_u32(out: &mut String, v: u32)
    ensures
        final(out)@ == old(out)@ + u32_dec(v as int),
    decreases v,
{
    if v >= 10 {
        push_u32(out, v / 10);
    }
    push_digit(out, v % 10);
    proof {
        assert(out@ =~= old(out)@ + u32_dec(v as int));
    }
}

/// Appends the decimal rendering of a signed number, sign included.
fn push_i32(out: &mut String, v: i32)
    ensures
        final(out)@ == old(out)@ + i32_dec(v),
{
    if v >= 0 {
        proof {
            reveal_strlit("+");
            assert("+"@ =~= seq!['+']);
        }
        out.append("+");
        push_u32(out, v as u32);
    } else {
        proof {
            reveal_strlit("-");
            assert("-"@ =~= seq!['-']);
        }
        out.append("-");
        let mag: i64 = 0i64 - (v as i64);
        proof {
            assert(0 < mag <= u32::MAX as i64);
        }
        push_u32(out, mag as u32);
    }
    proof {
        assert(out@ =~= old(out)@ + i32_dec(v));
    }
}

/// Appends the surface symbol of an operator.
fn push_opr(out: &mut String, op: &Opr)
    ensures
        final(out)@ == old(out)@ + opr_str(*op),
{
    proof {
        reveal_strlit("+");
        reveal_strlit("-");
        reveal_strlit("*");
        reveal_strlit("/");
        reveal_strlit("%");
        reveal_strlit("&");
        reveal_strlit("|");
        reveal_strlit("^");
        reveal_strlit("<<");
        reveal_strlit(">>");
        reveal_strlit("<");
        reveal_strlit("<=");
        reveal_strlit(">");
        reveal_strlit(">=");
        reveal_strlit("==");
        reveal_strlit("!=");
    }
    let s: &str = match op {
        Opr::Add => "+",
        Opr::Sub => "-",
        Opr::Mul => "*",
        Opr::Div => "/",
        Opr::Mod => "%",
        Opr::And => "&",
        Opr::Or => "|",
        Opr::Xor => "^",
        Opr::Shl => "<<",
        Opr::Shr => ">>",
        Opr::Ltn => "<",
        Opr::Lte => "<=",
        Opr::Gtn => ">",
        Opr::Gte => ">=",
        Opr::Eql => "==",
        Opr::Neq => "!=",
    };
    proof {
        assert(s@ =~= opr_str(*op));
    }
    out.append(s);
}

impl Opr {
    /// Renders the operator's surface symbol.
    pub fn to_string(&self) -> (r: String)
        ensures
            r@ == opr_str(*self),
    {
        let mut out = String::new();
        push_opr(&mut out, self);
        out
    }
}

/// Appends the rendering of one pattern.
#[verifier::loop_isolation(false)]
fn push_pat(out: &mut String, p: &Pattern)
    ensures
        final(out)@ == old(out)@ + pat_str(p@),
    decreases *p,
{
    match p {
        Pattern::Ctr(nam, args) => {
            proof {
                reveal_strlit("(");
                reveal_strlit(")");
                assert("("@ =~= seq!['(']);
                assert(")"@ =~= seq![')']);
            }
            out.append("(");
            out.append(nam.0.as_str());
            push_pats(out, args);
            out.append(")");
            proof {
                assert(out@ =~= old(out)@ + pat_str(p@));
            }
        },
        Pattern::U32(v) => {
            push_u32(out, *v);
        },
        Pattern::I32(v) => {
            push_i32(out, *v);
        },
        Pattern::Var(Some(nam)) => {
            out.append(nam.0.as_str());
        },
        Pattern::Var(None) => {
            proof {
                reveal_strlit("*");
                assert("*"@ =~= seq!['*']);
            }
            out.append("*");
        },
    }
}

/// Appends the rendering of a pattern list, one space before each pattern.
#[verifier::loop_isolation(false)]
fn push_pats(out: &mut String, pats: &Vec<Pattern>)
    ensures
        final(out)@ == old(out)@ + pats_str(pats_view_rec(pats@)),
    decreases *pats,
{
    let n = pats.len();
    for i in 0..n
        invariant
            n == pats@.len(),
            out@ == old(out)@ + pats_str(pats_view_rec(pats@.subrange(0, i as int))),
    {
        proof {
            reveal_strlit(" ");
            assert(" "@ =~= seq![' ']);
        }
        out.append(" ");
        push_pat(out, &pats[i]);
        proof {
            let pre = pats@.subrange(0, i as int);
            let cur = pats@.subrange(0, i + 1);
            assert(cur.subrange(0, cur.len() - 1) =~= pre);
            assert(cur[cur.len() - 1] == pats@[i as int]);
            let pv = pats_view_rec(cur);
            assert(pv == pats_view_rec(pre).push(pats@[i as int]@));
            assert(pv.subrange(0, pv.len() - 1) =~= pats_view_rec(pre));
            assert(pv[pv.len() - 1] == pats@[i as int]@);
            assert(out@ =~= old(out)@ + pats_str(pv));
        }
    }
    proof {
        assert(pats@.subrange(0, n as int) =~= pats@);
    }
}

impl Pattern {
    /// Renders the pattern in its surface form.
    pub fn to_string(&self) -> (r: String)
        ensures
            r@ == pat_str(self@),
    {
        let mut out = String::new();
        push_pat(&mut out, self);
        out
    }
}

/// Appends the rendering of one term.
fn push_term(out: &mut String, t: &Term, def_names: &DefNames)
    requires
        def_names.wf(),
        term_refs_bound(*t, def_names@),
    ensures
        final(out)@ == old(out)@ + term_str(*t, def_names@),
    decreases *t,
{
    match t {
        Term::Lam { nam, bod } => {
            proof {
                reveal_strlit("λ");
                reveal_strlit("*");
                reveal_strlit(" ");
                assert("λ"@ =~= seq!['λ']);
                assert("*"@ =~= seq!['*']);
                assert(" "@ =~= seq![' ']);
            }
            out.append("λ");
            match nam {
                Some(n) => out.append(n.0.as_str()),
                None => out.append("*"),
            }
            out.append(" ");
            push_term(out, bod, def_names);
            proof {
                assert(out@ =~= old(out)@ + term_str(*t, def_names@));
            }
        },
        Term::Var { nam } => {
            out.append(nam.0.as_str());
        },
        Term::Chn { nam, bod } => {
            proof {
                reveal_strlit("λ$");
                reveal_strlit(" ");
                assert("λ$"@ =~= seq!['λ', '$']);
                assert(" "@ =~= seq![' ']);
            }
            out.append("λ$");
            out.append(nam.0.as_str());
            out.append(" ");
            push_term(out, bod, def_names);
            proof {
                assert(out@ =~= old(out)@ + term_str(*t, def_names@));
            }
        },
        Term::Lnk { nam } => {
            proof {
                reveal_strlit("$");
                assert("$"@ =~= seq!['$']);
            }
            out.append("$");
            out.append(nam.0.as_str());
            proof {
                assert(out@ =~= old(out)@ + term_str(*t, def_names@));
            }
        },
        Term::Ref { def_id } => {
            let nam = def_names.name_of(*def_id).unwrap();
            out.append(nam.0.as_str());
        },
        Term::App { fun, arg } => {
            proof {
                reveal_strlit("(");
                reveal_strlit(" ");
                reveal_strlit(")");
                assert("("@ =~= seq!['(']);
                assert(" "@ =~= seq![' ']);
                assert(")"@ =~= seq![')']);
            }
            out.append("(");
            push_term(out, fun, def_names);
            out.append(" ");
            push_term(out, arg, def_names);
            out.append(")");
            proof {
                assert(out@ =~= old(out)@ + term_str(*t, def_names@));
            }
        },
        Term::Dup { fst, snd, val, nxt } => {
            proof {
                reveal_strlit("dup ");
                reveal_strlit("*");
                reveal_strlit(" ");
                reveal_strlit(" = ");
                reveal_strlit("; ");
                assert("dup "@ =~= seq!['d', 'u', 'p', ' ']);
                assert("*"@ =~= seq!['*']);
                assert(" "@ =~= seq![' ']);
                assert(" = "@ =~= seq![' ', '=', ' ']);
                assert("; "@ =~= seq![';', ' ']);
            }
            out.append("dup ");
            match fst {
                Some(n) => out.append(n.0.as_str()),
                None => out.append("*"),
            }
            out.append(" ");
            match snd {
                Some(n) => out.append(n.0.as_str()),
                None => out.append("*"),
            }
            out.append(" = ");
            push_term(out, val, def_names);
            out.append("; ");
            push_term(out, nxt, def_names);
            proof {
                assert(out@ =~= old(out)@ + term_str(*t, def_names@));
            }
        },
        Term::U32 { val } => {
            push_u32(out, *val);
        },
        Term::I32 { val } => {
            push_i32(out, *val);
        },
        Term::Opx { op, fst, snd } => {
            proof {
                reveal_strlit("(");
                reveal_strlit(" ");
                reveal_strlit(")");
                assert("("@ =~= seq!['(']);
                assert(" "@ =~= seq![' ']);
                assert(")"@ =~= seq![')']);
            }
            out.append("(");
            push_opr(out, op);
            out.append(" ");
            push_term(out, fst, def_names);
            out.append(" ");
            push_term(out, snd, def_names);
            out.append(")");
            proof {
                assert(out@ =~= old(out)@ + term_str(*t, def_names@));
            }
        },
        Term::Sup { fst, snd } => {
            proof {
                reveal_strlit("{");
                reveal_strlit(" ");
                reveal_strlit("}");
                assert("{"@ =~= seq!['{']);
                assert(" "@ =~= seq![' ']);
                assert("}"@ =~= seq!['}']);
            }
            out.append("{");
            push_term(out, fst, def_names);
            out.append(" ");
            push_term(out, snd, def_names);
            out.append("}");
            proof {
                assert(out@ =~= old(out)@ + term_str(*t, def_names@));
            }
        },
        Term::Era => {
            proof {
                reveal_strlit("*");
                assert("*"@ =~= seq!['*']);
            }
            out.append("*");
        },
    }
}

impl Term {
    /// Renders the term in its surface form, looking definition names up in
    /// the table; every reference in the term must be a key of the table.
    pub fn to_string(&self, def_names: &DefNames) -> (r: String)
        requires
            def_names.wf(),
            term_refs_bound(*self, def_names@),
        ensures
            r@ == term_str(*self, def_names@),
    {
        let mut out = String::new();
        push_term(&mut out, self, def_names);
        out
    }
}

/// Appends the rendering of one rule.
fn push_rule(out: &mut String, rule: &Rule, def_names: &DefNames)
    requires
        def_names.wf(),
        rule_refs_bound(*rule, def_names@),
    ensures
        final(out)@ == old(out)@ + rule_str(*rule, def_names@),
{
    proof {
        reveal_strlit("(");
        reveal_strlit(") = ");
        assert("("@ =~= seq!['(']);
        assert(") = "@ =~= seq![')', ' ', '=', ' ']);
    }
    out.append("(");
    let nam = def_names.name_of(rule.def_id).unwrap();
    out.append(nam.0.as_str());
    push_pats(out, &rule.pats);
    out.append(") = ");
    push_term(out, &rule.body, def_names);
    proof {
        assert(out@ =~= old(out)@ + rule_str(*rule, def_names@));
    }
}

impl Rule {
    /// Renders the rule in its surface form.
    pub fn to_string(&self, def_names: &DefNames) -> (r: String)
        requires
            def_names.wf(),
            rule_refs_bound(*self, def_names@),
        ensures
            r@ == rule_str(*self, def_names@),
    {
        let mut out = String::new();
        push_rule(&mut out, self, def_names);
        out
    }
}

/// Appends the rendering of one definition: its rules, one after the other.
#[verifier::loop_isolation(false)]
fn push_def(out: &mut String, def: &Definition, def_names: &DefNames)
    requires
        def_names.wf(),
        def_refs_bound(*def, def_names@),
    ensures
        final(out)@ == old(out)@ + rules_str(def.rules@, def_names@),
{
    let n = def.rules.len();
    for r in 0..n
        invariant
            n == def.rules@.len(),
            out@ == old(out)@ + rules_str(def.rules@.subrange(0, r as int), def_names@),
    {
        push_rule(out, &def.rules[r], def_names);
        proof {
            let pre = def.rules@.subrange(0, r as int);
            let cur = def.rules@.subrange(0, r + 1);
            assert(cur.subrange(0, cur.len() - 1) =~= pre);
            assert(cur[cur.len() - 1] == def.rules@[r as int]);
            assert(out@ =~= old(out)@ + rules_str(cur, def_names@));
        }
    }
    proof {
        assert(def.rules@.subrange(0, n as int) =~= def.rules@);
    }
}

impl Definition {
    /// Renders the definition: its rules, one after the other.
    pub fn to_string(&self, def_names: &DefNames) -> (r: String)
        requires
            def_names.wf(),
            def_refs_bound(*self, def_names@),
        ensures
            r@ == rules_str(self.rules@, def_names@),
    {
        let mut out = String::new();
        push_def(&mut out, self, def_names);
        out
    }
}

impl DefinitionBook {
    /// Renders the whole program: its definitions, separated by line breaks.
    #[verifier::loop_isolation(false)]
    pub fn to_string(&self, def_names: &DefNames) -> (r: String)
        requires
            def_names.wf(),
            book_refs_bound(self.defs@, def_names@),
        ensures
            r@ == defs_str(self.defs@, def_names@),
    {
        let mut out = String::new();
        let n = self.defs.len();
        for d in 0..n
            invariant
                n == self.defs@.len(),
                out@ == defs_str(self.defs@.subrange(0, d as int), def_names@),
        {
            if d > 0 {
                proof {
                    reveal_strlit("\n");
                    assert("\n"@ =~= seq!['\n']);
                }
                out.append("\n");
            }
            push_def(&mut out, &self.defs[d], def_names);
            proof {
                let pre = self.defs@.subrange(0, d as int);
                let cur = self.defs@.subrange(0, d + 1);
                assert(cur.subrange(0, cur.len() - 1) =~= pre);
                assert(cur[cur.len() - 1] == self.defs@[d as int]);
                assert(out@ =~= defs_str(cur, def_names@));
            }
        }
        proof {
            assert(self.defs@.subrange(0, n as int) =~= self.defs@);
        }
        out
    }
}

} // verus!
