//! The numeric-operator enumeration and its conversion to and from the
//! external runtime's operator set. The runtime's operators are modeled by
//! `CoreOp`, a one-to-one mirror that the application layer maps onto the
//! runtime's own representation; conversion out of `Opr` is deliberately
//! partial and fails fast on operators the runtime does not support.

use vstd::prelude::*;

verus! {

/// A numeric operator, for built-in machine numbers.
#[derive(Debug, Clone, Copy, PartialEq, Eq, Structural)]
pub enum Opr {
    Add,
    Sub,
    Mul,
    Div,
    Mod,
    And,
    Or,
    Xor,
    Shl,
    Shr,
    Ltn,
    Lte,
    Gtn,
    Gte,
    Eql,
    Neq,
}

/// The external runtime's operator set, mirrored one variant per runtime
/// operator. The application layer converts it one-to-one to the runtime's
/// own representation.
#[derive(Debug, Clone, Copy, PartialEq, Eq, Structural)]
pub enum CoreOp {
    Add,
    Sub,
    Mul,
    Div,
    Mod,
    Eq,
    Neq,
    Lt,
    Gt,
    Lte,
    Gte,
    And,
    Or,
}

/// The fail-fast signal for an operator the external runtime does not
/// support: carries the offending operator.
#[derive(Debug, Clone, Copy, PartialEq, Eq, Structural)]
pub struct UnsupportedOpr(pub Opr);

/// Which runtime operator an internal operator converts to; the operators the
/// runtime lacks convert to the fail-fast error instead.
pub open spec fn opr_to_core(op: Opr) -> Result<CoreOp, UnsupportedOpr> {
    match op {
        Opr::Add => Ok(CoreOp::Add),
        Opr::Sub => Ok(CoreOp::Sub),
        Opr::Mul => Ok(CoreOp::Mul),
        Opr::Div => Ok(CoreOp::Div),
        Opr::Mod => Ok(CoreOp::Mod),
        Opr::And => Ok(CoreOp::And),
        Opr::Or => Ok(CoreOp::Or),
        Opr::Xor => Err(UnsupportedOpr(op)),
        Opr::Shl => Err(UnsupportedOpr(op)),
        Opr::Shr => Err(UnsupportedOpr(op)),
        Opr::Ltn => Ok(CoreOp::Lt),
        Opr::Lte => Ok(CoreOp::Lte),
        Opr::Gtn => Ok(CoreOp::Gt),
        Opr::Gte => Ok(CoreOp::Gte),
        Opr::Eql => Ok(CoreOp::Eq),
        Opr::Neq => Ok(CoreOp::Neq),
    }
}

/// Which internal operator a runtime operator converts to; total, covering
/// every runtime operator.
pub open spec fn core_to_opr(op: CoreOp) -> Opr {
    match op {
        CoreOp::Add => Opr::Add,
        CoreOp::Sub => Opr::Sub,
        CoreOp::Mul => Opr::Mul,
        CoreOp::Div => Opr::Div,
        CoreOp::Mod => Opr::Mod,
        CoreOp::Eq => Opr::Eql,
        CoreOp::Neq => Opr::Neq,
        CoreOp::Lt => Opr::Ltn,
        CoreOp::Gt => Opr::Gtn,
        CoreOp::Lte => Opr::Lte,
        CoreOp::Gte => Opr::Gte,
        CoreOp::And => Opr::And,
        CoreOp::Or => Opr::Or,
    }
}

impl Opr {
    /// Converts to the runtime's operator set; fails fast, rather than
    /// substituting a wrong code, on the operators the runtime lacks.
    pub fn to_core(self) -> (r: Result<CoreOp, UnsupportedOpr>)
        ensures
            r == opr_to_core(self),
    {
        match self {
            Opr::Add => Ok(CoreOp::Add),
            Opr::Sub => Ok(CoreOp::Sub),
            Opr::Mul => Ok(CoreOp::Mul),
            Opr::Div => Ok(CoreOp::Div),
            Opr::Mod => Ok(CoreOp::Mod),
            Opr::And => Ok(CoreOp::And),
            Opr::Or => Ok(CoreOp::Or),
            Opr::Xor => Err(UnsupportedOpr(self)),
            Opr::Shl => Err(UnsupportedOpr(self)),
            Opr::Shr => Err(UnsupportedOpr(self)),
            Opr::Ltn => Ok(CoreOp::Lt),
            Opr::Lte => Ok(CoreOp::Lte),
            Opr::Gtn => Ok(CoreOp::Gt),
            Opr::Gte => Ok(CoreOp::Gte),
            Opr::Eql => Ok(CoreOp::Eq),
            Opr::Neq => Ok(CoreOp::Neq),
        }
    }
}

impl CoreOp {
    /// Converts from the runtime's operator set; total in this direction.
    pub fn to_opr(self) -> (r: Opr)
        ensures
            r == core_to_opr(self),
    {
        match self {
            CoreOp::Add => Opr::Add,
            CoreOp::Sub => Opr::Sub,
            CoreOp::Mul => Opr::Mul,
            CoreOp::Div => Opr::Div,
            CoreOp::Mod => Opr::Mod,
            CoreOp::Eq => Opr::Eql,
            CoreOp::Neq => Opr::Neq,
            CoreOp::Lt => Opr::Ltn,
            CoreOp::Gt => Opr::Gtn,
            CoreOp::Lte => Opr::Lte,
            CoreOp::Gte => Opr::Gte,
            CoreOp::And => Opr::And,
            CoreOp::Or => Opr::Or,
        }
    }
}

/// Every internal operator the runtime supports round-trips: converting it
/// out and back gives the operator itself; the rest fail with the error that
/// carries them, and nothing else fails.
pub proof fn lemma_opr_round_trip(op: Opr)
    ensures
        opr_to_core(op) matches Ok(c) ==> core_to_opr(c) == op,
        opr_to_core(op) matches Err(e) ==> e == UnsupportedOpr(op),
        opr_to_core(op) is Err <==> (op == Opr::Xor || op == Opr::Shl || op == Opr::Shr),
{
}

/// Every runtime operator round-trips: converting it in and back out gives
/// the operator itself, so the inward direction is total and injective.
pub proof fn lemma_core_round_trip(c: CoreOp)
    ensures
        opr_to_core(core_to_opr(c)) == Ok::<CoreOp, UnsupportedOpr>(c),
{
}

} // verus!
