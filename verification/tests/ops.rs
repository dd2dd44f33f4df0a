use hvm_lang::ops::{CoreOp, Opr, UnsupportedOpr};

#[test]
fn addition_converts_and_round_trips() {
    let core = Opr::Add.to_core();
    assert_eq!(core, Ok(CoreOp::Add));
    assert_eq!(core.unwrap().to_opr(), Opr::Add);
}

#[test]
fn unsupported_operators_fail_explicitly() {
    assert_eq!(Opr::Xor.to_core(), Err(UnsupportedOpr(Opr::Xor)));
    assert_eq!(Opr::Shl.to_core(), Err(UnsupportedOpr(Opr::Shl)));
    assert_eq!(Opr::Shr.to_core(), Err(UnsupportedOpr(Opr::Shr)));
}

#[test]
fn every_supported_operator_round_trips() {
    let supported = vec![
        (Opr::Add, CoreOp::Add),
        (Opr::Sub, CoreOp::Sub),
        (Opr::Mul, CoreOp::Mul),
        (Opr::Div, CoreOp::Div),
        (Opr::Mod, CoreOp::Mod),
        (Opr::And, CoreOp::And),
        (Opr::Or, CoreOp::Or),
        (Opr::Ltn, CoreOp::Lt),
        (Opr::Lte, CoreOp::Lte),
        (Opr::Gtn, CoreOp::Gt),
        (Opr::Gte, CoreOp::Gte),
        (Opr::Eql, CoreOp::Eq),
        (Opr::Neq, CoreOp::Neq),
    ];
    for (op, core) in supported {
        assert_eq!(op.to_core(), Ok(core));
        assert_eq!(core.to_opr(), op);
    }
}

#[test]
fn every_runtime_operator_round_trips() {
    let all = vec![
        CoreOp::Add,
        CoreOp::Sub,
        CoreOp::Mul,
        CoreOp::Div,
        CoreOp::Mod,
        CoreOp::Eq,
        CoreOp::Neq,
        CoreOp::Lt,
        CoreOp::Gt,
        CoreOp::Lte,
        CoreOp::Gte,
        CoreOp::And,
        CoreOp::Or,
    ];
    for core in all {
        assert_eq!(core.to_opr().to_core(), Ok(core));
    }
}
