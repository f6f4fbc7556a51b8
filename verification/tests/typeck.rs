use conlang::typeck::{
    const_eval_bin, DefID, ValueKind, BinOp, ConstEval, Expr, Intrinsic, List, Literal, Op, Primitive, Value,
};

#[test]
fn value_views() {
    assert_eq!(Value::UInt(5).int_value(), Some(5));
    assert_eq!(Value::Int(-1).uint(), Some(u128::MAX));
    assert_eq!(Value::Bool(true).int_value(), None);
    assert_eq!(Value::Int(0).bool(), Some(false));
    assert_eq!(Value::UInt(3).bool(), Some(true));
    assert_eq!(Value::Bool(false).bool(), Some(false));
}

#[test]
fn value_equality_ignores_signedness() {
    assert!(Value::Int(-1) == Value::UInt(u128::MAX));
    assert!(Value::UInt(7) == Value::Int(7));
    assert!(Value::Bool(true) != Value::Int(1));
    assert!(Value::Bool(true) == Value::Bool(true));
}

#[test]
fn value_from() {
    assert_eq!(Value::from(3i128).int_value(), Some(3));
    assert_eq!(Value::from(4u128).uint(), Some(4));
    assert_eq!(Value::from(true).bool(), Some(true));
}

#[test]
fn value_neg_not() {
    assert_eq!(Value::Int(5).neg().int_value(), Some(-5));
    assert_eq!(Value::UInt(1).neg().uint(), Some(u128::MAX));
    assert_eq!(Value::Bool(true).neg().bool(), Some(false));
    assert_eq!(Value::Int(0).not().int_value(), Some(-1));
    assert_eq!(Value::UInt(0).not().uint(), Some(u128::MAX));
    assert_eq!(Value::Bool(false).not().bool(), Some(true));
}

fn bin(op: BinOp, l: Value, r: Value) -> Option<Value> {
    const_eval_bin(op, &[Some(l), Some(r)])
}

#[test]
fn binary_arithmetic_wraps() {
    assert_eq!(bin(BinOp::Add, Value::Int(2), Value::Int(3)).unwrap().int_value(), Some(5));
    assert_eq!(bin(BinOp::Add, Value::UInt(u128::MAX), Value::UInt(1)).unwrap().uint(), Some(0));
    assert_eq!(bin(BinOp::Mul, Value::Int(i128::MAX), Value::Int(2)).unwrap().int_value(), Some(-2));
    assert_eq!(bin(BinOp::Sub, Value::UInt(0), Value::UInt(1)).unwrap().uint(), Some(u128::MAX));
    assert_eq!(bin(BinOp::Div, Value::Int(-7), Value::Int(2)).unwrap().int_value(), Some(-3));
    assert_eq!(bin(BinOp::Rem, Value::Int(-7), Value::Int(2)).unwrap().int_value(), Some(-1));
    assert_eq!(bin(BinOp::Div, Value::Int(i128::MIN), Value::Int(-1)).unwrap().int_value(), Some(i128::MIN));
    assert_eq!(bin(BinOp::Shl, Value::UInt(1), Value::UInt(129)).unwrap().uint(), Some(2));
    assert_eq!(bin(BinOp::Shr, Value::Int(-8), Value::Int(1)).unwrap().int_value(), Some(-4));
}

#[test]
fn binary_bitwise_and_comparisons() {
    assert_eq!(bin(BinOp::And, Value::Int(6), Value::UInt(3)).unwrap().int_value(), Some(2));
    assert_eq!(bin(BinOp::Or, Value::UInt(4), Value::Int(1)).unwrap().uint(), Some(5));
    assert_eq!(bin(BinOp::Xor, Value::Int(5), Value::Bool(true)), None);
    assert_eq!(bin(BinOp::Eq, Value::Int(1), Value::UInt(1)).unwrap().bool(), Some(true));
    assert_eq!(bin(BinOp::Neq, Value::Int(1), Value::UInt(1)).unwrap().bool(), Some(false));
    assert_eq!(bin(BinOp::Lt, Value::Int(1), Value::Int(2)), None);
}

#[test]
fn binary_needs_two_known_operands() {
    assert_eq!(const_eval_bin(BinOp::Add, &[Some(Value::Int(1))]), None);
    assert_eq!(const_eval_bin(BinOp::Add, &[Some(Value::Int(1)), None]), None);
}

fn lit(v: u128) -> Expr {
    Expr::Lit(Literal::Int(v))
}

#[test]
fn literal_const_eval() {
    assert_eq!(Literal::Int(4).const_eval().unwrap().uint(), Some(4));
    assert_eq!(Literal::Bool(true).const_eval().unwrap().bool(), Some(true));
    assert!(Literal::Char('c').const_eval().is_none());
    assert!(Literal::Str("s".to_string()).const_eval().is_none());
}

#[test]
fn expr_const_eval() {
    let e = Expr::Op(Op::Add, vec![lit(2), Expr::Op(Op::Mul, vec![lit(3), lit(4)])]);
    assert_eq!(e.const_eval().unwrap().uint(), Some(14));
    let g = Expr::Op(Op::Group, vec![lit(9)]);
    assert_eq!(g.const_eval().unwrap().uint(), Some(9));
    let d = Expr::Op(Op::Do, vec![lit(1), lit(2)]);
    assert_eq!(d.const_eval().unwrap().uint(), Some(2));
    let c = Expr::Op(
        Op::If,
        vec![Expr::Lit(Literal::Bool(false)), lit(1), lit(2)],
    );
    assert_eq!(c.const_eval().unwrap().uint(), Some(2));
    let n = Expr::Op(Op::Neg, vec![lit(1)]);
    assert_eq!(n.const_eval().unwrap().uint(), Some(u128::MAX));
    assert!(Expr::Omitted.const_eval().is_none());
}

#[test]
fn primitive_kinds() {
    assert!(Primitive::I32.is_integer());
    assert!(Primitive::Integer.is_integer());
    assert!(!Primitive::F64.is_integer());
    assert!(Primitive::F64.is_float());
    assert!(Primitive::Float.is_float());
    assert!(!Primitive::Bool.is_float());
}

#[test]
fn primitive_names() {
    assert_eq!(Primitive::from_str("i64"), Ok(Primitive::I64));
    assert_eq!(Primitive::from_str("fsize"), Ok(Primitive::Fsize));
    assert_eq!(Primitive::from_str("str"), Ok(Primitive::Str));
    assert_eq!(Primitive::from_str("bogus"), Err(()));
}

#[test]
fn intrinsic_names() {
    assert_eq!(Intrinsic::from_str("usize"), Ok(Intrinsic::Usize));
    assert_eq!(Intrinsic::from_str("char"), Ok(Intrinsic::Char));
    assert_eq!(Intrinsic::from_str("i128"), Err(()));
}

#[test]
fn list_walks_innermost_first() {
    let root: List<u32> = List::Nil;
    let a = root.enter(1);
    let b = a.enter(2);
    let mut it = b.iter();
    assert_eq!(it.next(), Some(&2));
    assert_eq!(it.next(), Some(&1));
    assert_eq!(it.next(), None);
    assert!(b.parent().is_some());
    assert!(root.parent().is_none());
    assert_eq!(b.to_path(), vec![1, 2]);
}

#[test]
fn intrinsic_round_trip() {
    for name in ["i8", "i16", "i32", "i64", "isize", "u8", "u16", "u32", "u64", "usize", "bool", "char"] {
        let i = Intrinsic::from_str(name).unwrap();
        assert_eq!(i.as_str(), name);
    }
}

#[test]
fn value_kind_text() {
    assert_eq!(ValueKind::Const(DefID(3)).to_text(), "const (3)");
    assert_eq!(ValueKind::Fn(DefID(10)).to_text(), "fn def (10)");
    assert_eq!(ValueKind::Local(DefID(0)).to_text(), "let (0)");
}

#[test]
fn negation_and_not_undo_themselves() {
    for v in [Value::Int(5), Value::UInt(7), Value::Bool(true)] {
        assert!(v.neg().neg() == v);
        assert!(v.not().not() == v);
    }
}

#[test]
fn list_new_holds_one_entry() {
    let l = List::new(7u32);
    assert_eq!(l.to_path(), vec![7]);
    assert!(l.parent().unwrap().parent().is_none());
    let m = l.enter(8);
    assert_eq!(m.to_path(), vec![7, 8]);
}
