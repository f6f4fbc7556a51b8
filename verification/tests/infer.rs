use conlang::infer::{Adt, InferenceEngine, InferenceError, LangItem, TypeKind, TypeTable};
use conlang::typeck::{Expr, Literal, Op, Primitive, Visibility};

fn add(t: &mut TypeTable, k: TypeKind) -> usize {
    let h = t.new_entry(0);
    t.set_ty(h, k);
    h
}

#[test]
fn variables_unify_only_with_variables() {
    let mut t = TypeTable::new();
    let v = add(&mut t, TypeKind::Variable);
    let w = add(&mut t, TypeKind::Variable);
    let i = add(&mut t, TypeKind::Primitive(Primitive::I32));
    let mut e = InferenceEngine::new(t, 0);
    assert_eq!(e.unify(v, w), Ok(()));
    assert_eq!(e.table().ty(v), Some(&TypeKind::Instance(w)));
    assert_eq!(e.prune(v), w);
    assert_eq!(e.def_usage(v), w);
    assert_eq!(e.unify(v, i), Err(InferenceError::Mismatch(w, i)));
    assert_eq!(e.unify(i, v), Err(InferenceError::Mismatch(w, i)));
}

#[test]
fn unify_fills_an_inferred_type() {
    let mut t = TypeTable::new();
    let u = add(&mut t, TypeKind::Inferred);
    let b = add(&mut t, TypeKind::Primitive(Primitive::Bool));
    let r = add(&mut t, TypeKind::Ref(b));
    let mut e = InferenceEngine::new(t, 0);
    assert_eq!(e.unify(u, r), Ok(()));
    assert_eq!(e.table().ty(u), Some(&TypeKind::Ref(b)));
}

#[test]
fn integers_and_floats_do_not_unify() {
    let mut t = TypeTable::new();
    let i = add(&mut t, TypeKind::Primitive(Primitive::Integer));
    let f = add(&mut t, TypeKind::Primitive(Primitive::Float));
    let u = add(&mut t, TypeKind::Primitive(Primitive::U8));
    let mut e = InferenceEngine::new(t, 0);
    assert_eq!(e.unify(i, f), Err(InferenceError::Mismatch(i, f)));
    assert_eq!(e.unify(u, i), Ok(()));
    assert_eq!(e.table().ty(i), Some(&TypeKind::Instance(u)));
    assert_eq!(e.unify(f, u), Err(InferenceError::Mismatch(f, u)));
}

#[test]
fn tuples_unify_member_by_member() {
    let mut t = TypeTable::new();
    let u = add(&mut t, TypeKind::Inferred);
    let i = add(&mut t, TypeKind::Primitive(Primitive::I32));
    let b = add(&mut t, TypeKind::Primitive(Primitive::Bool));
    let x = add(&mut t, TypeKind::Tuple(vec![u, i]));
    let y = add(&mut t, TypeKind::Tuple(vec![b, i]));
    let z = add(&mut t, TypeKind::Tuple(vec![b]));
    let mut e = InferenceEngine::new(t, 0);
    assert_eq!(e.unify(x, z), Err(InferenceError::Mismatch(x, z)));
    assert_eq!(e.unify(x, y), Ok(()));
    assert_eq!(e.table().ty(u), Some(&TypeKind::Primitive(Primitive::Bool)));
    assert_eq!(e.unify(i, b), Err(InferenceError::Mismatch(i, b)));
}

#[test]
fn never_unifies_with_anything() {
    let mut t = TypeTable::new();
    let n = add(&mut t, TypeKind::Primitive(Primitive::Never));
    let s = add(&mut t, TypeKind::Adt(Adt::Struct(vec![(7, Visibility::Public, 0)])));
    let mut e = InferenceEngine::new(t, 0);
    assert_eq!(e.unify(n, s), Ok(()));
    assert_eq!(e.unify(s, n), Ok(()));
}

#[test]
fn structs_need_matching_members() {
    let mut t = TypeTable::new();
    let i = add(&mut t, TypeKind::Primitive(Primitive::I32));
    let u = add(&mut t, TypeKind::Inferred);
    let a = add(&mut t, TypeKind::Adt(Adt::Struct(vec![(1, Visibility::Public, i)])));
    let b = add(&mut t, TypeKind::Adt(Adt::Struct(vec![(2, Visibility::Public, u)])));
    let d = add(&mut t, TypeKind::Adt(Adt::Struct(vec![(1, Visibility::Private, u)])));
    let c = add(&mut t, TypeKind::Adt(Adt::Struct(vec![(1, Visibility::Public, u)])));
    let mut e = InferenceEngine::new(t, 0);
    assert_eq!(e.unify(a, b), Err(InferenceError::Mismatch(a, b)));
    assert_eq!(e.unify(a, d), Err(InferenceError::Mismatch(a, d)));
    assert_eq!(e.unify(a, c), Ok(()));
    assert_eq!(e.table().ty(u), Some(&TypeKind::Primitive(Primitive::I32)));
}

#[test]
fn occurs_check_and_generic_types() {
    let mut t = TypeTable::new();
    let v = add(&mut t, TypeKind::Variable);
    let i = add(&mut t, TypeKind::Primitive(Primitive::I32));
    let tv = add(&mut t, TypeKind::Tuple(vec![i, v]));
    let ti = add(&mut t, TypeKind::Tuple(vec![i, i]));
    let r = add(&mut t, TypeKind::Ref(v));
    let e = InferenceEngine::new(t, 0);
    assert!(e.occurs_in(v, tv));
    assert!(!e.occurs_in(v, ti));
    assert!(!e.occurs_in(v, r));
    assert!(e.is_generic(tv));
    assert!(!e.is_generic(ti));
    assert!(e.is_generic(r));
}

#[test]
fn deep_clone_copies_only_generic_types() {
    let mut t = TypeTable::new();
    let v = add(&mut t, TypeKind::Variable);
    let i = add(&mut t, TypeKind::Primitive(Primitive::I32));
    let tv = add(&mut t, TypeKind::Tuple(vec![i, v]));
    let mut e = InferenceEngine::new(t, 0);
    assert_eq!(e.deep_clone(i), i);
    let c = e.deep_clone(tv);
    assert_ne!(c, tv);
    let fresh = match e.table().ty(c) {
        Some(TypeKind::Tuple(hs)) => {
            assert_eq!(hs[0], i);
            hs[1]
        },
        other => panic!("not a tuple: {:?}", other),
    };
    assert_eq!(e.table().ty(fresh), Some(&TypeKind::Inferred));
    assert_eq!(e.table().parent(c), Some(0));
    let n = e.table().len();
    // a second copy of the same shape is a new inferred type inside a new tuple
    let c2 = e.deep_clone(tv);
    assert_ne!(c2, c);
    assert_eq!(e.table().len(), n + 2);
}

fn engine_with_prims() -> (InferenceEngine, usize, usize, usize) {
    let mut t = TypeTable::new();
    let b = add(&mut t, TypeKind::Primitive(Primitive::Bool));
    let c = add(&mut t, TypeKind::Primitive(Primitive::Char));
    let i = add(&mut t, TypeKind::Primitive(Primitive::I32));
    let mut e = InferenceEngine::new(t, 0);
    e.mark_lang_item(LangItem::Bool, b);
    e.mark_lang_item(LangItem::Char, c);
    e.mark_lang_item(LangItem::I32, i);
    (e, b, c, i)
}

fn lit_int(v: u128) -> Expr {
    Expr::Lit(Literal::Int(v))
}

#[test]
fn infer_tuple_of_literals() {
    let (mut e, b, _, _) = engine_with_prims();
    let n = e.table().len();
    let h = e.infer_expr_op(Op::Tuple, &vec![lit_int(1), Expr::Lit(Literal::Bool(true))]).unwrap();
    assert_eq!(e.table().ty(n), Some(&TypeKind::Primitive(Primitive::Integer)));
    assert_eq!(e.table().ty(h), Some(&TypeKind::Tuple(vec![n, b])));
    assert_eq!(e.infer_expr_op(Op::Tuple, &vec![]).unwrap(), e.infer(&Expr::Omitted).unwrap());
}

#[test]
fn infer_arithmetic_and_comparison() {
    let (mut e, b, c, _) = engine_with_prims();
    let n = e.table().len();
    let h = e.infer_expr_op(Op::Add, &vec![lit_int(1), lit_int(2)]).unwrap();
    assert_eq!(h, n);
    assert_eq!(e.table().ty(n), Some(&TypeKind::Instance(n + 1)));
    assert_eq!(e.infer_expr_op(Op::Lt, &vec![lit_int(1), lit_int(2)]), Ok(b));
    let bad = vec![Expr::Lit(Literal::Bool(true)), Expr::Lit(Literal::Char('x'))];
    assert_eq!(e.infer_expr_op(Op::Add, &bad), Err(InferenceError::Mismatch(b, c)));
}

#[test]
fn infer_if_unifies_both_branches() {
    let (mut e, _, _, _) = engine_with_prims();
    let n = e.table().len();
    let args = vec![Expr::Lit(Literal::Bool(false)), lit_int(1), lit_int(2)];
    let h = e.infer_expr_op(Op::If, &args).unwrap();
    // a scope, the pass literal, a second scope, the fail literal
    assert_eq!(h, n + 1);
    assert_eq!(e.table().parent(n), Some(0));
    assert_eq!(e.table().parent(n + 1), Some(n));
    assert_eq!(e.table().ty(n + 1), Some(&TypeKind::Instance(n + 3)));
}

#[test]
fn infer_arrays() {
    let (mut e, b, _, _) = engine_with_prims();
    let h = e.infer_expr_op(Op::ArRep, &vec![Expr::Lit(Literal::Bool(true)), lit_int(3)]).unwrap();
    assert_eq!(e.table().ty(h), Some(&TypeKind::Array(b, 3)));
    let bad = vec![Expr::Lit(Literal::Bool(true)), Expr::Lit(Literal::Bool(true))];
    assert_eq!(e.infer_expr_op(Op::ArRep, &bad), Err(InferenceError::ConstEval(0)));
    let a = e.infer_expr_op(Op::Array, &vec![lit_int(1), lit_int(2)]).unwrap();
    match e.table().ty(a) {
        Some(TypeKind::Array(out, 2)) => {
            assert!(matches!(e.table().ty(*out), Some(TypeKind::Instance(_))));
        },
        other => panic!("not an array: {:?}", other),
    }
}
