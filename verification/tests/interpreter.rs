use conlang::interpreter::{Builtin, BuiltIn, ConValue, Dbg, Dump, Environment, Error, Print};

fn int_of(r: Result<ConValue, Error>) -> i128 {
    match r {
        Ok(ConValue::Int(v)) => v,
        other => panic!("expected an integer, got {other:?}"),
    }
}

fn boolean(r: Result<ConValue, Error>) -> bool {
    match r {
        Ok(ConValue::Bool(v)) => v,
        other => panic!("expected a boolean, got {other:?}"),
    }
}

fn type_error<T: std::fmt::Debug>(r: Result<T, Error>) -> bool {
    matches!(r, Err(Error::TypeError))
}

#[test]
fn integer_arithmetic() {
    assert_eq!(int_of(ConValue::Int(2).add(ConValue::Int(3))), 5);
    assert_eq!(int_of(ConValue::Int(2).sub(ConValue::Int(3))), -1);
    assert_eq!(int_of(ConValue::Int(-4).mul(ConValue::Int(3))), -12);
    assert_eq!(int_of(ConValue::Int(-7).div(ConValue::Int(2))), -3);
    assert_eq!(int_of(ConValue::Int(-7).rem(ConValue::Int(2))), -1);
    assert_eq!(int_of(ConValue::Int(7).rem(ConValue::Int(-2))), 1);
    assert_eq!(int_of(ConValue::Int(1).shl(ConValue::Int(4))), 16);
    assert_eq!(int_of(ConValue::Int(-16).shr(ConValue::Int(2))), -4);
    assert_eq!(int_of(ConValue::Int(6).bitand(ConValue::Int(3))), 2);
    assert_eq!(int_of(ConValue::Int(6).bitor(ConValue::Int(3))), 7);
    assert_eq!(int_of(ConValue::Int(6).bitxor(ConValue::Int(3))), 5);
}

#[test]
fn boolean_bitwise() {
    assert!(!boolean(ConValue::Bool(true).bitand(ConValue::Bool(false))));
    assert!(boolean(ConValue::Bool(true).bitor(ConValue::Bool(false))));
    assert!(boolean(ConValue::Bool(true).bitxor(ConValue::Bool(false))));
    assert!(type_error(ConValue::Bool(true).add(ConValue::Bool(false))));
}

#[test]
fn strings_concatenate() {
    match ConValue::String("ab".into()).add(ConValue::String("cd".into())) {
        Ok(ConValue::String(s)) => assert_eq!(s, "abcd"),
        other => panic!("{other:?}"),
    }
    assert!(type_error(ConValue::String("ab".into()).sub(ConValue::String("cd".into()))));
}

#[test]
fn empty_values() {
    assert!(matches!(ConValue::Empty.add(ConValue::Empty), Ok(ConValue::Empty)));
    assert!(matches!(ConValue::Empty.neg(), Ok(ConValue::Empty)));
    assert!(type_error(ConValue::Empty.add(ConValue::Int(1))));
}

#[test]
fn unary_operators() {
    assert_eq!(int_of(ConValue::Int(5).neg()), -5);
    assert_eq!(int_of(ConValue::Int(0).not()), -1);
    assert!(!boolean(ConValue::Bool(true).not()));
    assert!(type_error(ConValue::Char('a').neg()));
    assert!(type_error(ConValue::Bool(true).neg()));
}

#[test]
fn compound_assignment() {
    let mut v = ConValue::Int(10);
    v.add_assign(ConValue::Int(5)).unwrap();
    assert!(matches!(v, ConValue::Int(15)));
    v.mul_assign(ConValue::Int(2)).unwrap();
    assert!(matches!(v, ConValue::Int(30)));
    v.sub_assign(ConValue::Int(1)).unwrap();
    v.div_assign(ConValue::Int(2)).unwrap();
    v.rem_assign(ConValue::Int(5)).unwrap();
    assert!(matches!(v, ConValue::Int(4)));
    v.shl_assign(ConValue::Int(1)).unwrap();
    v.shr_assign(ConValue::Int(2)).unwrap();
    v.bitand_assign(ConValue::Int(3)).unwrap();
    v.bitor_assign(ConValue::Int(4)).unwrap();
    v.bitxor_assign(ConValue::Int(1)).unwrap();
    assert!(matches!(v, ConValue::Int(7)));
    // a failed operation leaves the target empty
    assert!(v.add_assign(ConValue::Bool(true)).is_err());
    assert!(matches!(v, ConValue::Empty));
}

#[test]
fn comparisons() {
    assert!(boolean(ConValue::Int(1).lt(&ConValue::Int(2))));
    assert!(boolean(ConValue::Int(2).lt_eq(&ConValue::Int(2))));
    assert!(!boolean(ConValue::Int(2).gt(&ConValue::Int(2))));
    assert!(boolean(ConValue::Int(3).gt_eq(&ConValue::Int(2))));
    assert!(boolean(ConValue::Char('a').lt(&ConValue::Char('b'))));
    assert!(boolean(ConValue::Bool(false).lt(&ConValue::Bool(true))));
    assert!(boolean(ConValue::String("abc".into()).lt(&ConValue::String("abd".into()))));
    assert!(boolean(ConValue::String("ab".into()).lt(&ConValue::String("abc".into()))));
    assert!(!boolean(ConValue::String("b".into()).lt(&ConValue::String("abc".into()))));
    assert!(boolean(ConValue::String("x".into()).eq(&ConValue::String("x".into()))));
    assert!(boolean(ConValue::Empty.eq(&ConValue::Empty)));
    assert!(!boolean(ConValue::Empty.neq(&ConValue::Empty)));
    assert!(boolean(ConValue::Empty.lt_eq(&ConValue::Empty)));
    assert!(!boolean(ConValue::Empty.lt(&ConValue::Empty)));
    assert!(type_error(ConValue::Int(1).lt(&ConValue::Bool(true))));
}

#[test]
fn truthiness_and_ranges() {
    assert_eq!(ConValue::Bool(true).truthy().unwrap(), true);
    assert!(type_error(ConValue::Int(1).truthy()));
    assert!(matches!(ConValue::Int(1).range_exc(ConValue::Int(5)), Ok(ConValue::RangeExc(1, 4))));
    assert!(matches!(
        ConValue::Int(1).range_exc(ConValue::Int(i128::MIN)),
        Ok(ConValue::RangeExc(1, i128::MIN))
    ));
    assert!(matches!(ConValue::Int(1).range_inc(ConValue::Int(5)), Ok(ConValue::RangeInc(1, 5))));
    assert!(type_error(ConValue::Int(1).range_inc(ConValue::Bool(true))));
}

#[test]
fn builtin_names() {
    assert_eq!(Print.name(), "print");
    assert_eq!(Dbg.name(), "dbg");
    assert_eq!(Dump.name(), "dump");
    assert_eq!(Builtin::Dbg(Dbg).name(), "dbg");
}

#[test]
fn new_environment_has_builtins() {
    let env = Environment::new();
    assert!(matches!(env.get("print"), Ok(ConValue::BuiltIn(Builtin::Print(_)))));
    assert!(matches!(env.get("dump"), Ok(ConValue::BuiltIn(Builtin::Dump(_)))));
    assert!(matches!(env.get("nothing"), Err(Error::NotDefined(s)) if s == "nothing"));
    let names: Vec<&str> = env.scopes().iter().map(|s| s.name()).collect();
    assert_eq!(names, vec!["builtins", "globals"]);
}

#[test]
fn read_after_insert() {
    let mut env = Environment::no_builtins("test");
    env.insert("x", Some(ConValue::Int(3)));
    assert!(matches!(env.get("x"), Ok(ConValue::Int(3))));
    env.insert("y", None);
    assert!(matches!(env.get("y"), Err(Error::NotInitialized(s)) if s == "y"));
    env.insert("x", Some(ConValue::Int(4)));
    assert!(matches!(env.get("x"), Ok(ConValue::Int(4))));
}

#[test]
fn inner_scopes_shadow_and_exit() {
    let mut env = Environment::new();
    env.insert("x", Some(ConValue::Int(1)));
    env.enter("block");
    assert!(matches!(env.get("x"), Ok(ConValue::Int(1))));
    env.insert("x", Some(ConValue::Int(2)));
    assert!(matches!(env.get("x"), Ok(ConValue::Int(2))));
    env.exit();
    assert!(matches!(env.get("x"), Ok(ConValue::Int(1))));
}

#[test]
fn outermost_scopes_are_never_exited() {
    let mut env = Environment::no_builtins("only");
    env.enter("second");
    env.insert("x", Some(ConValue::Int(1)));
    env.exit();
    // leaving the inner scope destroys its variables
    assert!(matches!(env.get("x"), Err(Error::NotDefined(n)) if n == "x"));
    env.insert("y", Some(ConValue::Int(2)));
    env.exit();
    // the outermost scope stays
    assert!(matches!(env.get("y"), Ok(ConValue::Int(2))));
    assert_eq!(env.scopes().len(), 1);
}

#[test]
fn replace_changes_the_innermost_binding() {
    let mut env = Environment::new();
    env.insert("x", Some(ConValue::Int(1)));
    env.enter("inner");
    let old = env.replace("x", Some(ConValue::Int(9))).unwrap();
    assert!(matches!(old, Some(ConValue::Int(1))));
    env.exit();
    assert!(matches!(env.get("x"), Ok(ConValue::Int(9))));
    assert!(matches!(env.replace("zzz", None), Err(Error::NotDefined(s)) if s == "zzz"));
}

#[test]
fn value_text() {
    assert_eq!(ConValue::Int(-42).to_text(), "-42");
    assert_eq!(ConValue::Int(i128::MIN).to_text(), i128::MIN.to_string());
    assert_eq!(ConValue::Empty.to_text(), "Empty");
    assert_eq!(ConValue::RangeExc(1, 4).to_text(), "1..5");
    assert_eq!(ConValue::RangeInc(-1, 4).to_text(), "-1..=4");
    let t = ConValue::Tuple(vec![ConValue::Bool(true), ConValue::Char('c'), ConValue::String("s".into())]);
    assert_eq!(t.to_text(), "(true, c, s)");
    assert_eq!(ConValue::BuiltIn(Builtin::Print(Print)).to_text(), "internal fn print");
}

#[test]
fn interpreter_error_text() {
    assert_eq!(Error::NotDefined("x".into()).to_text(), "x not bound. Did you mean `let x;`?");
    assert_eq!(Error::ArgNumber { want: 2, got: 3 }.to_text(), "Expected 2 arguments, got 3");
    assert_eq!(Error::Return(ConValue::Int(1)).to_text(), "return 1");
}

#[test]
fn conversions() {
    assert!(matches!(ConValue::from(5i128), ConValue::Int(5)));
    assert!(matches!(ConValue::from(true), ConValue::Bool(true)));
    assert!(matches!(ConValue::from('x'), ConValue::Char('x')));
    assert!(matches!(ConValue::from(String::from("s")), ConValue::String(s) if s == "s"));
    assert!(matches!(ConValue::from(()), ConValue::Empty));
    assert!(matches!(ConValue::from(vec![ConValue::Empty]), ConValue::Tuple(v) if v.len() == 1));
}
