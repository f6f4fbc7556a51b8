use conlang::resolver::{Error, Module, Resolver, Scoped, Status, Type, Variable};

fn fn_type() -> Type {
    Type::Fn { args: vec![Type::Int, Type::Bool], ret: Box::new(Type::Empty) }
}

#[test]
fn type_equality_is_structural() {
    assert!(fn_type() == fn_type());
    assert!(fn_type() != Type::Fn { args: vec![Type::Int], ret: Box::new(Type::Empty) });
    assert!(Type::Generic("T".into()) == Type::Generic("T".into()));
    assert!(Type::Generic("T".into()) != Type::Generic("U".into()));
    assert!(Type::Tuple(vec![Type::Char]) != Type::Range(Box::new(Type::Char)));
    assert!(fn_type().clone() == fn_type());
    assert!(Type::Empty.is_empty());
    assert!(!Type::Int.is_empty());
}

#[test]
fn status_assign() {
    let mut s = Status::Bound;
    s.assign(&Type::Int).unwrap();
    assert!(matches!(s, Status::Initialized(Type::Int)));
    s.assign(&Type::Int).unwrap();
    assert!(matches!(s.assign(&Type::Bool), Err(Error::TypeMismatch { want: Type::Bool, got: Type::Int })));
    let mut u = Status::Uninitialized(Type::Char);
    u.assign(&Type::Char).unwrap();
    assert!(matches!(u, Status::Initialized(Type::Char)));
}

#[test]
fn variable_assign() {
    let mut v = Variable::new(3, false);
    assert_eq!(v.index, 3);
    v.assign("x", &Type::Int).unwrap();
    assert!(matches!(v.assign("x", &Type::Int), Err(Error::ImmutableAssign(n, 3)) if n == "x"));
    let mut m = Variable::new(4, true);
    m.assign("y", &Type::Int).unwrap();
    m.assign("y", &Type::Int).unwrap();
    assert!(matches!(m.assign("y", &Type::Bool), Err(Error::TypeMismatch { .. })));
}

#[test]
fn variable_modify_assign() {
    let v = Variable::new(1, true);
    assert!(matches!(v.modify_assign("a", &Type::Int), Err(Error::Uninitialized(n, 1)) if n == "a"));
    let mut m = Variable::new(2, true);
    m.assign("b", &Type::Int).unwrap();
    assert!(m.modify_assign("b", &Type::Int).is_ok());
    assert!(matches!(
        m.modify_assign("b", &Type::Bool),
        Err(Error::TypeMismatch { want: Type::Int, got: Type::Bool })
    ));
    let mut i = Variable::new(5, false);
    i.assign("c", &Type::Int).unwrap();
    assert!(matches!(i.modify_assign("c", &Type::Int), Err(Error::ImmutableAssign(_, 5))));
}

#[test]
fn new_resolver_knows_print() {
    let r = Resolver::new();
    let p = r.get("print").unwrap();
    assert_eq!(p.index, 0);
    assert!(!p.mutable);
    assert!(matches!(&p.status, Status::Initialized(Type::Fn { args, ret })
        if args.len() == 1 && matches!(args[0], Type::ManyInferred) && ret.is_empty()));
    assert!(matches!(r.get("nope"), Err(Error::Unbound(n)) if n == "nope"));
}

#[test]
fn each_let_binds_a_fresh_variable() {
    let mut r = Resolver::new();
    let a = r.insert_scope("x", false).unwrap();
    let b = r.insert_scope("x", true).unwrap();
    assert!(b > a);
    assert_eq!(r.get("x").unwrap().index, b);
    assert!(r.get("x").unwrap().mutable);
}

#[test]
fn scopes_shadow_and_exit() {
    let mut r = Resolver::new();
    let outer = r.insert_scope("x", false).unwrap();
    r.enter_scope();
    let inner = r.insert_scope("x", false).unwrap();
    assert_eq!(r.get("x").unwrap().index, inner);
    assert_eq!(r.exit_scope(), Some(1));
    assert_eq!(r.get("x").unwrap().index, outer);
}

#[test]
fn guard_enters_and_exits() {
    let r = Resolver::new();
    let mut g = r.frame();
    g.get_mut().insert_scope("y", false).unwrap();
    assert!(g.get().get("y").is_ok());
    let r = g.finish();
    assert!(r.get("y").is_err());
}

#[test]
fn assign_through_scopes() {
    let mut r = Resolver::new();
    r.insert_scope("x", false).unwrap();
    r.assign("x", &Type::Int).unwrap();
    assert!(matches!(r.get("x").unwrap().status, Status::Initialized(Type::Int)));
    assert!(matches!(r.assign("x", &Type::Int), Err(Error::ImmutableAssign(..))));
    assert!(matches!(r.assign("zz", &Type::Int), Err(Error::Unbound(n)) if n == "zz"));
}

#[test]
fn modules() {
    let mut r = Resolver::new();
    r.enter_module("m").unwrap();
    let i = r.insert_module("f", false).unwrap();
    assert_eq!(r.get("f").unwrap().index, i);
    // names of enclosing modules are visible
    assert!(r.get("print").is_ok());
    assert!(matches!(r.insert_module("f", false), Err(Error::NonUniqueInModule(n)) if n == "f"));
    r.assign("f", &Type::Int).unwrap();
    assert_eq!(r.exit_module(), Some("m".to_string()));
    assert!(r.get("f").is_err());
    assert!(matches!(r.enter_module("m"), Err(Error::NonUniqueInModule(n)) if n == "m(module)"));
    assert_eq!(r.exit_module(), None);
}

#[test]
fn module_tree() {
    let mut m = Module::new();
    m.insert_module("a".to_string(), Module::new()).unwrap();
    m.insert_var("v", 1, false).unwrap();
    assert!(matches!(m.insert_var("v", 2, false), Err(Error::NonUniqueInModule(_))));
    assert_eq!(m.get("v").unwrap().index, 2);
    let path = vec!["a".to_string()];
    assert!(m.resolve(&path).is_ok());
    assert!(matches!(m.resolve(&["b".to_string()]), Err(Error::Unbound(n)) if n == "b"));
    assert_eq!(m.resolve_get("v", &path).unwrap().index, 2);
    assert!(m.resolve_get("v", &["b".to_string()]).is_none());
}

#[test]
fn register_builtin_needs_the_module() {
    let mut r = Resolver::new();
    assert!(matches!(
        r.register_builtin("g", &["nowhere".to_string()], &[], Type::Int),
        Err(Error::Unbound(n)) if n == "nowhere"
    ));
    r.register_builtin("g", &[], &[Type::Int], Type::Bool).unwrap();
    assert!(r.get("g").is_ok());
    assert!(r.visit_empty().is_ok());
}

#[test]
fn scoped_trait() {
    let mut r = Resolver::new();
    Scoped::enter_scope(&mut r);
    r.insert_scope("t", false).unwrap();
    Scoped::exit_scope(&mut r);
    assert!(r.get("t").is_err());
}

#[test]
fn type_text() {
    assert_eq!(fn_type().to_text(), "fn (integer, bool)");
    let f = Type::Fn { args: vec![], ret: Box::new(Type::Char) };
    assert_eq!(f.to_text(), "fn () -> char");
    assert_eq!(Type::Range(Box::new(Type::Int)).to_text(), "integer..integer");
    assert_eq!(Type::Tuple(vec![Type::String, Type::Never]).to_text(), "(String, !)");
    assert_eq!(Type::Generic("T".into()).to_text(), "<T>");
    assert_eq!(Type::ManyInferred.to_text(), "..");
}

#[test]
fn resolver_error_text() {
    assert_eq!(
        Error::TypeMismatch { want: Type::Int, got: Type::Bool }.to_text(),
        "Type error: integer != bool"
    );
    assert_eq!(Error::ImmutableAssign("x".into(), 4).to_text(), "Cannot mutate immutable variable x(#4)");
    assert_eq!(Error::Unbound("y".into()).to_text(), "y not bound before use.");
}

#[test]
fn exit_scope_counts_every_binding() {
    let mut r = Resolver::new();
    let before = r.insert_scope("outer", false).unwrap();
    r.enter_scope();
    let names = ["a", "b", "c", "a"];
    for (j, n) in names.iter().enumerate() {
        assert_eq!(r.insert_scope(n, j % 2 == 0).unwrap(), before + j + 1);
    }
    assert_eq!(r.exit_scope(), Some(4));
    assert!(matches!(r.get("a"), Err(Error::Unbound(n)) if n == "a"));
    assert!(r.get("outer").is_ok());
}
