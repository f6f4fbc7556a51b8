use conlang::ast::{
    Binary, BinaryKind, Block, Expr, ExprKind, File, Function, Group, Identifier, If, Item,
    ItemKind, Let, Literal, Loc, Mutability, Param, Path, PathPart, Semi, Span, Stmt, StmtKind,
    Struct, StructKind, StructMember, Ty, TyFn, TyKind, TyRef, TyTuple, Unary, UnaryKind,
    Visibility, Else,
};

fn span() -> Span {
    Span(Loc(1, 1), Loc(1, 1))
}

fn id(s: &str) -> Identifier {
    Identifier(s.to_string())
}

fn path(parts: &[&str], absolute: bool) -> Path {
    Path { absolute, parts: parts.iter().map(|p| PathPart::Ident(id(p))).collect() }
}

fn expr(kind: ExprKind) -> Expr {
    Expr { extents: span(), kind }
}

fn int_lit(v: u128) -> Expr {
    expr(ExprKind::Literal(Literal::Int(v)))
}

fn var(name: &str) -> Expr {
    expr(ExprKind::Path(path(&[name], false)))
}

fn ty(name: &str) -> Ty {
    Ty { extents: span(), kind: TyKind::Path(path(&[name], false)) }
}

#[test]
fn literals() {
    assert_eq!(Literal::Int(0).to_text(), "0");
    assert_eq!(Literal::Int(42).to_text(), "42");
    assert_eq!(Literal::Int(u128::MAX).to_text(), u128::MAX.to_string());
    assert_eq!(Literal::Bool(true).to_text(), "true");
    assert_eq!(Literal::Char('x').to_text(), "'x'");
    assert_eq!(Literal::String("hi".to_string()).to_text(), "\"hi\"");
}

#[test]
fn paths() {
    assert_eq!(path(&["a", "b"], true).to_text(), "::a::b");
    let p = Path { absolute: false, parts: vec![PathPart::SuperKw, PathPart::SelfKw] };
    assert_eq!(p.to_text(), "super::self");
}

#[test]
fn types() {
    assert_eq!(Ty { extents: span(), kind: TyKind::Never }.to_text(), "!");
    let tuple = TyTuple { types: vec![ty("i32"), ty("bool")] };
    assert_eq!(Ty { extents: span(), kind: TyKind::Tuple(tuple) }.to_text(), "(i32, bool)");
    let r = TyRef { count: 2, to: path(&["T"], false) };
    assert_eq!(Ty { extents: span(), kind: TyKind::Ref(r) }.to_text(), "&&T");
    let f = TyFn { args: TyTuple { types: vec![ty("u8")] }, rety: Some(Box::new(ty("u8"))) };
    assert_eq!(Ty { extents: span(), kind: TyKind::Fn(f) }.to_text(), "fn (u8) -> u8");
}

#[test]
fn expressions() {
    let sum = expr(ExprKind::Binary(Binary {
        head: Box::new(var("a")),
        tail: vec![(BinaryKind::Add, int_lit(1)), (BinaryKind::Mul, int_lit(2))],
    }));
    assert_eq!(sum.to_text(), "a + 1 * 2");
    let neg = expr(ExprKind::Unary(Unary {
        ops: vec![UnaryKind::Neg, UnaryKind::Not],
        tail: Box::new(expr(ExprKind::Group(Group { expr: Box::new(var("x")) }))),
    }));
    assert_eq!(neg.to_text(), "-!(x)");
    assert_eq!(expr(ExprKind::Empty).to_text(), "()");
}

#[test]
fn blocks_and_conditionals() {
    let stmt = |kind, semi| Stmt { extents: span(), kind, semi };
    let block = Block {
        stmts: vec![
            stmt(
                StmtKind::Local(Let {
                    mutable: Mutability::Mut,
                    name: id("x"),
                    init: Some(Box::new(int_lit(3))),
                }),
                Semi::Terminated,
            ),
            stmt(StmtKind::Expr(Box::new(var("x"))), Semi::Unterminated),
        ],
    };
    assert_eq!(block.to_text(), "{\nlet mut x = 3;\nx\n}");
    let cond = expr(ExprKind::If(If {
        cond: Box::new(var("c")),
        pass: Box::new(Block { stmts: vec![] }),
        fail: Else { body: Some(Box::new(int_lit(0))) },
    }));
    assert_eq!(cond.to_text(), "if c {\n\n} else 0");
}

#[test]
fn items() {
    let f = Item {
        extents: span(),
        vis: Visibility::Public,
        kind: ItemKind::Function(Function {
            name: id("f"),
            args: vec![Param { mutability: Mutability::Not, name: id("a"), ty: Box::new(ty("i32")) }],
            body: None,
            rety: Some(Box::new(ty("i32"))),
        }),
    };
    assert_eq!(f.to_text(), "pub fn f (a: i32) -> i32;");
    let s = Item {
        extents: span(),
        vis: Visibility::Private,
        kind: ItemKind::Struct(Struct {
            name: id("P"),
            kind: StructKind::Struct(vec![
                StructMember { vis: Visibility::Public, name: id("x"), ty: ty("i32") },
                StructMember { vis: Visibility::Private, name: id("y"), ty: ty("i32") },
            ]),
        }),
    };
    assert_eq!(s.to_text(), "struct P {\npub x: i32,\ny: i32\n}");
    let file = File { items: vec![f, s] };
    assert_eq!(file.to_text(), "pub fn f (a: i32) -> i32;\nstruct P {\npub x: i32,\ny: i32\n}");
}
