//! Writes a syntax tree back out as source text.
//!
//! Each kind of node has a spec function giving its text, or `None` for a
//! tree that holds a node that has no text form yet (an `impl` block, or an
//! enum without variants).
use vstd::prelude::*;
use vstd::string::StringExecFns;
use crate::text::{decimal, write_decimal};
use crate::ast::{
    AddrOf, Array, ArrayRep, Assign, AssignKind, Binary, Call, Const, Enum, For, Group, If, Index, Let, Member,
    Module, Static, Struct, Unary, While,
    Block, Else, EnumKind, Expr, ExprKind, File, Function, Identifier, Indices, Item, ItemKind, Literal,
    ModuleKind, Param, Path, PathPart, Semi, Stmt, StmtKind, StructKind, StructMember, Tuple, Ty,
    TyKind, UnaryKind, Variant, VariantKind, BinaryKind,
};

verus! {

// ---------------------------------------------------------------------
// Texts
// ---------------------------------------------------------------------

/// Two texts one after the other, if both exist.
pub open spec fn cat(a: Option<Seq<char>>, b: Option<Seq<char>>) -> Option<Seq<char>> {
    match (a, b) {
        (Some(x), Some(y)) => Some(x + y),
        _ => None,
    }
}

/// A text that comes before an optional one, when it is there.
pub open spec fn opt_text(prefix: Seq<char>, t: Option<Seq<char>>) -> Option<Seq<char>> {
    cat(Some(prefix), t)
}

/// `c` written `n` times.
pub open spec fn repeat_char(c: char, n: nat) -> Seq<char>
    decreases n,
{
    if n == 0 {
        Seq::empty()
    } else {
        repeat_char(c, (n - 1) as nat).push(c)
    }
}

pub open spec fn identifier_text(id: Identifier) -> Seq<char> {
    id.0@
}

pub open spec fn path_part_text(p: PathPart) -> Seq<char> {
    match p {
        PathPart::SuperKw => "super"@,
        PathPart::SelfKw => "self"@,
        PathPart::Ident(id) => id.0@,
    }
}

/// The path components, separated by `::`.
pub open spec fn path_parts_text(s: Seq<PathPart>) -> Seq<char>
    decreases s.len(),
{
    if s.len() == 0 {
        Seq::empty()
    } else if s.len() == 1 {
        path_part_text(s[0])
    } else {
        path_parts_text(s.drop_last()) + "::"@ + path_part_text(s.last())
    }
}

pub open spec fn path_text(p: Path) -> Seq<char> {
    (if p.absolute {
        "::"@
    } else {
        Seq::empty()
    }) + path_parts_text(p.parts@)
}

pub open spec fn literal_text(l: Literal) -> Seq<char> {
    match l {
        Literal::Bool(b) => if b {
            "true"@
        } else {
            "false"@
        },
        Literal::Char(c) => seq!['\''] + seq![c] + seq!['\''],
        Literal::Int(v) => decimal(v as nat),
        Literal::String(s) => seq!['"'] + s@ + seq!['"'],
    }
}

/// The unary operators, one after another.
pub open spec fn unary_ops_text(s: Seq<UnaryKind>) -> Seq<char>
    decreases s.len(),
{
    if s.len() == 0 {
        Seq::empty()
    } else {
        unary_ops_text(s.drop_last()) + s.last().spec_text()
    }
}

// Types

pub open spec fn ty_text(t: Ty) -> Seq<char>
    decreases t, 0nat,
{
    match t.kind {
        TyKind::Never => "!"@,
        TyKind::Empty => "()"@,
        TyKind::Path(p) => path_text(p),
        TyKind::Tuple(tt) => tys_text(tt.types@),
        TyKind::Ref(r) => repeat_char('&', r.count as nat) + path_text(r.to),
        TyKind::Fn(f) => "fn "@ + tys_text(f.args.types@) + match f.rety {
            Some(r) => " -> "@ + ty_text(*r),
            None => Seq::empty(),
        },
    }
}

/// The types, separated by `, `.
pub open spec fn tys_list(s: Seq<Ty>) -> Seq<char>
    decreases s, 1nat,
{
    if s.len() == 0 {
        Seq::empty()
    } else if s.len() == 1 {
        ty_text(s[0])
    } else {
        tys_list(s.drop_last()) + ", "@ + ty_text(s.last())
    }
}

/// A tuple of types: `(` the types `)`.
pub open spec fn tys_text(s: Seq<Ty>) -> Seq<char>
    decreases s, 2nat,
{
    "("@ + tys_list(s) + ")"@
}

// Items

pub open spec fn file_text(f: File) -> Option<Seq<char>>
    decreases f, 1nat,
{
    items_text(f.items@)
}

/// The items, separated by newlines.
pub open spec fn items_text(s: Seq<Item>) -> Option<Seq<char>>
    decreases s, 0nat,
{
    if s.len() == 0 {
        Some(Seq::empty())
    } else if s.len() == 1 {
        item_text(s[0])
    } else {
        cat(cat(items_text(s.drop_last()), Some("\n"@)), item_text(s.last()))
    }
}

pub open spec fn const_text(c: Const) -> Option<Seq<char>>
    decreases c, 0nat,
{
    opt_text("const "@ + identifier_text(c.name) + ": "@ + ty_text(*c.ty) + " = "@, expr_text(*c.init))
}

pub open spec fn static_text(s: Static) -> Option<Seq<char>>
    decreases s, 0nat,
{
    opt_text(
        "static "@ + s.mutable.spec_text() + identifier_text(s.name) + ": "@ + ty_text(*s.ty) + " = "@,
        expr_text(*s.init),
    )
}

pub open spec fn module_text(m: Module) -> Option<Seq<char>>
    decreases m, 0nat,
{
    opt_text(
        "mod "@ + identifier_text(m.name),
        match m.kind {
            ModuleKind::Inline(f) => cat(opt_text(" {\n"@, file_text(f)), Some("\n}"@)),
            ModuleKind::Outline => Some(";"@),
        },
    )
}

pub open spec fn struct_text(s: Struct) -> Seq<char> {
    "struct "@ + identifier_text(s.name) + struct_kind_text(s.kind)
}

pub open spec fn enum_text(e: Enum) -> Option<Seq<char>> {
    match e.kind {
        EnumKind::NoVariants => None,
        EnumKind::Variants(v) => Some("enum "@ + identifier_text(e.name) + variants_text(v@)),
    }
}

pub open spec fn item_text(i: Item) -> Option<Seq<char>>
    decreases i, 1nat,
{
    opt_text(
        i.vis.spec_text(),
        match i.kind {
            ItemKind::Const(c) => const_text(c),
            ItemKind::Static(s) => static_text(s),
            ItemKind::Module(m) => module_text(m),
            ItemKind::Function(f) => function_text(f),
            ItemKind::Struct(s) => Some(struct_text(s)),
            ItemKind::Enum(e) => enum_text(e),
            ItemKind::Impl(_) => None,
        },
    )
}

pub open spec fn function_text(f: Function) -> Option<Seq<char>>
    decreases f, 0nat,
{
    let head = "fn "@ + identifier_text(f.name) + " "@ + "("@ + params_text(f.args@) + ")"@ + match f.rety {
        Some(r) => " -> "@ + ty_text(*r),
        None => Seq::empty(),
    };
    match f.body {
        Some(b) => opt_text(head + " "@, block_text(b)),
        None => Some(head + ";"@),
    }
}

pub open spec fn param_text(p: Param) -> Seq<char> {
    p.mutability.spec_text() + identifier_text(p.name) + ": "@ + ty_text(*p.ty)
}

/// The parameters, separated by `, `.
pub open spec fn params_text(s: Seq<Param>) -> Seq<char>
    decreases s.len(),
{
    if s.len() == 0 {
        Seq::empty()
    } else if s.len() == 1 {
        param_text(s[0])
    } else {
        params_text(s.drop_last()) + ", "@ + param_text(s.last())
    }
}

pub open spec fn struct_member_text(m: StructMember) -> Seq<char> {
    m.vis.spec_text() + identifier_text(m.name) + ": "@ + ty_text(m.ty)
}

/// The members, separated by `sep`.
pub open spec fn members_text(s: Seq<StructMember>, sep: Seq<char>) -> Seq<char>
    decreases s.len(),
{
    if s.len() == 0 {
        Seq::empty()
    } else if s.len() == 1 {
        struct_member_text(s[0])
    } else {
        members_text(s.drop_last(), sep) + sep + struct_member_text(s.last())
    }
}

pub open spec fn struct_kind_text(k: StructKind) -> Seq<char> {
    match k {
        StructKind::Empty => ";"@,
        StructKind::Tuple(v) => tys_text(v@),
        StructKind::Struct(v) => " {\n"@ + members_text(v@, ",\n"@) + "\n}"@,
    }
}

pub open spec fn variant_text(v: Variant) -> Seq<char> {
    identifier_text(v.name) + match v.kind {
        VariantKind::Named(id) => identifier_text(id),
        VariantKind::Tuple(t) => tys_text(t@),
        VariantKind::Struct(m) => "{\n"@ + members_text(m@, ",\n"@) + "\n}"@,
    }
}

/// The variants, separated by `, `.
pub open spec fn variants_text(s: Seq<Variant>) -> Seq<char>
    decreases s.len(),
{
    if s.len() == 0 {
        Seq::empty()
    } else if s.len() == 1 {
        variant_text(s[0])
    } else {
        variants_text(s.drop_last()) + ", "@ + variant_text(s.last())
    }
}

// Statements and expressions

pub open spec fn let_text(l: Let) -> Option<Seq<char>>
    decreases l, 0nat,
{
    match l.init {
        Some(init) => opt_text(
            "let "@ + l.mutable.spec_text() + identifier_text(l.name) + " = "@,
            expr_text(*init),
        ),
        None => Some("let "@ + l.mutable.spec_text() + identifier_text(l.name)),
    }
}

pub open spec fn stmt_text(s: Stmt) -> Option<Seq<char>>
    decreases s, 1nat,
{
    cat(
        match s.kind {
            StmtKind::Empty => Some(Seq::empty()),
            StmtKind::Local(l) => let_text(l),
            StmtKind::Item(i) => item_text(*i),
            StmtKind::Expr(e) => expr_text(*e),
        },
        Some(
            match s.semi {
                Semi::Terminated => ";"@,
                Semi::Unterminated => Seq::empty(),
            },
        ),
    )
}

/// The statements, separated by newlines.
pub open spec fn stmts_text(s: Seq<Stmt>) -> Option<Seq<char>>
    decreases s, 1nat,
{
    if s.len() == 0 {
        Some(Seq::empty())
    } else if s.len() == 1 {
        stmt_text(s[0])
    } else {
        cat(cat(stmts_text(s.drop_last()), Some("\n"@)), stmt_text(s.last()))
    }
}

pub open spec fn block_text(b: Block) -> Option<Seq<char>>
    decreases b, 2nat,
{
    cat(opt_text("{\n"@, stmts_text(b.stmts@)), Some("\n}"@))
}

/// The expressions, separated by `sep`.
pub open spec fn exprs_text(s: Seq<Expr>, sep: Seq<char>) -> Option<Seq<char>>
    decreases s, 1nat,
{
    if s.len() == 0 {
        Some(Seq::empty())
    } else if s.len() == 1 {
        expr_text(s[0])
    } else {
        cat(cat(exprs_text(s.drop_last(), sep), Some(sep)), expr_text(s.last()))
    }
}

/// A tuple of expressions: `(` the expressions `)`.
pub open spec fn tuple_text(t: Tuple) -> Option<Seq<char>>
    decreases t, 2nat,
{
    cat(opt_text("("@, exprs_text(t.exprs@, ", "@)), Some(")"@))
}

/// The argument lists of a call, one after another.
pub open spec fn tuples_text(s: Seq<Tuple>) -> Option<Seq<char>>
    decreases s, 3nat,
{
    if s.len() == 0 {
        Some(Seq::empty())
    } else {
        cat(tuples_text(s.drop_last()), tuple_text(s.last()))
    }
}

/// The index lists, one after another: each `[` the expressions `]`.
pub open spec fn indices_text(s: Seq<Indices>) -> Option<Seq<char>>
    decreases s, 3nat,
{
    if s.len() == 0 {
        Some(Seq::empty())
    } else {
        cat(
            indices_text(s.drop_last()),
            cat(opt_text("["@, exprs_text(s.last().exprs@, ", "@)), Some("]"@)),
        )
    }
}

/// The operator and operand pairs of a binary expression, each as
/// ` op operand`.
pub open spec fn binary_tail_text(s: Seq<(BinaryKind, Expr)>) -> Option<Seq<char>>
    decreases s, 1nat,
{
    if s.len() == 0 {
        Some(Seq::empty())
    } else {
        cat(
            binary_tail_text(s.drop_last()),
            opt_text(" "@ + s.last().0.spec_text() + " "@, expr_text(s.last().1)),
        )
    }
}

/// The `else` part of a loop or conditional, if it has one.
pub open spec fn else_text(e: Else) -> Option<Seq<char>>
    decreases e, 2nat,
{
    match e.body {
        Some(b) => opt_text(" else "@, expr_text(*b)),
        None => Some(Seq::empty()),
    }
}

/// An optional operand after a keyword: ` operand`, or nothing.
pub open spec fn body_text(b: Option<Box<Expr>>) -> Option<Seq<char>>
    decreases b, 2nat,
{
    match b {
        Some(e) => opt_text(" "@, expr_text(*e)),
        None => Some(Seq::empty()),
    }
}

pub open spec fn assign_text(a: Assign) -> Option<Seq<char>>
    decreases a, 0nat,
{
    cat(cat(expr_text(a.head), Some(" "@ + a.op.spec_text() + " "@)), expr_text(*a.tail))
}

pub open spec fn binary_text(b: Binary) -> Option<Seq<char>>
    decreases b, 0nat,
{
    cat(expr_text(*b.head), binary_tail_text(b.tail@))
}

pub open spec fn unary_text(u: Unary) -> Option<Seq<char>>
    decreases u, 0nat,
{
    opt_text(unary_ops_text(u.ops@), expr_text(*u.tail))
}

pub open spec fn member_text(m: Member) -> Option<Seq<char>>
    decreases m, 0nat,
{
    cat(cat(expr_text(*m.head), Some("."@)), exprs_text(m.tail@, "."@))
}

pub open spec fn call_text(c: Call) -> Option<Seq<char>>
    decreases c, 0nat,
{
    cat(expr_text(*c.callee), tuples_text(c.args@))
}

pub open spec fn index_text(i: Index) -> Option<Seq<char>>
    decreases i, 0nat,
{
    cat(expr_text(*i.head), indices_text(i.indices@))
}

pub open spec fn array_text(a: Array) -> Option<Seq<char>>
    decreases a, 0nat,
{
    cat(opt_text("["@, exprs_text(a.values@, ", "@)), Some("]"@))
}

pub open spec fn array_rep_text(a: ArrayRep) -> Option<Seq<char>>
    decreases a, 0nat,
{
    cat(cat(opt_text("["@, expr_text(*a.value)), Some("; "@)), cat(expr_text(*a.repeat), Some("]"@)))
}

pub open spec fn addr_of_text(a: AddrOf) -> Option<Seq<char>>
    decreases a, 0nat,
{
    opt_text(repeat_char('&', a.count as nat) + a.mutable.spec_text(), expr_text(*a.expr))
}

pub open spec fn group_text(g: Group) -> Option<Seq<char>>
    decreases g, 0nat,
{
    cat(opt_text("("@, expr_text(*g.expr)), Some(")"@))
}

pub open spec fn while_text(w: While) -> Option<Seq<char>>
    decreases w, 0nat,
{
    cat(cat(cat(opt_text("while "@, expr_text(*w.cond)), Some(" "@)), block_text(*w.pass)), else_text(w.fail))
}

pub open spec fn if_text(i: If) -> Option<Seq<char>>
    decreases i, 0nat,
{
    cat(cat(cat(opt_text("if "@, expr_text(*i.cond)), Some(" "@)), block_text(*i.pass)), else_text(i.fail))
}

pub open spec fn for_text(f: For) -> Option<Seq<char>>
    decreases f, 0nat,
{
    cat(
        cat(
            cat(opt_text("for "@ + identifier_text(f.bind) + " in "@, expr_text(*f.cond)), Some(" "@)),
            block_text(*f.pass),
        ),
        else_text(f.fail),
    )
}

pub open spec fn expr_text(e: Expr) -> Option<Seq<char>>
    decreases e, 1nat,
{
    match e.kind {
        ExprKind::Assign(a) => assign_text(*a),
        ExprKind::Binary(b) => binary_text(b),
        ExprKind::Unary(u) => unary_text(u),
        ExprKind::Member(m) => member_text(m),
        ExprKind::Call(c) => call_text(c),
        ExprKind::Index(i) => index_text(i),
        ExprKind::Path(p) => Some(path_text(p)),
        ExprKind::Literal(l) => Some(literal_text(l)),
        ExprKind::Array(a) => array_text(a),
        ExprKind::ArrayRep(a) => array_rep_text(a),
        ExprKind::AddrOf(a) => addr_of_text(a),
        ExprKind::Block(b) => block_text(b),
        ExprKind::Empty => Some("()"@),
        ExprKind::Group(g) => group_text(g),
        ExprKind::Tuple(t) => tuple_text(t),
        ExprKind::While(w) => while_text(w),
        ExprKind::If(i) => if_text(i),
        ExprKind::For(f) => for_text(f),
        ExprKind::Break(b) => opt_text("break"@, body_text(b.body)),
        ExprKind::Return(r) => opt_text("return"@, body_text(r.body)),
        ExprKind::Continue(_) => Some("continue"@),
    }
}

} // verus!
verus! {

// ---------------------------------------------------------------------
// Writing texts
// ---------------------------------------------------------------------

fn write_str(out: &mut String, s: &str)
    ensures
        final(out)@ == old(out)@ + s@,
{
    out.append(s);
}

fn write_char(out: &mut String, c: char)
    ensures
        final(out)@ == old(out)@ + seq![c],
{
    crate::text::string_push(out, c);
    assert(old(out)@.push(c) =~= old(out)@ + seq![c]);
}

fn write_repeat(out: &mut String, c: char, n: usize)
    ensures
        final(out)@ == old(out)@ + repeat_char(c, n as nat),
{
    let mut i: usize = 0;
    assert(old(out)@ + repeat_char(c, 0) =~= old(out)@);
    while i < n
        invariant
            i <= n,
            out@ == old(out)@ + repeat_char(c, i as nat),
        decreases n - i,
    {
        write_char(out, c);
        assert(old(out)@ + repeat_char(c, (i + 1) as nat) =~= old(out)@ + repeat_char(c, i as nat) + seq![c]);
        i = i + 1;
    }
}

fn write_path(out: &mut String, p: &Path)
    ensures
        final(out)@ == old(out)@ + path_text(*p),
{
    let ghost start = out@;
    if p.absolute {
        write_str(out, "::");
    }
    let ghost mid = out@;
    assert(mid == start + (if p.absolute {
        "::"@
    } else {
        Seq::<char>::empty()
    })) by {
        if !p.absolute {
            assert(start + Seq::<char>::empty() =~= start);
        }
    }
    let mut i: usize = 0;
    assert(path_parts_text(p.parts@.take(0)) =~= Seq::<char>::empty());
    assert(mid + Seq::<char>::empty() =~= mid);
    while i < p.parts.len()
        invariant
            i <= p.parts@.len(),
            out@ == mid + path_parts_text(p.parts@.take(i as int)),
        decreases p.parts@.len() - i,
    {
        if i > 0 {
            write_str(out, "::");
        }
        let part = p.parts[i].to_text();
        write_str(out, part.as_str());
        proof {
            let t = p.parts@.take(i + 1);
            assert(t.drop_last() =~= p.parts@.take(i as int));
            if i == 0 {
                assert(out@ =~= mid + path_parts_text(t));
            } else {
                assert(out@ =~= mid + path_parts_text(t));
            }
        }
        i = i + 1;
    }
    assert(p.parts@.take(p.parts@.len() as int) =~= p.parts@);
    assert(out@ =~= start + path_text(*p));
}

} // verus!
verus! {

fn write_ty(out: &mut String, t: &Ty)
    ensures
        final(out)@ == old(out)@ + ty_text(*t),
    decreases t, 0nat,
{
    match &t.kind {
        TyKind::Never => {
            write_str(out, "!");
        },
        TyKind::Empty => {
            write_str(out, "()");
        },
        TyKind::Path(p) => write_path(out, p),
        TyKind::Tuple(tt) => write_tys(out, &tt.types),
        TyKind::Ref(r) => {
            write_repeat(out, '&', r.count);
            write_path(out, &r.to);
        },
        TyKind::Fn(f) => {
            write_str(out, "fn ");
            write_tys(out, &f.args.types);
            match &f.rety {
                Some(r) => {
                    write_str(out, " -> ");
                    write_ty(out, r);
                },
                None => {
                    assert(out@ + Seq::<char>::empty() =~= out@);
                },
            }
        },
    }
    assert(out@ =~= old(out)@ + ty_text(*t));
}

/// Writes `(` the types, separated by `, `, `)`.
fn write_tys(out: &mut String, v: &Vec<Ty>)
    ensures
        final(out)@ == old(out)@ + tys_text(v@),
    decreases v, 1nat,
{
    write_str(out, "(");
    let ghost mid = out@;
    let mut i: usize = 0;
    assert(mid + tys_list(v@.take(0)) =~= mid);
    while i < v.len()
        invariant
            i <= v@.len(),
            out@ == mid + tys_list(v@.take(i as int)),
        decreases v@.len() - i,
    {
        if i > 0 {
            write_str(out, ", ");
        }
        assert(decreases_to!(v => v@[i as int]));
        write_ty(out, &v[i]);
        proof {
            let t = v@.take(i + 1);
            assert(t.drop_last() =~= v@.take(i as int));
            assert(out@ =~= mid + tys_list(t));
        }
        i = i + 1;
    }
    assert(v@.take(v@.len() as int) =~= v@);
    write_str(out, ")");
    assert(out@ =~= old(out)@ + tys_text(v@));
}

fn write_literal(out: &mut String, l: &Literal)
    ensures
        final(out)@ == old(out)@ + literal_text(*l),
{
    match l {
        Literal::Bool(b) => if *b {
            write_str(out, "true");
        } else {
            write_str(out, "false");
        },
        Literal::Char(c) => {
            write_char(out, '\'');
            write_char(out, *c);
            write_char(out, '\'');
        },
        Literal::Int(v) => write_decimal(out, *v),
        Literal::String(s) => {
            write_char(out, '"');
            write_str(out, s.as_str());
            write_char(out, '"');
        },
    }
    assert(out@ =~= old(out)@ + literal_text(*l));
}

} // verus!
verus! {

proof fn lemma_exprs_text_prefix(s: Seq<Expr>, sep: Seq<char>, i: int)
    requires
        exprs_text(s, sep) is Some,
        0 <= i <= s.len(),
    ensures
        exprs_text(s.take(i), sep) is Some,
    decreases s.len(),
{
    if i == s.len() {
        assert(s.take(i) =~= s);
    } else if s.len() >= 2 {
        lemma_exprs_text_prefix(s.drop_last(), sep, i);
        assert(s.drop_last().take(i) =~= s.take(i));
    } else {
        assert(s.take(i) =~= Seq::<Expr>::empty());
    }
}

proof fn lemma_stmts_text_prefix(s: Seq<Stmt>, i: int)
    requires
        stmts_text(s) is Some,
        0 <= i <= s.len(),
    ensures
        stmts_text(s.take(i)) is Some,
    decreases s.len(),
{
    if i == s.len() {
        assert(s.take(i) =~= s);
    } else if s.len() >= 2 {
        lemma_stmts_text_prefix(s.drop_last(), i);
        assert(s.drop_last().take(i) =~= s.take(i));
    } else {
        assert(s.take(i) =~= Seq::<Stmt>::empty());
    }
}

proof fn lemma_items_text_prefix(s: Seq<Item>, i: int)
    requires
        items_text(s) is Some,
        0 <= i <= s.len(),
    ensures
        items_text(s.take(i)) is Some,
    decreases s.len(),
{
    if i == s.len() {
        assert(s.take(i) =~= s);
    } else if s.len() >= 2 {
        lemma_items_text_prefix(s.drop_last(), i);
        assert(s.drop_last().take(i) =~= s.take(i));
    } else {
        assert(s.take(i) =~= Seq::<Item>::empty());
    }
}

proof fn lemma_tuples_text_prefix(s: Seq<Tuple>, i: int)
    requires
        tuples_text(s) is Some,
        0 <= i <= s.len(),
    ensures
        tuples_text(s.take(i)) is Some,
    decreases s.len(),
{
    if i == s.len() {
        assert(s.take(i) =~= s);
    } else {
        lemma_tuples_text_prefix(s.drop_last(), i);
        assert(s.drop_last().take(i) =~= s.take(i));
    }
}

proof fn lemma_indices_text_prefix(s: Seq<Indices>, i: int)
    requires
        indices_text(s) is Some,
        0 <= i <= s.len(),
    ensures
        indices_text(s.take(i)) is Some,
    decreases s.len(),
{
    if i == s.len() {
        assert(s.take(i) =~= s);
    } else {
        lemma_indices_text_prefix(s.drop_last(), i);
        assert(s.drop_last().take(i) =~= s.take(i));
    }
}

proof fn lemma_binary_tail_text_prefix(s: Seq<(BinaryKind, Expr)>, i: int)
    requires
        binary_tail_text(s) is Some,
        0 <= i <= s.len(),
    ensures
        binary_tail_text(s.take(i)) is Some,
    decreases s.len(),
{
    if i == s.len() {
        assert(s.take(i) =~= s);
    } else {
        lemma_binary_tail_text_prefix(s.drop_last(), i);
        assert(s.drop_last().take(i) =~= s.take(i));
    }
}

} // verus!
verus! {

fn write_identifier(out: &mut String, id: &Identifier)
    ensures
        final(out)@ == old(out)@ + identifier_text(*id),
{
    write_str(out, id.0.as_str());
}

/// Writes the expressions, separated by `sep`.
fn write_exprs(out: &mut String, v: &Vec<Expr>, sep: &str)
    requires
        exprs_text(v@, sep@) is Some,
    ensures
        final(out)@ == old(out)@ + exprs_text(v@, sep@)->0,
    decreases v, 1nat,
{
    let ghost mid = out@;
    let mut i: usize = 0;
    assert(v@.take(0) =~= Seq::<Expr>::empty());
    assert(mid + Seq::<char>::empty() =~= mid);
    while i < v.len()
        invariant
            i <= v@.len(),
            exprs_text(v@, sep@) is Some,
            exprs_text(v@.take(i as int), sep@) is Some,
            out@ == mid + exprs_text(v@.take(i as int), sep@)->0,
        decreases v@.len() - i,
    {
        proof {
            lemma_exprs_text_prefix(v@, sep@, i + 1);
            let t = v@.take(i + 1);
            assert(t.drop_last() =~= v@.take(i as int));
            assert(t.last() == v@[i as int]);
        }
        if i > 0 {
            write_str(out, sep);
        }
        assert(decreases_to!(v => v@[i as int]));
        write_expr(out, &v[i]);
        proof {
            let t = v@.take(i + 1);
            assert(out@ =~= mid + exprs_text(t, sep@)->0);
        }
        i = i + 1;
    }
    assert(v@.take(v@.len() as int) =~= v@);
}

/// Writes `(` the expressions, separated by `, `, `)`.
fn write_tuple(out: &mut String, t: &Tuple)
    requires
        tuple_text(*t) is Some,
    ensures
        final(out)@ == old(out)@ + tuple_text(*t)->0,
    decreases t, 2nat,
{
    write_str(out, "(");
    write_exprs(out, &t.exprs, ", ");
    write_str(out, ")");
    assert(out@ =~= old(out)@ + tuple_text(*t)->0);
}

/// Writes the argument lists of a call.
fn write_tuples(out: &mut String, v: &Vec<Tuple>)
    requires
        tuples_text(v@) is Some,
    ensures
        final(out)@ == old(out)@ + tuples_text(v@)->0,
    decreases v, 3nat,
{
    let ghost mid = out@;
    let mut i: usize = 0;
    assert(v@.take(0) =~= Seq::<Tuple>::empty());
    assert(mid + Seq::<char>::empty() =~= mid);
    while i < v.len()
        invariant
            i <= v@.len(),
            tuples_text(v@) is Some,
            tuples_text(v@.take(i as int)) is Some,
            out@ == mid + tuples_text(v@.take(i as int))->0,
        decreases v@.len() - i,
    {
        proof {
            lemma_tuples_text_prefix(v@, i + 1);
            let t = v@.take(i + 1);
            assert(t.drop_last() =~= v@.take(i as int));
            assert(t.last() == v@[i as int]);
        }
        assert(decreases_to!(v => v@[i as int]));
        write_tuple(out, &v[i]);
        proof {
            let t = v@.take(i + 1);
            assert(out@ =~= mid + tuples_text(t)->0);
        }
        i = i + 1;
    }
    assert(v@.take(v@.len() as int) =~= v@);
}

/// Writes the index lists: each `[` the expressions `]`.
fn write_indices(out: &mut String, v: &Vec<Indices>)
    requires
        indices_text(v@) is Some,
    ensures
        final(out)@ == old(out)@ + indices_text(v@)->0,
    decreases v, 3nat,
{
    let ghost mid = out@;
    let mut i: usize = 0;
    assert(v@.take(0) =~= Seq::<Indices>::empty());
    assert(mid + Seq::<char>::empty() =~= mid);
    while i < v.len()
        invariant
            i <= v@.len(),
            indices_text(v@) is Some,
            indices_text(v@.take(i as int)) is Some,
            out@ == mid + indices_text(v@.take(i as int))->0,
        decreases v@.len() - i,
    {
        proof {
            lemma_indices_text_prefix(v@, i + 1);
            let t = v@.take(i + 1);
            assert(t.drop_last() =~= v@.take(i as int));
            assert(t.last() == v@[i as int]);
        }
        write_str(out, "[");
        assert(decreases_to!(v => v@[i as int]));
        assert(decreases_to!(v@[i as int] => v@[i as int].exprs));
        write_exprs(out, &v[i].exprs, ", ");
        write_str(out, "]");
        proof {
            let t = v@.take(i + 1);
            assert(out@ =~= mid + indices_text(t)->0);
        }
        i = i + 1;
    }
    assert(v@.take(v@.len() as int) =~= v@);
}

/// Writes the operator and operand pairs of a binary expression.
fn write_binary_tail(out: &mut String, v: &Vec<(BinaryKind, Expr)>)
    requires
        binary_tail_text(v@) is Some,
    ensures
        final(out)@ == old(out)@ + binary_tail_text(v@)->0,
    decreases v, 1nat,
{
    let ghost mid = out@;
    let mut i: usize = 0;
    assert(v@.take(0) =~= Seq::<(BinaryKind, Expr)>::empty());
    assert(mid + Seq::<char>::empty() =~= mid);
    while i < v.len()
        invariant
            i <= v@.len(),
            binary_tail_text(v@) is Some,
            binary_tail_text(v@.take(i as int)) is Some,
            out@ == mid + binary_tail_text(v@.take(i as int))->0,
        decreases v@.len() - i,
    {
        proof {
            lemma_binary_tail_text_prefix(v@, i + 1);
            let t = v@.take(i + 1);
            assert(t.drop_last() =~= v@.take(i as int));
            assert(t.last() == v@[i as int]);
        }
        write_str(out, " ");
        write_str(out, v[i].0.as_str());
        write_str(out, " ");
        assert(decreases_to!(v => v@[i as int]));
        assert(decreases_to!(v@[i as int] => v@[i as int].1));
        write_expr(out, &v[i].1);
        proof {
            let t = v@.take(i + 1);
            assert(out@ =~= mid + binary_tail_text(t)->0);
        }
        i = i + 1;
    }
    assert(v@.take(v@.len() as int) =~= v@);
}

fn write_else(out: &mut String, e: &Else)
    requires
        else_text(*e) is Some,
    ensures
        final(out)@ == old(out)@ + else_text(*e)->0,
    decreases e, 2nat,
{
    match &e.body {
        Some(b) => {
            write_str(out, " else ");
            write_expr(out, b);
        },
        None => {
            assert(out@ + Seq::<char>::empty() =~= out@);
        },
    }
    assert(out@ =~= old(out)@ + else_text(*e)->0);
}

fn write_body(out: &mut String, b: &Option<Box<Expr>>)
    requires
        body_text(*b) is Some,
    ensures
        final(out)@ == old(out)@ + body_text(*b)->0,
    decreases b, 2nat,
{
    match b {
        Some(e) => {
            write_str(out, " ");
            write_expr(out, e);
        },
        None => {
            assert(out@ + Seq::<char>::empty() =~= out@);
        },
    }
    assert(out@ =~= old(out)@ + body_text(*b)->0);
}

fn write_block(out: &mut String, b: &Block)
    requires
        block_text(*b) is Some,
    ensures
        final(out)@ == old(out)@ + block_text(*b)->0,
    decreases b, 2nat,
{
    write_str(out, "{\n");
    write_stmts(out, &b.stmts);
    write_str(out, "\n}");
    assert(out@ =~= old(out)@ + block_text(*b)->0);
}

/// Writes the statements, separated by newlines.
fn write_stmts(out: &mut String, v: &Vec<Stmt>)
    requires
        stmts_text(v@) is Some,
    ensures
        final(out)@ == old(out)@ + stmts_text(v@)->0,
    decreases v, 1nat,
{
    let ghost mid = out@;
    let mut i: usize = 0;
    assert(v@.take(0) =~= Seq::<Stmt>::empty());
    assert(mid + Seq::<char>::empty() =~= mid);
    while i < v.len()
        invariant
            i <= v@.len(),
            stmts_text(v@) is Some,
            stmts_text(v@.take(i as int)) is Some,
            out@ == mid + stmts_text(v@.take(i as int))->0,
        decreases v@.len() - i,
    {
        proof {
            lemma_stmts_text_prefix(v@, i + 1);
            let t = v@.take(i + 1);
            assert(t.drop_last() =~= v@.take(i as int));
            assert(t.last() == v@[i as int]);
        }
        if i > 0 {
            write_str(out, "\n");
        }
        assert(decreases_to!(v => v@[i as int]));
        write_stmt(out, &v[i]);
        proof {
            let t = v@.take(i + 1);
            assert(out@ =~= mid + stmts_text(t)->0);
        }
        i = i + 1;
    }
    assert(v@.take(v@.len() as int) =~= v@);
}

fn write_let(out: &mut String, l: &Let)
    requires
        let_text(*l) is Some,
    ensures
        final(out)@ == old(out)@ + let_text(*l)->0,
    decreases l, 0nat,
{
    write_str(out, "let ");
    write_str(out, l.mutable.as_str());
    write_identifier(out, &l.name);
    match &l.init {
        Some(init) => {
            write_str(out, " = ");
            write_expr(out, init);
        },
        None => {},
    }
    assert(out@ =~= old(out)@ + let_text(*l)->0);
}

fn write_stmt(out: &mut String, s: &Stmt)
    requires
        stmt_text(*s) is Some,
    ensures
        final(out)@ == old(out)@ + stmt_text(*s)->0,
    decreases s, 1nat,
{
    match &s.kind {
        StmtKind::Empty => {
            assert(out@ + Seq::<char>::empty() =~= out@);
        },
        StmtKind::Local(l) => write_let(out, l),
        StmtKind::Item(i) => write_item(out, i),
        StmtKind::Expr(e) => write_expr(out, e),
    }
    let ghost mid = out@;
    match s.semi {
        Semi::Terminated => {
            write_str(out, ";");
        },
        Semi::Unterminated => {
            assert(mid + Seq::<char>::empty() =~= mid);
        },
    }
    assert(out@ =~= old(out)@ + stmt_text(*s)->0);
}

fn write_assign(out: &mut String, a: &Assign)
    requires
        assign_text(*a) is Some,
    ensures
        final(out)@ == old(out)@ + assign_text(*a)->0,
    decreases a, 0nat,
{
    write_expr(out, &a.head);
    write_str(out, " ");
    write_str(out, a.op.as_str());
    write_str(out, " ");
    write_expr(out, &a.tail);
    assert(out@ =~= old(out)@ + assign_text(*a)->0);
}

fn write_binary(out: &mut String, b: &Binary)
    requires
        binary_text(*b) is Some,
    ensures
        final(out)@ == old(out)@ + binary_text(*b)->0,
    decreases b, 0nat,
{
    write_expr(out, &b.head);
    write_binary_tail(out, &b.tail);
    assert(out@ =~= old(out)@ + binary_text(*b)->0);
}

fn write_unary(out: &mut String, u: &Unary)
    requires
        unary_text(*u) is Some,
    ensures
        final(out)@ == old(out)@ + unary_text(*u)->0,
    decreases u, 0nat,
{
    let ghost start = out@;
    let mut i: usize = 0;
    assert(u.ops@.take(0) =~= Seq::<UnaryKind>::empty());
    assert(start + Seq::<char>::empty() =~= start);
    while i < u.ops.len()
        invariant
            i <= u.ops@.len(),
            out@ == start + unary_ops_text(u.ops@.take(i as int)),
        decreases u.ops@.len() - i,
    {
        write_str(out, u.ops[i].as_str());
        assert(u.ops@.take(i + 1).drop_last() =~= u.ops@.take(i as int));
        assert(out@ =~= start + unary_ops_text(u.ops@.take(i + 1)));
        i = i + 1;
    }
    assert(u.ops@.take(u.ops@.len() as int) =~= u.ops@);
    write_expr(out, &u.tail);
    assert(out@ =~= old(out)@ + unary_text(*u)->0);
}

fn write_member(out: &mut String, m: &Member)
    requires
        member_text(*m) is Some,
    ensures
        final(out)@ == old(out)@ + member_text(*m)->0,
    decreases m, 0nat,
{
    write_expr(out, &m.head);
    write_str(out, ".");
    write_exprs(out, &m.tail, ".");
    assert(out@ =~= old(out)@ + member_text(*m)->0);
}

fn write_call(out: &mut String, c: &Call)
    requires
        call_text(*c) is Some,
    ensures
        final(out)@ == old(out)@ + call_text(*c)->0,
    decreases c, 0nat,
{
    write_expr(out, &c.callee);
    write_tuples(out, &c.args);
    assert(out@ =~= old(out)@ + call_text(*c)->0);
}

fn write_index(out: &mut String, i: &Index)
    requires
        index_text(*i) is Some,
    ensures
        final(out)@ == old(out)@ + index_text(*i)->0,
    decreases i, 0nat,
{
    write_expr(out, &i.head);
    write_indices(out, &i.indices);
    assert(out@ =~= old(out)@ + index_text(*i)->0);
}

fn write_array(out: &mut String, a: &Array)
    requires
        array_text(*a) is Some,
    ensures
        final(out)@ == old(out)@ + array_text(*a)->0,
    decreases a, 0nat,
{
    write_str(out, "[");
    write_exprs(out, &a.values, ", ");
    write_str(out, "]");
    assert(out@ =~= old(out)@ + array_text(*a)->0);
}

fn write_array_rep(out: &mut String, a: &ArrayRep)
    requires
        array_rep_text(*a) is Some,
    ensures
        final(out)@ == old(out)@ + array_rep_text(*a)->0,
    decreases a, 0nat,
{
    write_str(out, "[");
    write_expr(out, &a.value);
    write_str(out, "; ");
    write_expr(out, &a.repeat);
    write_str(out, "]");
    assert(out@ =~= old(out)@ + array_rep_text(*a)->0);
}

fn write_addr_of(out: &mut String, a: &AddrOf)
    requires
        addr_of_text(*a) is Some,
    ensures
        final(out)@ == old(out)@ + addr_of_text(*a)->0,
    decreases a, 0nat,
{
    write_repeat(out, '&', a.count);
    write_str(out, a.mutable.as_str());
    write_expr(out, &a.expr);
    assert(out@ =~= old(out)@ + addr_of_text(*a)->0);
}

fn write_group(out: &mut String, g: &Group)
    requires
        group_text(*g) is Some,
    ensures
        final(out)@ == old(out)@ + group_text(*g)->0,
    decreases g, 0nat,
{
    write_str(out, "(");
    write_expr(out, &g.expr);
    write_str(out, ")");
    assert(out@ =~= old(out)@ + group_text(*g)->0);
}

fn write_while(out: &mut String, w: &While)
    requires
        while_text(*w) is Some,
    ensures
        final(out)@ == old(out)@ + while_text(*w)->0,
    decreases w, 0nat,
{
    write_str(out, "while ");
    write_expr(out, &w.cond);
    write_str(out, " ");
    write_block(out, &w.pass);
    write_else(out, &w.fail);
    assert(out@ =~= old(out)@ + while_text(*w)->0);
}

fn write_if(out: &mut String, i: &If)
    requires
        if_text(*i) is Some,
    ensures
        final(out)@ == old(out)@ + if_text(*i)->0,
    decreases i, 0nat,
{
    write_str(out, "if ");
    write_expr(out, &i.cond);
    write_str(out, " ");
    write_block(out, &i.pass);
    write_else(out, &i.fail);
    assert(out@ =~= old(out)@ + if_text(*i)->0);
}

fn write_for(out: &mut String, f: &For)
    requires
        for_text(*f) is Some,
    ensures
        final(out)@ == old(out)@ + for_text(*f)->0,
    decreases f, 0nat,
{
    write_str(out, "for ");
    write_identifier(out, &f.bind);
    write_str(out, " in ");
    write_expr(out, &f.cond);
    write_str(out, " ");
    write_block(out, &f.pass);
    write_else(out, &f.fail);
    assert(out@ =~= old(out)@ + for_text(*f)->0);
}

fn write_expr(out: &mut String, e: &Expr)
    requires
        expr_text(*e) is Some,
    ensures
        final(out)@ == old(out)@ + expr_text(*e)->0,
    decreases e, 1nat,
{
    match &e.kind {
        ExprKind::Assign(a) => write_assign(out, a),
        ExprKind::Binary(b) => write_binary(out, b),
        ExprKind::Unary(u) => write_unary(out, u),
        ExprKind::Member(m) => write_member(out, m),
        ExprKind::Call(c) => write_call(out, c),
        ExprKind::Index(i) => write_index(out, i),
        ExprKind::Path(p) => write_path(out, p),
        ExprKind::Literal(l) => write_literal(out, l),
        ExprKind::Array(a) => write_array(out, a),
        ExprKind::ArrayRep(a) => write_array_rep(out, a),
        ExprKind::AddrOf(a) => write_addr_of(out, a),
        ExprKind::Block(b) => write_block(out, b),
        ExprKind::Empty => write_str(out, "()"),
        ExprKind::Group(g) => write_group(out, g),
        ExprKind::Tuple(t) => write_tuple(out, t),
        ExprKind::While(w) => write_while(out, w),
        ExprKind::If(i) => write_if(out, i),
        ExprKind::For(f) => write_for(out, f),
        ExprKind::Break(b) => {
            write_str(out, "break");
            write_body(out, &b.body);
        },
        ExprKind::Return(r) => {
            write_str(out, "return");
            write_body(out, &r.body);
        },
        ExprKind::Continue(_) => write_str(out, "continue"),
    }
}

fn write_const(out: &mut String, c: &Const)
    requires
        const_text(*c) is Some,
    ensures
        final(out)@ == old(out)@ + const_text(*c)->0,
    decreases c, 0nat,
{
    write_str(out, "const ");
    write_identifier(out, &c.name);
    write_str(out, ": ");
    write_ty(out, &c.ty);
    write_str(out, " = ");
    write_expr(out, &c.init);
    assert(out@ =~= old(out)@ + const_text(*c)->0);
}

fn write_static(out: &mut String, s: &Static)
    requires
        static_text(*s) is Some,
    ensures
        final(out)@ == old(out)@ + static_text(*s)->0,
    decreases s, 0nat,
{
    write_str(out, "static ");
    write_str(out, s.mutable.as_str());
    write_identifier(out, &s.name);
    write_str(out, ": ");
    write_ty(out, &s.ty);
    write_str(out, " = ");
    write_expr(out, &s.init);
    assert(out@ =~= old(out)@ + static_text(*s)->0);
}

fn write_module(out: &mut String, m: &Module)
    requires
        module_text(*m) is Some,
    ensures
        final(out)@ == old(out)@ + module_text(*m)->0,
    decreases m, 0nat,
{
    write_str(out, "mod ");
    write_identifier(out, &m.name);
    match &m.kind {
        ModuleKind::Inline(f) => {
            write_str(out, " {\n");
            write_file(out, f);
            write_str(out, "\n}");
        },
        ModuleKind::Outline => {
            write_str(out, ";");
        },
    }
    assert(out@ =~= old(out)@ + module_text(*m)->0);
}

fn write_struct(out: &mut String, s: &Struct)
    ensures
        final(out)@ == old(out)@ + struct_text(*s),
{
    write_str(out, "struct ");
    write_identifier(out, &s.name);
    write_struct_kind(out, &s.kind);
    assert(out@ =~= old(out)@ + struct_text(*s));
}

fn write_enum(out: &mut String, e: &Enum)
    requires
        enum_text(*e) is Some,
    ensures
        final(out)@ == old(out)@ + enum_text(*e)->0,
{
    match &e.kind {
        EnumKind::Variants(v) => {
            write_str(out, "enum ");
            write_identifier(out, &e.name);
            write_variants(out, v);
            assert(out@ =~= old(out)@ + enum_text(*e)->0);
        },
        EnumKind::NoVariants => {},
    }
}

fn write_item(out: &mut String, i: &Item)
    requires
        item_text(*i) is Some,
    ensures
        final(out)@ == old(out)@ + item_text(*i)->0,
    decreases i, 1nat,
{
    write_str(out, i.vis.as_str());
    match &i.kind {
        ItemKind::Const(c) => write_const(out, c),
        ItemKind::Static(s) => write_static(out, s),
        ItemKind::Module(m) => write_module(out, m),
        ItemKind::Function(f) => write_function(out, f),
        ItemKind::Struct(s) => write_struct(out, s),
        ItemKind::Enum(e) => write_enum(out, e),
        ItemKind::Impl(_) => {},
    }
    assert(out@ =~= old(out)@ + item_text(*i)->0);
}

fn write_function(out: &mut String, f: &Function)
    requires
        function_text(*f) is Some,
    ensures
        final(out)@ == old(out)@ + function_text(*f)->0,
    decreases f, 0nat,
{
    write_str(out, "fn ");
    write_identifier(out, &f.name);
    write_str(out, " ");
    write_str(out, "(");
    write_params(out, &f.args);
    write_str(out, ")");
    match &f.rety {
        Some(r) => {
            write_str(out, " -> ");
            write_ty(out, r);
        },
        None => {
            assert(out@ + Seq::<char>::empty() =~= out@);
        },
    }
    match &f.body {
        Some(b) => {
            write_str(out, " ");
            write_block(out, b);
        },
        None => {
            write_str(out, ";");
        },
    }
    assert(out@ =~= old(out)@ + function_text(*f)->0);
}

fn write_file(out: &mut String, f: &File)
    requires
        file_text(*f) is Some,
    ensures
        final(out)@ == old(out)@ + file_text(*f)->0,
    decreases f, 1nat,
{
    write_items(out, &f.items);
}

/// Writes the items, separated by newlines.
fn write_items(out: &mut String, v: &Vec<Item>)
    requires
        items_text(v@) is Some,
    ensures
        final(out)@ == old(out)@ + items_text(v@)->0,
    decreases v, 0nat,
{
    let ghost mid = out@;
    let mut i: usize = 0;
    assert(v@.take(0) =~= Seq::<Item>::empty());
    assert(mid + Seq::<char>::empty() =~= mid);
    while i < v.len()
        invariant
            i <= v@.len(),
            items_text(v@) is Some,
            items_text(v@.take(i as int)) is Some,
            out@ == mid + items_text(v@.take(i as int))->0,
        decreases v@.len() - i,
    {
        proof {
            lemma_items_text_prefix(v@, i + 1);
            let t = v@.take(i + 1);
            assert(t.drop_last() =~= v@.take(i as int));
            assert(t.last() == v@[i as int]);
        }
        if i > 0 {
            write_str(out, "\n");
        }
        assert(decreases_to!(v => v@[i as int]));
        write_item(out, &v[i]);
        proof {
            let t = v@.take(i + 1);
            assert(out@ =~= mid + items_text(t)->0);
        }
        i = i + 1;
    }
    assert(v@.take(v@.len() as int) =~= v@);
}

/// Writes the parameters, separated by `, `.
fn write_params(out: &mut String, v: &Vec<Param>)
    ensures
        final(out)@ == old(out)@ + params_text(v@),
{
    let ghost mid = out@;
    let mut i: usize = 0;
    assert(v@.take(0) =~= Seq::<Param>::empty());
    assert(mid + Seq::<char>::empty() =~= mid);
    while i < v.len()
        invariant
            i <= v@.len(),
            out@ == mid + params_text(v@.take(i as int)),
        decreases v@.len() - i,
    {
        if i > 0 {
            write_str(out, ", ");
        }
        let p = &v[i];
        write_str(out, p.mutability.as_str());
        write_identifier(out, &p.name);
        write_str(out, ": ");
        write_ty(out, &p.ty);
        proof {
            let t = v@.take(i + 1);
            assert(t.drop_last() =~= v@.take(i as int));
            assert(out@ =~= mid + params_text(t));
        }
        i = i + 1;
    }
    assert(v@.take(v@.len() as int) =~= v@);
}

/// Writes the struct members, separated by `sep`.
fn write_members(out: &mut String, v: &Vec<StructMember>, sep: &str)
    ensures
        final(out)@ == old(out)@ + members_text(v@, sep@),
{
    let ghost mid = out@;
    let mut i: usize = 0;
    assert(v@.take(0) =~= Seq::<StructMember>::empty());
    assert(mid + Seq::<char>::empty() =~= mid);
    while i < v.len()
        invariant
            i <= v@.len(),
            out@ == mid + members_text(v@.take(i as int), sep@),
        decreases v@.len() - i,
    {
        if i > 0 {
            write_str(out, sep);
        }
        let m = &v[i];
        write_str(out, m.vis.as_str());
        write_identifier(out, &m.name);
        write_str(out, ": ");
        write_ty(out, &m.ty);
        proof {
            let t = v@.take(i + 1);
            assert(t.drop_last() =~= v@.take(i as int));
            assert(out@ =~= mid + members_text(t, sep@));
        }
        i = i + 1;
    }
    assert(v@.take(v@.len() as int) =~= v@);
}

fn write_struct_kind(out: &mut String, k: &StructKind)
    ensures
        final(out)@ == old(out)@ + struct_kind_text(*k),
{
    match k {
        StructKind::Empty => {
            write_str(out, ";");
        },
        StructKind::Tuple(v) => write_tys(out, v),
        StructKind::Struct(v) => {
            write_str(out, " {\n");
            write_members(out, v, ",\n");
            write_str(out, "\n}");
        },
    }
    assert(out@ =~= old(out)@ + struct_kind_text(*k));
}

/// Writes the variants, separated by `, `.
fn write_variants(out: &mut String, v: &Vec<Variant>)
    ensures
        final(out)@ == old(out)@ + variants_text(v@),
{
    let ghost mid = out@;
    let mut i: usize = 0;
    assert(v@.take(0) =~= Seq::<Variant>::empty());
    assert(mid + Seq::<char>::empty() =~= mid);
    while i < v.len()
        invariant
            i <= v@.len(),
            out@ == mid + variants_text(v@.take(i as int)),
        decreases v@.len() - i,
    {
        if i > 0 {
            write_str(out, ", ");
        }
        let var = &v[i];
        let ghost before = out@;
        write_identifier(out, &var.name);
        match &var.kind {
            VariantKind::Named(id) => write_identifier(out, id),
            VariantKind::Tuple(t) => write_tys(out, t),
            VariantKind::Struct(m) => {
                write_str(out, "{\n");
                write_members(out, m, ",\n");
                write_str(out, "\n}");
            },
        }
        proof {
            assert(out@ =~= before + variant_text(v@[i as int]));
            let t = v@.take(i + 1);
            assert(t.drop_last() =~= v@.take(i as int));
            assert(out@ =~= mid + variants_text(t));
        }
        i = i + 1;
    }
    assert(v@.take(v@.len() as int) =~= v@);
}

} // verus!
verus! {

impl File {
    /// The file as source text: its items, one per line.
    pub fn to_text(&self) -> (r: String)
        requires
            file_text(*self) is Some,
        ensures
            r@ == file_text(*self)->0,
    {
        let mut out = String::new();
        write_file(&mut out, self);
        out
    }
}

impl Item {
    /// The item as source text.
    pub fn to_text(&self) -> (r: String)
        requires
            item_text(*self) is Some,
        ensures
            r@ == item_text(*self)->0,
    {
        let mut out = String::new();
        write_item(&mut out, self);
        out
    }
}

impl Stmt {
    /// The statement as source text.
    pub fn to_text(&self) -> (r: String)
        requires
            stmt_text(*self) is Some,
        ensures
            r@ == stmt_text(*self)->0,
    {
        let mut out = String::new();
        write_stmt(&mut out, self);
        out
    }
}

impl Block {
    /// The block as source text: `{`, its statements one per line, `}`.
    pub fn to_text(&self) -> (r: String)
        requires
            block_text(*self) is Some,
        ensures
            r@ == block_text(*self)->0,
    {
        let mut out = String::new();
        write_block(&mut out, self);
        out
    }
}

impl Expr {
    /// The expression as source text.
    pub fn to_text(&self) -> (r: String)
        requires
            expr_text(*self) is Some,
        ensures
            r@ == expr_text(*self)->0,
    {
        let mut out = String::new();
        write_expr(&mut out, self);
        out
    }
}

impl Ty {
    /// The type as source text.
    pub fn to_text(&self) -> (r: String)
        ensures
            r@ == ty_text(*self),
    {
        let mut out = String::new();
        write_ty(&mut out, self);
        out
    }
}

impl Path {
    /// The path as source text: its parts joined by `::`.
    pub fn to_text(&self) -> (r: String)
        ensures
            r@ == path_text(*self),
    {
        let mut out = String::new();
        write_path(&mut out, self);
        out
    }
}

impl Literal {
    /// The literal as source text.
    pub fn to_text(&self) -> (r: String)
        ensures
            r@ == literal_text(*self),
    {
        let mut out = String::new();
        write_literal(&mut out, self);
        out
    }
}

/// Integers are written in decimal, with no leading zeros.
pub proof fn law_decimal_has_no_leading_zero(n: nat)
    ensures
        decimal(n).len() >= 1,
        n > 0 ==> decimal(n)[0] != '0',
    decreases n,
{
    if n >= 10 {
        law_decimal_has_no_leading_zero(n / 10);
    }
}

/// A path of one identifier is written as that identifier, and a path of
/// several as their texts joined by `::`.
pub proof fn law_path_joins_parts(parts: Seq<PathPart>, part: PathPart)
    ensures
        path_parts_text(seq![part]) == path_part_text(part),
        parts.len() > 0 ==> path_parts_text(parts.push(part)) == path_parts_text(parts) + "::"@
            + path_part_text(part),
{
    assert(parts.push(part).drop_last() =~= parts);
}


/// An array-repeat expression is written `[value; repeat]`: a bracket, the
/// value, a semicolon and a space, the count, and a closing bracket.
pub proof fn law_array_rep_text(e: Expr)
    requires
        e.kind is ArrayRep,
    ensures
        ({
            let a = e.kind->ArrayRep_0;
            match (expr_text(*a.value), expr_text(*a.repeat)) {
                (Some(v), Some(r)) => {
                    &&& expr_text(e) == Some(seq!['['] + v + seq![';', ' '] + r + seq![']'])
                    &&& expr_text(e)->0[v.len() as int + 1] == ';'
                },
                _ => expr_text(e) is None,
            }
        }),
{
    reveal_strlit("[");
    reveal_strlit("; ");
    reveal_strlit("]");
    let a = e.kind->ArrayRep_0;
    if let (Some(v), Some(r)) = (expr_text(*a.value), expr_text(*a.repeat)) {
        assert(seq!['['] + v + seq![';', ' '] + r + seq![']'] =~= "["@ + v + "; "@ + (r + "]"@));
        assert((seq!['['] + v + seq![';', ' '] + r + seq![']'])[v.len() as int + 1] == ';');
    }
}

/// An array of two values is written `[first, second]`, with a comma where
/// an array-repeat expression has its semicolon.
pub proof fn law_array_text_two(e: Expr)
    requires
        e.kind is Array,
        e.kind->Array_0.values@.len() == 2,
    ensures
        ({
            let vs = e.kind->Array_0.values@;
            match (expr_text(vs[0]), expr_text(vs[1])) {
                (Some(v), Some(r)) => {
                    &&& expr_text(e) == Some(seq!['['] + v + seq![',', ' '] + r + seq![']'])
                    &&& expr_text(e)->0[v.len() as int + 1] == ','
                },
                _ => expr_text(e) is None,
            }
        }),
{
    reveal_strlit("[");
    reveal_strlit(", ");
    reveal_strlit("]");
    let vs = e.kind->Array_0.values@;
    assert(vs.drop_last().len() == 1 && vs.drop_last()[0] == vs[0]);
    assert(exprs_text(vs.drop_last(), ", "@) == expr_text(vs[0]));
    assert(vs.last() == vs[1]);
    assert(exprs_text(vs, ", "@) == cat(cat(expr_text(vs[0]), Some(", "@)), expr_text(vs[1])));
    if let (Some(v), Some(r)) = (expr_text(vs[0]), expr_text(vs[1])) {
        assert(seq!['['] + v + seq![',', ' '] + r + seq![']'] =~= "["@ + (v + ", "@ + r) + "]"@);
        assert((seq!['['] + v + seq![',', ' '] + r + seq![']'])[v.len() as int + 1] == ',');
    }
}

/// A group is its expression in parentheses, and an assignment is the
/// target, a space, the operator, a space and the value.
pub proof fn law_group_and_assign_text(e: Expr)
    ensures
        e.kind is Group ==> expr_text(e) == match expr_text(*e.kind->Group_0.expr) {
            Some(x) => Some(seq!['('] + x + seq![')']),
            None => None,
        },
        e.kind is Assign ==> expr_text(e) == match (
            expr_text(e.kind->Assign_0.head),
            expr_text(*e.kind->Assign_0.tail),
        ) {
            (Some(h), Some(t)) => Some(h + seq![' '] + e.kind->Assign_0.op.spec_text() + seq![' '] + t),
            _ => None,
        },
{
    reveal_strlit("(");
    reveal_strlit(")");
    reveal_strlit(" ");
    if e.kind is Group {
        if let Some(x) = expr_text(*e.kind->Group_0.expr) {
            assert(seq!['('] + x + seq![')'] =~= "("@ + x + ")"@);
        }
    }
    if e.kind is Assign {
        let a = e.kind->Assign_0;
        if let (Some(h), Some(t)) = (expr_text(a.head), expr_text(*a.tail)) {
            assert(h + seq![' '] + a.op.spec_text() + seq![' '] + t =~= h + (" "@ + a.op.spec_text() + " "@) + t);
        }
    }
}

/// The spellings of the operators: each compound assignment is its binary
/// operator followed by `=`, the doubled operators are their single
/// operator twice, and the comparisons with `=` are the plain comparison
/// followed by `=`; the binary operators are all spelled differently.
pub proof fn law_operator_spellings()
    ensures
        AssignKind::Plain.spec_text() == seq!['='],
        AssignKind::Mul.spec_text() == BinaryKind::Mul.spec_text() + seq!['='],
        AssignKind::Div.spec_text() == BinaryKind::Div.spec_text() + seq!['='],
        AssignKind::Rem.spec_text() == BinaryKind::Rem.spec_text() + seq!['='],
        AssignKind::Add.spec_text() == BinaryKind::Add.spec_text() + seq!['='],
        AssignKind::Sub.spec_text() == BinaryKind::Sub.spec_text() + seq!['='],
        AssignKind::And.spec_text() == BinaryKind::BitAnd.spec_text() + seq!['='],
        AssignKind::Or.spec_text() == BinaryKind::BitOr.spec_text() + seq!['='],
        AssignKind::Xor.spec_text() == BinaryKind::BitXor.spec_text() + seq!['='],
        AssignKind::Shl.spec_text() == BinaryKind::Shl.spec_text() + seq!['='],
        AssignKind::Shr.spec_text() == BinaryKind::Shr.spec_text() + seq!['='],
        BinaryKind::Equal.spec_text() == seq!['=', '='],
        BinaryKind::NotEq.spec_text() == seq!['!', '='],
        BinaryKind::LtEq.spec_text() == BinaryKind::Lt.spec_text() + seq!['='],
        BinaryKind::GtEq.spec_text() == BinaryKind::Gt.spec_text() + seq!['='],
        BinaryKind::Shl.spec_text() == BinaryKind::Lt.spec_text() + BinaryKind::Lt.spec_text(),
        BinaryKind::Shr.spec_text() == BinaryKind::Gt.spec_text() + BinaryKind::Gt.spec_text(),
        BinaryKind::LogAnd.spec_text() == BinaryKind::BitAnd.spec_text() + BinaryKind::BitAnd.spec_text(),
        BinaryKind::LogOr.spec_text() == BinaryKind::BitOr.spec_text() + BinaryKind::BitOr.spec_text(),
        BinaryKind::LogXor.spec_text() == BinaryKind::BitXor.spec_text() + BinaryKind::BitXor.spec_text(),
        BinaryKind::RangeExc.spec_text() == BinaryKind::Dot.spec_text() + BinaryKind::Dot.spec_text(),
        BinaryKind::RangeInc.spec_text() == BinaryKind::RangeExc.spec_text() + seq!['='],
        BinaryKind::Lt.spec_text() == seq!['<'],
        BinaryKind::Gt.spec_text() == seq!['>'],
        BinaryKind::BitAnd.spec_text() == seq!['&'],
        BinaryKind::BitOr.spec_text() == seq!['|'],
        BinaryKind::BitXor.spec_text() == seq!['^'],
        BinaryKind::Dot.spec_text() == seq!['.'],
        BinaryKind::Add.spec_text() == seq!['+'],
        BinaryKind::Sub.spec_text() == seq!['-'],
        BinaryKind::Mul.spec_text() == seq!['*'],
        BinaryKind::Div.spec_text() == seq!['/'],
        BinaryKind::Rem.spec_text() == seq!['%'],
        forall|a: BinaryKind, b: BinaryKind| a != b ==> a.spec_text() != b.spec_text(),
{
    reveal_strlit("=");
    reveal_strlit("*=");
    reveal_strlit("/=");
    reveal_strlit("%=");
    reveal_strlit("+=");
    reveal_strlit("-=");
    reveal_strlit("&=");
    reveal_strlit("|=");
    reveal_strlit("^=");
    reveal_strlit("<<=");
    reveal_strlit(">>=");
    reveal_strlit("<");
    reveal_strlit("<=");
    reveal_strlit("==");
    reveal_strlit("!=");
    reveal_strlit(">=");
    reveal_strlit(">");
    reveal_strlit("..");
    reveal_strlit("..=");
    reveal_strlit("&&");
    reveal_strlit("||");
    reveal_strlit("^^");
    reveal_strlit("&");
    reveal_strlit("|");
    reveal_strlit("^");
    reveal_strlit("<<");
    reveal_strlit(">>");
    reveal_strlit("+");
    reveal_strlit("-");
    reveal_strlit("*");
    reveal_strlit("/");
    reveal_strlit("%");
    reveal_strlit(".");
    assert("*="@ =~= "*"@ + seq!['=']);
    assert("/="@ =~= "/"@ + seq!['=']);
    assert("%="@ =~= "%"@ + seq!['=']);
    assert("+="@ =~= "+"@ + seq!['=']);
    assert("-="@ =~= "-"@ + seq!['=']);
    assert("&="@ =~= "&"@ + seq!['=']);
    assert("|="@ =~= "|"@ + seq!['=']);
    assert("^="@ =~= "^"@ + seq!['=']);
    assert("<<="@ =~= "<<"@ + seq!['=']);
    assert(">>="@ =~= ">>"@ + seq!['=']);
    assert("=="@ =~= seq!['=', '=']);
    assert("!="@ =~= seq!['!', '=']);
    assert("<="@ =~= "<"@ + seq!['=']);
    assert(">="@ =~= ">"@ + seq!['=']);
    assert("<<"@ =~= "<"@ + "<"@);
    assert(">>"@ =~= ">"@ + ">"@);
    assert("&&"@ =~= "&"@ + "&"@);
    assert("||"@ =~= "|"@ + "|"@);
    assert("^^"@ =~= "^"@ + "^"@);
    assert(".."@ =~= "."@ + "."@);
    assert("..="@ =~= ".."@ + seq!['=']);
    assert("="@ =~= seq!['=']);
    assert("<"@ =~= seq!['<']);
    assert(">"@ =~= seq!['>']);
    assert("&"@ =~= seq!['&']);
    assert("|"@ =~= seq!['|']);
    assert("^"@ =~= seq!['^']);
    assert("."@ =~= seq!['.']);
    assert("+"@ =~= seq!['+']);
    assert("-"@ =~= seq!['-']);
    assert("*"@ =~= seq!['*']);
    assert("/"@ =~= seq!['/']);
    assert("%"@ =~= seq!['%']);
    assert forall|a: BinaryKind, b: BinaryKind| a != b implies a.spec_text() != b.spec_text() by {
        if a.spec_text() == b.spec_text() {
            assert(a.spec_text().len() == b.spec_text().len());
            assert(a.spec_text()[0] == b.spec_text()[0]);
            if a.spec_text().len() > 1 {
                assert(a.spec_text()[1] == b.spec_text()[1]);
            }
            if a.spec_text().len() > 2 {
                assert(a.spec_text()[2] == b.spec_text()[2]);
            }
        }
    }
}
} // verus!
