//! The abstract syntax tree of Conlang.
//!
//! # Notable nodes
//! - [Item] and [ItemKind]: Top-level constructs
//! - [Stmt] and [StmtKind]: Statements
//! - [Expr] and [ExprKind]: Expressions
//!   - [Assign], [Binary], and [Unary] expressions
//!   - [AssignKind], [BinaryKind], and [UnaryKind] operators
//! - [Ty] and [TyKind]: Type qualifiers
//! - [Path]: Path expressions
#![allow(non_snake_case)]
use vstd::prelude::*;
use crate::lexer::Lexer;

verus! {

// Universal data types

/// Stores a read-only (line, column) location in a token stream.
///
/// Locations are ordered by line, then by column.
#[derive(Clone, Copy, Debug, PartialEq, Eq, Ord, Hash, Structural)]
pub struct Loc {
    line: u32,
    col: u32,
}

/// Stores the start and end [locations](Loc) within the token stream.
#[derive(Clone, Copy, Debug, PartialEq, Eq, PartialOrd, Ord, Hash, Structural)]
pub struct Span {
    pub head: Loc,
    pub tail: Loc,
}

/// Builds a [Span] from its two ends.
pub fn Span(head: Loc, tail: Loc) -> (r: Span)
    ensures
        r.head == head,
        r.tail == tail,
{
    Span { head, tail }
}

/// Builds a [Loc] from a line and a column.
pub fn Loc(line: u32, col: u32) -> (r: Loc)
    ensures
        r.spec_line() == line,
        r.spec_col() == col,
{
    Loc { line, col }
}

impl Loc {
    pub closed spec fn spec_line(self) -> u32 {
        self.line
    }

    pub closed spec fn spec_col(self) -> u32 {
        self.col
    }

    pub fn line(self) -> (r: u32)
        ensures
            r == self.spec_line(),
    {
        self.line
    }

    pub fn col(self) -> (r: u32)
        ensures
            r == self.spec_col(),
    {
        self.col
    }

    /// The location of the token a lexer is reading.
    pub fn from_lexer(lexer: &Lexer) -> (r: Loc)
        ensures
            (r.spec_line() as int, r.spec_col() as int) == lexer.start_loc(),
    {
        Loc { line: lexer.line(), col: lexer.col() }
    }
}

#[derive(Clone, Copy, Debug, Default, PartialEq, Eq, PartialOrd, Ord, Structural)]
pub enum Mutability {
    #[default]
    Not,
    Mut,
}

impl Mutability {
    pub open spec fn spec_text(self) -> Seq<char> {
        match self {
            Mutability::Not => ""@,
            Mutability::Mut => "mut "@,
        }
    }

    /// The qualifier as it is written before a name.
    pub fn as_str(&self) -> (r: &'static str)
        ensures
            r@ == self.spec_text(),
    {
        match self {
            Mutability::Not => "",
            Mutability::Mut => "mut ",
        }
    }
}

#[derive(Clone, Copy, Debug, Default, PartialEq, Eq, PartialOrd, Ord, Structural)]
pub enum Visibility {
    #[default]
    Private,
    Public,
}

impl Visibility {
    pub open spec fn spec_text(self) -> Seq<char> {
        match self {
            Visibility::Private => ""@,
            Visibility::Public => "pub "@,
        }
    }

    /// The qualifier as it is written before an item.
    pub fn as_str(&self) -> (r: &'static str)
        ensures
            r@ == self.spec_text(),
    {
        match self {
            Visibility::Private => "",
            Visibility::Public => "pub ",
        }
    }
}

#[derive(Debug, Default, PartialEq, Eq, PartialOrd, Ord)]
pub struct File {
    pub items: Vec<Item>,
}

// Items
/// Holds an abstract Item and associated metadata
#[derive(Debug, PartialEq, Eq, PartialOrd, Ord)]
pub struct Item {
    pub extents: Span,
    pub vis: Visibility,
    pub kind: ItemKind,
}

/// Stores a concrete Item
#[derive(Debug, PartialEq, Eq, PartialOrd, Ord)]
pub enum ItemKind {
    /// A [constant](Const)
    Const(Const),
    /// A [static](Static) variable
    Static(Static),
    /// A [module](Module)
    Module(Module),
    /// A [function definition](Function)
    Function(Function),
    /// A [structure](Struct)
    Struct(Struct),
    /// An [enumerated type](Enum)
    Enum(Enum),
    /// An [implementation](Impl)
    Impl(Impl),
}

/// Stores a `const` value
#[derive(Debug, PartialEq, Eq, PartialOrd, Ord)]
pub struct Const {
    pub name: Identifier,
    pub ty: Box<Ty>,
    pub init: Box<Expr>,
}

/// Stores a `static` variable
#[derive(Debug, PartialEq, Eq, PartialOrd, Ord)]
pub struct Static {
    pub mutable: Mutability,
    pub name: Identifier,
    pub ty: Box<Ty>,
    pub init: Box<Expr>,
}

/// Stores a collection of [Items](Item)
#[derive(Debug, PartialEq, Eq, PartialOrd, Ord)]
pub struct Module {
    pub name: Identifier,
    pub kind: ModuleKind,
}

#[derive(Debug, PartialEq, Eq, PartialOrd, Ord)]
pub enum ModuleKind {
    Inline(File),
    Outline,
}

/// Contains code, and the interface to that code
#[derive(Debug, PartialEq, Eq, PartialOrd, Ord)]
pub struct Function {
    pub name: Identifier,
    pub args: Vec<Param>,
    pub body: Option<Block>,
    pub rety: Option<Box<Ty>>,
}

#[derive(Debug, PartialEq, Eq, PartialOrd, Ord)]
pub struct Param {
    pub mutability: Mutability,
    pub name: Identifier,
    pub ty: Box<Ty>,
}

#[derive(Debug, PartialEq, Eq, PartialOrd, Ord)]
pub struct Struct {
    pub name: Identifier,
    pub kind: StructKind,
}

#[derive(Debug, PartialEq, Eq, PartialOrd, Ord)]
pub enum StructKind {
    Empty,
    Tuple(Vec<Ty>),
    Struct(Vec<StructMember>),
}

#[derive(Debug, PartialEq, Eq, PartialOrd, Ord)]
pub struct StructMember {
    pub vis: Visibility,
    pub name: Identifier,
    pub ty: Ty,
}

#[derive(Debug, PartialEq, Eq, PartialOrd, Ord)]
pub struct Enum {
    pub name: Identifier,
    pub kind: EnumKind,
}

#[derive(Debug, PartialEq, Eq, PartialOrd, Ord)]
pub enum EnumKind {
    /// Represents an enum with no variants
    NoVariants,
    Variants(Vec<Variant>),
}

#[derive(Debug, PartialEq, Eq, PartialOrd, Ord)]
pub struct Variant {
    pub name: Identifier,
    pub kind: VariantKind,
}

#[derive(Debug, PartialEq, Eq, PartialOrd, Ord)]
pub enum VariantKind {
    Named(Identifier),
    Tuple(Vec<Ty>),
    Struct(Vec<StructMember>),
}

#[derive(Debug, PartialEq, Eq, PartialOrd, Ord)]
pub struct Impl {
    pub target: Ty,
    pub body: Vec<Item>,
}

#[derive(Debug, PartialEq, Eq, PartialOrd, Ord)]
pub enum ImplKind {
    Type(Box<Ty>),
    Trait { impl_trait: Path, for_type: Box<Ty> },
}

/// # Static Type Information
#[derive(Debug, PartialEq, Eq, PartialOrd, Ord)]
pub struct Ty {
    pub extents: Span,
    pub kind: TyKind,
}

#[derive(Debug, PartialEq, Eq, PartialOrd, Ord)]
pub enum TyKind {
    Never,
    Empty,
    Path(Path),
    Tuple(TyTuple),
    Ref(TyRef),
    Fn(TyFn),
}

#[derive(Debug, PartialEq, Eq, PartialOrd, Ord)]
pub struct TyTuple {
    pub types: Vec<Ty>,
}

#[derive(Debug, PartialEq, Eq, PartialOrd, Ord)]
pub struct TyRef {
    pub count: usize,
    pub to: Path,
}

#[derive(Debug, PartialEq, Eq, PartialOrd, Ord)]
pub struct TyFn {
    pub args: TyTuple,
    pub rety: Option<Box<Ty>>,
}

// Path
#[derive(Debug, PartialEq, Eq, PartialOrd, Ord)]
pub struct Path {
    pub absolute: bool,
    pub parts: Vec<PathPart>,
}

#[derive(Debug, PartialEq, Eq, PartialOrd, Ord)]
pub enum PathPart {
    SuperKw,
    SelfKw,
    Ident(Identifier),
}

#[derive(Debug, PartialEq, Eq, PartialOrd, Ord)]
pub struct Identifier(pub String);

/// Stores an abstract statement, and associated metadata
#[derive(Debug, PartialEq, Eq, PartialOrd, Ord)]
pub struct Stmt {
    pub extents: Span,
    pub kind: StmtKind,
    pub semi: Semi,
}

#[derive(Clone, Copy, Debug, PartialEq, Eq, PartialOrd, Ord, Structural)]
pub enum Semi {
    Terminated,
    Unterminated,
}

#[derive(Debug, PartialEq, Eq, PartialOrd, Ord)]
pub enum StmtKind {
    Empty,
    Local(Let),
    Item(Box<Item>),
    Expr(Box<Expr>),
}

#[derive(Debug, PartialEq, Eq, PartialOrd, Ord)]
pub struct Let {
    pub mutable: Mutability,
    pub name: Identifier,
    pub init: Option<Box<Expr>>,
}

/// Stores an abstract expression, and associated metadata
#[derive(Debug, PartialEq, Eq, PartialOrd, Ord)]
pub struct Expr {
    pub extents: Span,
    pub kind: ExprKind,
}

#[derive(Debug, PartialEq, Eq, PartialOrd, Ord)]
pub enum ExprKind {
    Assign(Box<Assign>),
    /// A [Binary] expression, with a leading and trailing side
    Binary(Binary),
    /// A [Unary] expression, with a trailing side
    Unary(Unary),
    /// A [Member] access expression
    Member(Member),
    /// A [Call] expression, with arguments
    Call(Call),
    /// An Array [Index] expression
    Index(Index),
    /// A [path expression](Path): `::`? [PathPart] (`::` [PathPart])*
    Path(Path),
    /// A [Literal]: 0x42, 1e123, 2.4, "Hello"
    Literal(Literal),
    /// An [Array] literal: `[` Expr (`,` Expr)* `]`
    Array(Array),
    /// An Array literal constructed with [repeat syntax](ArrayRep)
    ArrayRep(ArrayRep),
    /// An address-of expression: `&`foo
    AddrOf(AddrOf),
    /// A [Block] expression: `{` Stmt* Expr? `}`
    Block(Block),
    /// An empty expression: `(` `)`
    Empty,
    /// A [Grouping](Group) expression `(` Expr `)`
    Group(Group),
    /// A [Tuple] expression: `(` Expr (`,` Expr)+ `)`
    Tuple(Tuple),
    /// A [While] expression: `while` Expr Block Else?
    While(While),
    /// An [If] expression: `if` Expr Block Else?
    If(If),
    /// A [For] expression: `for` Pattern in Expr Block Else?
    For(For),
    /// A [Break] expression: `break` Expr?
    Break(Break),
    /// A [Return] expression `return` Expr?
    Return(Return),
    /// A continue expression: `continue`
    Continue(Continue),
}

#[derive(Debug, PartialEq, Eq, PartialOrd, Ord)]
pub struct Assign {
    pub head: Expr,
    pub op: AssignKind,
    pub tail: Box<Expr>,
}

#[derive(Clone, Copy, Debug, PartialEq, Eq, PartialOrd, Ord, Structural)]
pub enum AssignKind {
    /// Standard Assignment with no read-back
    Plain,
    And,
    Or,
    Xor,
    Shl,
    Shr,
    Add,
    Sub,
    Mul,
    Div,
    Rem,
}

#[derive(Debug, PartialEq, Eq, PartialOrd, Ord)]
pub struct Binary {
    pub head: Box<Expr>,
    pub tail: Vec<(BinaryKind, Expr)>,
}

#[derive(Clone, Copy, Debug, PartialEq, Eq, PartialOrd, Ord, Structural)]
pub enum BinaryKind {
    Lt,
    LtEq,
    Equal,
    NotEq,
    GtEq,
    Gt,
    RangeExc,
    RangeInc,
    LogAnd,
    LogOr,
    LogXor,
    BitAnd,
    BitOr,
    BitXor,
    Shl,
    Shr,
    Add,
    Sub,
    Mul,
    Div,
    Rem,
    Dot,
}

#[derive(Debug, PartialEq, Eq, PartialOrd, Ord)]
pub struct Unary {
    pub ops: Vec<UnaryKind>,
    pub tail: Box<Expr>,
}

#[derive(Clone, Copy, Debug, PartialEq, Eq, PartialOrd, Ord, Structural)]
pub enum UnaryKind {
    Deref,
    Neg,
    Not,
    /// Unused
    At,
    /// Unused
    Hash,
    /// Unused
    Tilde,
}

#[derive(Debug, PartialEq, Eq, PartialOrd, Ord)]
pub struct Member {
    pub head: Box<Expr>,
    pub tail: Vec<Expr>,
}

#[derive(Clone, Copy, Debug, PartialEq, Eq, PartialOrd, Ord, Structural)]
pub enum MemberKind {
    Dot,
}

#[derive(Debug, PartialEq, Eq, PartialOrd, Ord)]
pub struct Call {
    pub callee: Box<Expr>,
    pub args: Vec<Tuple>,
}

/// Index operator: Member (`[` Expr `]`)*
#[derive(Debug, PartialEq, Eq, PartialOrd, Ord)]
pub struct Index {
    pub head: Box<Expr>,
    pub indices: Vec<Indices>,
}

#[derive(Debug, PartialEq, Eq, PartialOrd, Ord)]
pub struct Indices {
    pub exprs: Vec<Expr>,
}

#[derive(Debug, PartialEq, Eq, PartialOrd, Ord)]
pub enum Literal {
    Bool(bool),
    Char(char),
    Int(u128),
    String(String),
}

#[derive(Debug, PartialEq, Eq, PartialOrd, Ord)]
pub struct Array {
    pub values: Vec<Expr>,
}

#[derive(Debug, PartialEq, Eq, PartialOrd, Ord)]
pub struct ArrayRep {
    pub value: Box<Expr>,
    pub repeat: Box<Expr>,
}

#[derive(Debug, PartialEq, Eq, PartialOrd, Ord)]
pub struct AddrOf {
    pub count: usize,
    pub mutable: Mutability,
    pub expr: Box<Expr>,
}

#[derive(Debug, PartialEq, Eq, PartialOrd, Ord)]
pub struct Block {
    pub stmts: Vec<Stmt>,
}

#[derive(Debug, PartialEq, Eq, PartialOrd, Ord)]
pub struct Group {
    pub expr: Box<Expr>,
}

#[derive(Debug, PartialEq, Eq, PartialOrd, Ord)]
pub struct Tuple {
    pub exprs: Vec<Expr>,
}

#[derive(Debug, PartialEq, Eq, PartialOrd, Ord)]
pub struct While {
    pub cond: Box<Expr>,
    pub pass: Box<Block>,
    pub fail: Else,
}

#[derive(Debug, PartialEq, Eq, PartialOrd, Ord)]
pub struct If {
    pub cond: Box<Expr>,
    pub pass: Box<Block>,
    pub fail: Else,
}

#[derive(Debug, PartialEq, Eq, PartialOrd, Ord)]
pub struct For {
    pub bind: Identifier,
    pub cond: Box<Expr>,
    pub pass: Box<Block>,
    pub fail: Else,
}

#[derive(Debug, PartialEq, Eq, PartialOrd, Ord)]
pub struct Else {
    pub body: Option<Box<Expr>>,
}

#[derive(Debug, PartialEq, Eq, PartialOrd, Ord)]
pub struct Break {
    pub body: Option<Box<Expr>>,
}

#[derive(Debug, PartialEq, Eq, PartialOrd, Ord)]
pub struct Return {
    pub body: Option<Box<Expr>>,
}

#[derive(Clone, Copy, Debug, Default, PartialEq, Eq, PartialOrd, Ord, Structural)]
pub struct Continue;

// Operator spellings

impl AssignKind {
    pub open spec fn spec_text(self) -> Seq<char> {
        match self {
            AssignKind::Plain => "="@,
            AssignKind::Mul => "*="@,
            AssignKind::Div => "/="@,
            AssignKind::Rem => "%="@,
            AssignKind::Add => "+="@,
            AssignKind::Sub => "-="@,
            AssignKind::And => "&="@,
            AssignKind::Or => "|="@,
            AssignKind::Xor => "^="@,
            AssignKind::Shl => "<<="@,
            AssignKind::Shr => ">>="@,
        }
    }

    /// The operator as it is written.
    pub fn as_str(&self) -> (r: &'static str)
        ensures
            r@ == self.spec_text(),
    {
        match self {
            AssignKind::Plain => "=",
            AssignKind::Mul => "*=",
            AssignKind::Div => "/=",
            AssignKind::Rem => "%=",
            AssignKind::Add => "+=",
            AssignKind::Sub => "-=",
            AssignKind::And => "&=",
            AssignKind::Or => "|=",
            AssignKind::Xor => "^=",
            AssignKind::Shl => "<<=",
            AssignKind::Shr => ">>=",
        }
    }
}

impl BinaryKind {
    pub open spec fn spec_text(self) -> Seq<char> {
        match self {
            BinaryKind::Lt => "<"@,
            BinaryKind::LtEq => "<="@,
            BinaryKind::Equal => "=="@,
            BinaryKind::NotEq => "!="@,
            BinaryKind::GtEq => ">="@,
            BinaryKind::Gt => ">"@,
            BinaryKind::RangeExc => ".."@,
            BinaryKind::RangeInc => "..="@,
            BinaryKind::LogAnd => "&&"@,
            BinaryKind::LogOr => "||"@,
            BinaryKind::LogXor => "^^"@,
            BinaryKind::BitAnd => "&"@,
            BinaryKind::BitOr => "|"@,
            BinaryKind::BitXor => "^"@,
            BinaryKind::Shl => "<<"@,
            BinaryKind::Shr => ">>"@,
            BinaryKind::Add => "+"@,
            BinaryKind::Sub => "-"@,
            BinaryKind::Mul => "*"@,
            BinaryKind::Div => "/"@,
            BinaryKind::Rem => "%"@,
            BinaryKind::Dot => "."@,
        }
    }

    /// The operator as it is written.
    pub fn as_str(&self) -> (r: &'static str)
        ensures
            r@ == self.spec_text(),
    {
        match self {
            BinaryKind::Lt => "<",
            BinaryKind::LtEq => "<=",
            BinaryKind::Equal => "==",
            BinaryKind::NotEq => "!=",
            BinaryKind::GtEq => ">=",
            BinaryKind::Gt => ">",
            BinaryKind::RangeExc => "..",
            BinaryKind::RangeInc => "..=",
            BinaryKind::LogAnd => "&&",
            BinaryKind::LogOr => "||",
            BinaryKind::LogXor => "^^",
            BinaryKind::BitAnd => "&",
            BinaryKind::BitOr => "|",
            BinaryKind::BitXor => "^",
            BinaryKind::Shl => "<<",
            BinaryKind::Shr => ">>",
            BinaryKind::Add => "+",
            BinaryKind::Sub => "-",
            BinaryKind::Mul => "*",
            BinaryKind::Div => "/",
            BinaryKind::Rem => "%",
            BinaryKind::Dot => ".",
        }
    }
}

impl UnaryKind {
    pub open spec fn spec_text(self) -> Seq<char> {
        match self {
            UnaryKind::Deref => "*"@,
            UnaryKind::Neg => "-"@,
            UnaryKind::Not => "!"@,
            UnaryKind::At => "@"@,
            UnaryKind::Hash => "#"@,
            UnaryKind::Tilde => "~"@,
        }
    }

    /// The operator as it is written.
    pub fn as_str(&self) -> (r: &'static str)
        ensures
            r@ == self.spec_text(),
    {
        match self {
            UnaryKind::Deref => "*",
            UnaryKind::Neg => "-",
            UnaryKind::Not => "!",
            UnaryKind::At => "@",
            UnaryKind::Hash => "#",
            UnaryKind::Tilde => "~",
        }
    }
}

impl PathPart {
    /// The path component as it is written.
    pub fn to_text(&self) -> (r: String)
        ensures
            r@ == match self {
                PathPart::SuperKw => "super"@,
                PathPart::SelfKw => "self"@,
                PathPart::Ident(id) => id.0@,
            },
    {
        match self {
            PathPart::SuperKw => String::from_str("super"),
            PathPart::SelfKw => String::from_str("self"),
            PathPart::Ident(id) => id.0.clone(),
        }
    }
}

} // verus!
