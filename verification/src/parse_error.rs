//! The errors of parsing: what went wrong, and what was being parsed.
use vstd::prelude::*;
use crate::ast::Loc;
use crate::lexer::{Error as LexError, Reason};
use crate::text::string_append;
use crate::token::Type;

verus! {

/// Compactly represents the stage of parsing an [Error] originated in
#[derive(Clone, Copy, Debug, PartialEq, Eq, Structural)]
pub enum Parsing {
    File,
    Item,
    Visibility,
    Mutability,
    ItemKind,
    Const,
    Static,
    Module,
    ModuleKind,
    Function,
    Param,
    Struct,
    StructKind,
    StructMember,
    Enum,
    EnumKind,
    Variant,
    VariantKind,
    Impl,
    Ty,
    TyKind,
    TyTuple,
    TyRef,
    TyFn,
    Stmt,
    StmtKind,
    Let,
    Expr,
    ExprKind,
    Assign,
    AssignKind,
    Binary,
    BinaryKind,
    Unary,
    UnaryKind,
    Index,
    Call,
    Member,
    PathExpr,
    PathPart,
    Identifier,
    Literal,
    Array,
    ArrayRep,
    AddrOf,
    Block,
    Group,
    Tuple,
    While,
    If,
    For,
    Else,
    Break,
    Return,
    Continue,
}

impl Parsing {
    pub open spec fn spec_text(self) -> Seq<char> {
        match self {
            Parsing::File => "a file"@,
            Parsing::Item => "an item"@,
            Parsing::Visibility => "a visibility qualifier"@,
            Parsing::Mutability => "a mutability qualifier"@,
            Parsing::ItemKind => "an item"@,
            Parsing::Const => "a const item"@,
            Parsing::Static => "a static variable"@,
            Parsing::Module => "a module"@,
            Parsing::ModuleKind => "a module"@,
            Parsing::Function => "a function"@,
            Parsing::Param => "a function parameter"@,
            Parsing::Struct => "a struct"@,
            Parsing::StructKind => "a struct"@,
            Parsing::StructMember => "a struct member"@,
            Parsing::Enum => "an enum"@,
            Parsing::EnumKind => "an enum"@,
            Parsing::Variant => "an enum variant"@,
            Parsing::VariantKind => "an enum variant"@,
            Parsing::Impl => "an impl block"@,
            Parsing::Ty => "a type"@,
            Parsing::TyKind => "a type"@,
            Parsing::TyTuple => "a tuple of types"@,
            Parsing::TyRef => "a reference type"@,
            Parsing::TyFn => "a function pointer type"@,
            Parsing::Stmt => "a statement"@,
            Parsing::StmtKind => "a statement"@,
            Parsing::Let => "a local variable declaration"@,
            Parsing::Expr => "an expression"@,
            Parsing::ExprKind => "an expression"@,
            Parsing::Assign => "an assignment"@,
            Parsing::AssignKind => "an assignment operator"@,
            Parsing::Binary => "a binary expression"@,
            Parsing::BinaryKind => "a binary operator"@,
            Parsing::Unary => "a unary expression"@,
            Parsing::UnaryKind => "a unary operator"@,
            Parsing::Index => "an indexing expression"@,
            Parsing::Call => "a call expression"@,
            Parsing::Member => "a member access expression"@,
            Parsing::PathExpr => "a path"@,
            Parsing::PathPart => "a path component"@,
            Parsing::Identifier => "an identifier"@,
            Parsing::Literal => "a literal"@,
            Parsing::Array => "an array"@,
            Parsing::ArrayRep => "an array of form [k;N]"@,
            Parsing::AddrOf => "a borrow op"@,
            Parsing::Block => "a block"@,
            Parsing::Group => "a grouped expression"@,
            Parsing::Tuple => "a tuple"@,
            Parsing::While => "a while expression"@,
            Parsing::If => "an if expression"@,
            Parsing::For => "a for expression"@,
            Parsing::Else => "an else block"@,
            Parsing::Break => "a break expression"@,
            Parsing::Return => "a return expression"@,
            Parsing::Continue => "a continue expression"@,
        }
    }

    /// What was being parsed, for people.
    pub fn as_str(&self) -> (r: &'static str)
        ensures
            r@ == self.spec_text(),
    {
        match self {
            Parsing::File => "a file",
            Parsing::Item => "an item",
            Parsing::Visibility => "a visibility qualifier",
            Parsing::Mutability => "a mutability qualifier",
            Parsing::ItemKind => "an item",
            Parsing::Const => "a const item",
            Parsing::Static => "a static variable",
            Parsing::Module => "a module",
            Parsing::ModuleKind => "a module",
            Parsing::Function => "a function",
            Parsing::Param => "a function parameter",
            Parsing::Struct => "a struct",
            Parsing::StructKind => "a struct",
            Parsing::StructMember => "a struct member",
            Parsing::Enum => "an enum",
            Parsing::EnumKind => "an enum",
            Parsing::Variant => "an enum variant",
            Parsing::VariantKind => "an enum variant",
            Parsing::Impl => "an impl block",
            Parsing::Ty => "a type",
            Parsing::TyKind => "a type",
            Parsing::TyTuple => "a tuple of types",
            Parsing::TyRef => "a reference type",
            Parsing::TyFn => "a function pointer type",
            Parsing::Stmt => "a statement",
            Parsing::StmtKind => "a statement",
            Parsing::Let => "a local variable declaration",
            Parsing::Expr => "an expression",
            Parsing::ExprKind => "an expression",
            Parsing::Assign => "an assignment",
            Parsing::AssignKind => "an assignment operator",
            Parsing::Binary => "a binary expression",
            Parsing::BinaryKind => "a binary operator",
            Parsing::Unary => "a unary expression",
            Parsing::UnaryKind => "a unary operator",
            Parsing::Index => "an indexing expression",
            Parsing::Call => "a call expression",
            Parsing::Member => "a member access expression",
            Parsing::PathExpr => "a path",
            Parsing::PathPart => "a path component",
            Parsing::Identifier => "an identifier",
            Parsing::Literal => "a literal",
            Parsing::Array => "an array",
            Parsing::ArrayRep => "an array of form [k;N]",
            Parsing::AddrOf => "a borrow op",
            Parsing::Block => "a block",
            Parsing::Group => "a grouped expression",
            Parsing::Tuple => "a tuple",
            Parsing::While => "a while expression",
            Parsing::If => "an if expression",
            Parsing::For => "a for expression",
            Parsing::Else => "an else block",
            Parsing::Break => "a break expression",
            Parsing::Return => "a return expression",
            Parsing::Continue => "a continue expression",
        }
    }
}

/// Represents the reason for parse failure
#[derive(Clone, Debug, PartialEq, Eq)]
pub enum ErrorKind {
    Lexical(LexError),
    EndOfInput,
    UnmatchedParentheses,
    UnmatchedCurlyBraces,
    UnmatchedSquareBrackets,
    Unexpected(Type),
    Expected { want: Type, got: Type },
    /// No rules matched
    Nothing,
    /// Indicates unfinished code
    Todo,
}

impl ErrorKind {
    pub open spec fn spec_text(self) -> Seq<char> {
        match self {
            ErrorKind::Lexical(e) => e.spec_text(),
            ErrorKind::EndOfInput => "End of input"@,
            ErrorKind::UnmatchedParentheses => "Unmatched parentheses"@,
            ErrorKind::UnmatchedCurlyBraces => "Unmatched curly braces"@,
            ErrorKind::UnmatchedSquareBrackets => "Unmatched square brackets"@,
            ErrorKind::Unexpected(t) => "Encountered unexpected token `"@ + t.spec_name() + "`"@,
            ErrorKind::Expected { want, got } => "Expected "@ + want.spec_name() + ", but got "@
                + got.spec_name(),
            ErrorKind::Nothing => "Nothing found"@,
            ErrorKind::Todo => "TODO:"@,
        }
    }

    /// The reason, for people.
    pub fn to_text(&self) -> (r: String)
        ensures
            r@ == self.spec_text(),
    {
        let mut out = String::new();
        match self {
            ErrorKind::Lexical(e) => {
                return e.to_text();
            },
            ErrorKind::EndOfInput => string_append(&mut out, "End of input"),
            ErrorKind::UnmatchedParentheses => string_append(&mut out, "Unmatched parentheses"),
            ErrorKind::UnmatchedCurlyBraces => string_append(&mut out, "Unmatched curly braces"),
            ErrorKind::UnmatchedSquareBrackets => string_append(&mut out, "Unmatched square brackets"),
            ErrorKind::Unexpected(t) => {
                string_append(&mut out, "Encountered unexpected token `");
                string_append(&mut out, t.name());
                string_append(&mut out, "`");
            },
            ErrorKind::Expected { want, got } => {
                string_append(&mut out, "Expected ");
                string_append(&mut out, want.name());
                string_append(&mut out, ", but got ");
                string_append(&mut out, got.name());
            },
            ErrorKind::Nothing => string_append(&mut out, "Nothing found"),
            ErrorKind::Todo => string_append(&mut out, "TODO:"),
        }
        assert(out@ =~= self.spec_text());
        out
    }
}

impl From<LexError> for ErrorKind {
    /// The end of the input is no lexical error of its own.
    fn from(value: LexError) -> Self {
        match value.reason() {
            Reason::EndOfFile => ErrorKind::EndOfInput,
            _ => ErrorKind::Lexical(value),
        }
    }
}

impl vstd::std_specs::convert::FromSpecImpl<LexError> for ErrorKind {
    open spec fn obeys_from_spec() -> bool {
        true
    }

    open spec fn from_spec(v: LexError) -> ErrorKind {
        match v.reason {
            Reason::EndOfFile => ErrorKind::EndOfInput,
            _ => ErrorKind::Lexical(v),
        }
    }
}

/// Contains information about parser errors
#[derive(Clone, Debug, PartialEq, Eq)]
pub struct Error {
    pub reason: ErrorKind,
    pub while_parsing: Parsing,
    pub loc: Loc,
}

pub type PResult<T> = Result<T, Error>;

} // verus!
