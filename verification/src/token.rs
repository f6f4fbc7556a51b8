//! Tokens: a component of a file, with its type, its data and its place.
use vstd::prelude::*;
use crate::text::chars_eq_str;

verus! {

/// Stores a [Token]'s lexical information.
#[derive(Clone, Copy, Debug, PartialEq, Eq, Hash, Structural)]
pub enum Type {
    Invalid,
    Comment,
    Identifier,
    Keyword(Keyword),
    Integer,
    Float,
    String,
    Character,
    LCurly, // {
    RCurly, // }
    LBrack, // [
    RBrack, // ]
    LParen, // (
    RParen, // )
    Amp, // &
    AmpAmp, // &&
    AmpEq, // &=
    Arrow, // ->
    At, // @
    Backslash, // \
    Bang, // !
    BangBang, // !!
    BangEq, // !=
    Bar, // |
    BarBar, // ||
    BarEq, // |=
    Colon, // :
    ColonColon, // ::
    Comma, // ,
    Dot, // .
    DotDot, // ..
    DotDotEq, // ..=
    Eq, // =
    EqEq, // ==
    FatArrow, // =>
    Grave, // `
    Gt, // >
    GtEq, // >=
    GtGt, // >>
    GtGtEq, // >>=
    Hash, // #
    HashBang, // #!
    Lt, // <
    LtEq, // <=
    LtLt, // <<
    LtLtEq, // <<=
    Minus, // -
    MinusEq, // -=
    Plus, // +
    PlusEq, // +=
    Question, // ?
    Rem, // %
    RemEq, // %=
    Semi, // ;
    Slash, // /
    SlashEq, // /=
    Star, // *
    StarEq, // *=
    Tilde, // ~
    Xor, // ^
    XorEq, // ^=
    XorXor, // ^^
}

/// Represents a reserved word.
#[derive(Clone, Copy, Debug, PartialEq, Eq, Hash, Structural)]
pub enum Keyword {
    Break,
    Continue,
    Else,
    False,
    For,
    Fn,
    If,
    In,
    Let,
    Return,
    True,
    While,
}

impl Keyword {
    /// The word as it is written in source text.
    pub open spec fn spec_text(self) -> Seq<char> {
        match self {
            Keyword::Break => "break"@,
            Keyword::Continue => "continue"@,
            Keyword::Else => "else"@,
            Keyword::False => "false"@,
            Keyword::For => "for"@,
            Keyword::Fn => "fn"@,
            Keyword::If => "if"@,
            Keyword::In => "in"@,
            Keyword::Let => "let"@,
            Keyword::Return => "return"@,
            Keyword::True => "true"@,
            Keyword::While => "while"@,
        }
    }

    /// The word as it is written in source text.
    pub fn as_str(&self) -> (r: &'static str)
        ensures
            r@ == self.spec_text(),
    {
        match self {
            Keyword::Break => "break",
            Keyword::Continue => "continue",
            Keyword::Else => "else",
            Keyword::False => "false",
            Keyword::For => "for",
            Keyword::Fn => "fn",
            Keyword::If => "if",
            Keyword::In => "in",
            Keyword::Let => "let",
            Keyword::Return => "return",
            Keyword::True => "true",
            Keyword::While => "while",
        }
    }
}

/// The keyword spelled by a sequence of chars, if any.
pub open spec fn spec_keyword(s: Seq<char>) -> Option<Keyword> {
    if s == "break"@ {
        Some(Keyword::Break)
    } else if s == "continue"@ {
        Some(Keyword::Continue)
    } else if s == "else"@ {
        Some(Keyword::Else)
    } else if s == "false"@ {
        Some(Keyword::False)
    } else if s == "for"@ {
        Some(Keyword::For)
    } else if s == "fn"@ {
        Some(Keyword::Fn)
    } else if s == "if"@ {
        Some(Keyword::If)
    } else if s == "in"@ {
        Some(Keyword::In)
    } else if s == "let"@ {
        Some(Keyword::Let)
    } else if s == "return"@ {
        Some(Keyword::Return)
    } else if s == "true"@ {
        Some(Keyword::True)
    } else if s == "while"@ {
        Some(Keyword::While)
    } else {
        None
    }
}

/// The keyword spelled by a sequence of chars, if any.
pub fn keyword_from_chars(s: &[char]) -> (r: Option<Keyword>)
    ensures
        r == spec_keyword(s@),
{
    if chars_eq_str(s, "break") {
        return Some(Keyword::Break);
    }
    if chars_eq_str(s, "continue") {
        return Some(Keyword::Continue);
    }
    if chars_eq_str(s, "else") {
        return Some(Keyword::Else);
    }
    if chars_eq_str(s, "false") {
        return Some(Keyword::False);
    }
    if chars_eq_str(s, "for") {
        return Some(Keyword::For);
    }
    if chars_eq_str(s, "fn") {
        return Some(Keyword::Fn);
    }
    if chars_eq_str(s, "if") {
        return Some(Keyword::If);
    }
    if chars_eq_str(s, "in") {
        return Some(Keyword::In);
    }
    if chars_eq_str(s, "let") {
        return Some(Keyword::Let);
    }
    if chars_eq_str(s, "return") {
        return Some(Keyword::Return);
    }
    if chars_eq_str(s, "true") {
        return Some(Keyword::True);
    }
    if chars_eq_str(s, "while") {
        return Some(Keyword::While);
    }
    None
}

impl Keyword {
    /// Parses a keyword; fails when the word is not reserved.
    pub fn from_str(s: &str) -> (r: Result<Keyword, ()>)
        ensures
            r == match spec_keyword(s@) {
                Some(k) => Ok(k),
                None => Err::<Keyword, ()>(()),
            },
    {
        let v = crate::text::str_to_chars(s);
        match keyword_from_chars(v.as_slice()) {
            Some(k) => Ok(k),
            None => Err(()),
        }
    }
}

impl Type {
    /// The human-readable name of this token type.
    pub open spec fn spec_name(self) -> Seq<char> {
        match self {
            Type::Invalid => "invalid"@,
            Type::Comment => "comment"@,
            Type::Identifier => "identifier"@,
            Type::Keyword(k) => k.spec_text(),
            Type::Integer => "integer literal"@,
            Type::Float => "float literal"@,
            Type::String => "string literal"@,
            Type::Character => "char literal"@,
            Type::LCurly => "left curly"@,
            Type::RCurly => "right curly"@,
            Type::LBrack => "left brack"@,
            Type::RBrack => "right brack"@,
            Type::LParen => "left paren"@,
            Type::RParen => "right paren"@,
            Type::Amp => "and"@,
            Type::AmpAmp => "and-and"@,
            Type::AmpEq => "and-assign"@,
            Type::Arrow => "arrow"@,
            Type::At => "at"@,
            Type::Backslash => "backslash"@,
            Type::Bang => "bang"@,
            Type::BangBang => "not-not"@,
            Type::BangEq => "not equal to"@,
            Type::Bar => "or"@,
            Type::BarBar => "or-or"@,
            Type::BarEq => "or-assign"@,
            Type::Colon => "colon"@,
            Type::ColonColon => "path separator"@,
            Type::Comma => "comma"@,
            Type::Dot => "dot"@,
            Type::DotDot => "exclusive range"@,
            Type::DotDotEq => "inclusive range"@,
            Type::Eq => "assign"@,
            Type::EqEq => "equal to"@,
            Type::FatArrow => "fat arrow"@,
            Type::Grave => "grave"@,
            Type::Gt => "greater than"@,
            Type::GtEq => "greater than or equal to"@,
            Type::GtGt => "shift right"@,
            Type::GtGtEq => "shift right-assign"@,
            Type::Hash => "hash"@,
            Type::HashBang => "hash-bang"@,
            Type::Lt => "less than"@,
            Type::LtEq => "less than or equal to"@,
            Type::LtLt => "shift left"@,
            Type::LtLtEq => "shift left-assign"@,
            Type::Minus => "sub"@,
            Type::MinusEq => "sub-assign"@,
            Type::Plus => "add"@,
            Type::PlusEq => "add-assign"@,
            Type::Question => "huh?"@,
            Type::Rem => "rem"@,
            Type::RemEq => "rem-assign"@,
            Type::Semi => "ignore"@,
            Type::Slash => "div"@,
            Type::SlashEq => "div-assign"@,
            Type::Star => "star"@,
            Type::StarEq => "star-assign"@,
            Type::Tilde => "tilde"@,
            Type::Xor => "xor"@,
            Type::XorEq => "xor-assign"@,
            Type::XorXor => "cat-ears"@,
        }
    }

    /// The human-readable name of this token type.
    pub fn name(&self) -> (r: &'static str)
        ensures
            r@ == self.spec_name(),
    {
        match self {
            Type::Invalid => "invalid",
            Type::Comment => "comment",
            Type::Identifier => "identifier",
            Type::Keyword(k) => k.as_str(),
            Type::Integer => "integer literal",
            Type::Float => "float literal",
            Type::String => "string literal",
            Type::Character => "char literal",
            Type::LCurly => "left curly",
            Type::RCurly => "right curly",
            Type::LBrack => "left brack",
            Type::RBrack => "right brack",
            Type::LParen => "left paren",
            Type::RParen => "right paren",
            Type::Amp => "and",
            Type::AmpAmp => "and-and",
            Type::AmpEq => "and-assign",
            Type::Arrow => "arrow",
            Type::At => "at",
            Type::Backslash => "backslash",
            Type::Bang => "bang",
            Type::BangBang => "not-not",
            Type::BangEq => "not equal to",
            Type::Bar => "or",
            Type::BarBar => "or-or",
            Type::BarEq => "or-assign",
            Type::Colon => "colon",
            Type::ColonColon => "path separator",
            Type::Comma => "comma",
            Type::Dot => "dot",
            Type::DotDot => "exclusive range",
            Type::DotDotEq => "inclusive range",
            Type::Eq => "assign",
            Type::EqEq => "equal to",
            Type::FatArrow => "fat arrow",
            Type::Grave => "grave",
            Type::Gt => "greater than",
            Type::GtEq => "greater than or equal to",
            Type::GtGt => "shift right",
            Type::GtGtEq => "shift right-assign",
            Type::Hash => "hash",
            Type::HashBang => "hash-bang",
            Type::Lt => "less than",
            Type::LtEq => "less than or equal to",
            Type::LtLt => "shift left",
            Type::LtLtEq => "shift left-assign",
            Type::Minus => "sub",
            Type::MinusEq => "sub-assign",
            Type::Plus => "add",
            Type::PlusEq => "add-assign",
            Type::Question => "huh?",
            Type::Rem => "rem",
            Type::RemEq => "rem-assign",
            Type::Semi => "ignore",
            Type::Slash => "div",
            Type::SlashEq => "div-assign",
            Type::Star => "star",
            Type::StarEq => "star-assign",
            Type::Tilde => "tilde",
            Type::Xor => "xor",
            Type::XorEq => "xor-assign",
            Type::XorXor => "cat-ears",
        }
    }
}

} // verus!

verus! {

/// The data that a token carries.
#[derive(Clone, Debug, PartialEq)]
pub enum TokenData {
    Identifier(String),
    String(String),
    Character(char),
    Integer(u128),
    NoData,
}

/// [TokenData] with its strings seen as sequences of chars.
pub enum DataView {
    Identifier(Seq<char>),
    String(Seq<char>),
    Character(char),
    Integer(u128),
    NoData,
}

impl View for TokenData {
    type V = DataView;

    open spec fn view(&self) -> DataView {
        match self {
            TokenData::Identifier(s) => DataView::Identifier(s@),
            TokenData::String(s) => DataView::String(s@),
            TokenData::Character(c) => DataView::Character(*c),
            TokenData::Integer(v) => DataView::Integer(*v),
            TokenData::NoData => DataView::NoData,
        }
    }
}

/// A component of a file: its [Type], its [TokenData], and the line and
/// column where it starts.
#[derive(Clone, Debug, PartialEq)]
pub struct Token {
    ty: Type,
    data: TokenData,
    line: u32,
    col: u32,
}

impl Token {
    pub closed spec fn spec_ty(&self) -> Type {
        self.ty
    }

    pub closed spec fn spec_data(&self) -> DataView {
        self.data@
    }

    pub closed spec fn spec_line(&self) -> u32 {
        self.line
    }

    pub closed spec fn spec_col(&self) -> u32 {
        self.col
    }

    /// Creates a new [Token] out of a [Type], [TokenData], line, and column.
    pub fn new(ty: Type, data: TokenData, line: u32, col: u32) -> (r: Self)
        ensures
            r.spec_ty() == ty,
            r.spec_data() == data@,
            r.spec_line() == line,
            r.spec_col() == col,
    {
        Token { ty, data, line, col }
    }

    /// Casts this token to a new [Type].
    pub fn cast(self, ty: Type) -> (r: Self)
        ensures
            r.spec_ty() == ty,
            r.spec_data() == self.spec_data(),
            r.spec_line() == self.spec_line(),
            r.spec_col() == self.spec_col(),
    {
        Token { ty, ..self }
    }

    /// Gets the [Type] of this token.
    pub fn ty(&self) -> (r: Type)
        ensures
            r == self.spec_ty(),
    {
        self.ty
    }

    /// Gets the [TokenData] of this token.
    pub fn data(&self) -> (r: &TokenData)
        ensures
            r@ == self.spec_data(),
    {
        &self.data
    }

    /// Takes the [TokenData] out of this token.
    pub fn into_data(self) -> (r: TokenData)
        ensures
            r@ == self.spec_data(),
    {
        self.data
    }

    pub fn line(&self) -> (r: u32)
        ensures
            r == self.spec_line(),
    {
        self.line
    }

    pub fn col(&self) -> (r: u32)
        ensures
            r == self.spec_col(),
    {
        self.col
    }
}

} // verus!
verus! {

/// Reading the word a keyword is written as gives the keyword back.
pub proof fn law_keyword_round_trip(k: Keyword)
    ensures
        spec_keyword(k.spec_text()) == Some(k),
{
    reveal_strlit("break");
    reveal_strlit("continue");
    reveal_strlit("else");
    reveal_strlit("false");
    reveal_strlit("for");
    reveal_strlit("fn");
    reveal_strlit("if");
    reveal_strlit("in");
    reveal_strlit("let");
    reveal_strlit("return");
    reveal_strlit("true");
    reveal_strlit("while");
    assert("break"@.len() == 5 && "break"@[0] == 'b' && "break"@[1] == 'r');
    assert("continue"@.len() == 8 && "continue"@[0] == 'c' && "continue"@[1] == 'o');
    assert("else"@.len() == 4 && "else"@[0] == 'e' && "else"@[1] == 'l');
    assert("false"@.len() == 5 && "false"@[0] == 'f' && "false"@[1] == 'a');
    assert("for"@.len() == 3 && "for"@[0] == 'f' && "for"@[1] == 'o');
    assert("fn"@.len() == 2 && "fn"@[0] == 'f' && "fn"@[1] == 'n');
    assert("if"@.len() == 2 && "if"@[0] == 'i' && "if"@[1] == 'f');
    assert("in"@.len() == 2 && "in"@[0] == 'i' && "in"@[1] == 'n');
    assert("let"@.len() == 3 && "let"@[0] == 'l' && "let"@[1] == 'e');
    assert("return"@.len() == 6 && "return"@[0] == 'r' && "return"@[1] == 'e');
    assert("true"@.len() == 4 && "true"@[0] == 't' && "true"@[1] == 'r');
    assert("while"@.len() == 5 && "while"@[0] == 'w' && "while"@[1] == 'h');
}

} // verus!
