use conlang::lexer::{Lexer, Reason};
use conlang::token::{Keyword, Token, TokenData, Type};

fn tokens(text: &str) -> Vec<Token> {
    let mut lexer = Lexer::new(text);
    let mut out = vec![];
    while let Some(t) = lexer.next_token() {
        out.push(t.unwrap());
    }
    out
}

fn types(text: &str) -> Vec<Type> {
    tokens(text).into_iter().map(|t| t.ty()).collect()
}

fn data(text: &str) -> Vec<TokenData> {
    tokens(text).into_iter().map(|t| t.into_data()).collect()
}

fn ident(names: &[&str]) -> Vec<TokenData> {
    names.iter().map(|n| TokenData::Identifier(n.to_string())).collect()
}

fn ints(values: &[u128]) -> Vec<TokenData> {
    values.iter().map(|v| TokenData::Integer(*v)).collect()
}

fn kw(k: &[Keyword]) -> Vec<Type> {
    k.iter().map(|k| Type::Keyword(*k)).collect()
}

#[test]
fn underscore() {
    assert_eq!(data("_ _"), ident(&["_", "_"]));
}

#[test]
fn unicode() {
    assert_eq!(data("_ε ε_"), ident(&["_ε", "ε_"]));
}

#[test]
fn many_underscore() {
    assert_eq!(
        data("____________________________________"),
        ident(&["____________________________________"])
    );
}

#[test]
fn kw_break() {
    assert_eq!(types("break break"), kw(&[Keyword::Break, Keyword::Break]));
}

#[test]
fn kw_continue() {
    assert_eq!(types("continue continue"), kw(&[Keyword::Continue, Keyword::Continue]));
}

#[test]
fn kw_else() {
    assert_eq!(types("else else"), kw(&[Keyword::Else, Keyword::Else]));
}

#[test]
fn kw_false() {
    assert_eq!(types("false false"), kw(&[Keyword::False, Keyword::False]));
}

#[test]
fn kw_for() {
    assert_eq!(types("for for"), kw(&[Keyword::For, Keyword::For]));
}

#[test]
fn kw_fn() {
    assert_eq!(types("fn fn"), kw(&[Keyword::Fn, Keyword::Fn]));
}

#[test]
fn kw_if() {
    assert_eq!(types("if if"), kw(&[Keyword::If, Keyword::If]));
}

#[test]
fn kw_in() {
    assert_eq!(types("in in"), kw(&[Keyword::In, Keyword::In]));
}

#[test]
fn kw_let() {
    assert_eq!(types("let let"), kw(&[Keyword::Let, Keyword::Let]));
}

#[test]
fn kw_return() {
    assert_eq!(types("return return"), kw(&[Keyword::Return, Keyword::Return]));
}

#[test]
fn kw_true() {
    assert_eq!(types("true true"), kw(&[Keyword::True, Keyword::True]));
}

#[test]
fn kw_while() {
    assert_eq!(types("while while"), kw(&[Keyword::While, Keyword::While]));
}

#[test]
fn keywords() {
    assert_eq!(
        types("break continue else false for fn if in let return true while"),
        kw(&[
            Keyword::Break,
            Keyword::Continue,
            Keyword::Else,
            Keyword::False,
            Keyword::For,
            Keyword::Fn,
            Keyword::If,
            Keyword::In,
            Keyword::Let,
            Keyword::Return,
            Keyword::True,
            Keyword::While,
        ])
    );
}

#[test]
fn hex() {
    assert_eq!(data("0x0 0x1 0x15 0x2100 0x8000"), ints(&[0x0, 0x1, 0x15, 0x2100, 0x8000]));
}

#[test]
fn dec() {
    assert_eq!(data("0d0 0d1 0d21 0d8448 0d32768"), ints(&[0, 0x1, 0x15, 0x2100, 0x8000]));
}

#[test]
fn oct() {
    assert_eq!(data("0o0 0o1 0o25 0o20400 0o100000"), ints(&[0x0, 0x1, 0x15, 0x2100, 0x8000]));
}

#[test]
fn bin() {
    assert_eq!(
        data("0b0 0b1 0b10101 0b10000100000000 0b1000000000000000"),
        ints(&[0x0, 0x1, 0x15, 0x2100, 0x8000])
    );
}

#[test]
fn baseless() {
    assert_eq!(data("0 1 21 8448 32768"), ints(&[0x0, 0x1, 0x15, 0x2100, 0x8000]));
}

#[test]
fn empty_string() {
    assert_eq!(data("\"\""), vec![TokenData::String(String::from(""))]);
}

#[test]
fn unicode_string() {
    assert_eq!(data("\"I 💙 🦈!\""), vec![TokenData::String(String::from("I 💙 🦈!"))]);
}

#[test]
fn escape_string() {
    assert_eq!(
        data(" \"This is a shark: \\u{1f988}\" "),
        vec![TokenData::String(String::from("This is a shark: 🦈"))]
    );
}

fn punct(text: &str, ty: Type) {
    assert_eq!(types(text), vec![ty, ty], "{text}");
}

#[test]
fn l_curly() { punct("{ {", Type::LCurly); }
#[test]
fn r_curly() { punct("} }", Type::RCurly); }
#[test]
fn l_brack() { punct("[ [", Type::LBrack); }
#[test]
fn r_brack() { punct("] ]", Type::RBrack); }
#[test]
fn l_paren() { punct("( (", Type::LParen); }
#[test]
fn r_paren() { punct(") )", Type::RParen); }
#[test]
fn amp() { punct("& &", Type::Amp); }
#[test]
fn amp_amp() { punct("&& &&", Type::AmpAmp); }
#[test]
fn amp_eq() { punct("&= &=", Type::AmpEq); }
#[test]
fn arrow() { punct("-> ->", Type::Arrow); }
#[test]
fn at() { punct("@ @", Type::At); }
#[test]
fn backslash() { punct("\\ \\", Type::Backslash); }
#[test]
fn bang() { punct("! !", Type::Bang); }
#[test]
fn bangbang() { punct("!! !!", Type::BangBang); }
#[test]
fn bangeq() { punct("!= !=", Type::BangEq); }
#[test]
fn bar() { punct("| |", Type::Bar); }
#[test]
fn barbar() { punct("|| ||", Type::BarBar); }
#[test]
fn bareq() { punct("|= |=", Type::BarEq); }
#[test]
fn colon() { punct(": :", Type::Colon); }
#[test]
fn comma() { punct(", ,", Type::Comma); }
#[test]
fn dot() { punct(". .", Type::Dot); }
#[test]
fn dotdot() { punct(".. ..", Type::DotDot); }
#[test]
fn dotdoteq() { punct("..= ..=", Type::DotDotEq); }
#[test]
fn eq() { punct("= =", Type::Eq); }
#[test]
fn eqeq() { punct("== ==", Type::EqEq); }
#[test]
fn fatarrow() { punct("=> =>", Type::FatArrow); }
#[test]
fn grave() { punct("` `", Type::Grave); }
#[test]
fn gt() { punct("> >", Type::Gt); }
#[test]
fn gteq() { punct(">= >=", Type::GtEq); }
#[test]
fn gtgt() { punct(">> >>", Type::GtGt); }
#[test]
fn gtgteq() { punct(">>= >>=", Type::GtGtEq); }
#[test]
fn hash() { punct("# #", Type::Hash); }
#[test]
fn lt() { punct("< <", Type::Lt); }
#[test]
fn lteq() { punct("<= <=", Type::LtEq); }
#[test]
fn ltlt() { punct("<< <<", Type::LtLt); }
#[test]
fn ltlteq() { punct("<<= <<=", Type::LtLtEq); }
#[test]
fn minus() { punct("- -", Type::Minus); }
#[test]
fn minuseq() { punct("-= -=", Type::MinusEq); }
#[test]
fn plus() { punct("+ +", Type::Plus); }
#[test]
fn pluseq() { punct("+= +=", Type::PlusEq); }
#[test]
fn question() { punct("? ?", Type::Question); }
#[test]
fn rem() { punct("% %", Type::Rem); }
#[test]
fn remeq() { punct("%= %=", Type::RemEq); }
#[test]
fn semi() { punct("; ;", Type::Semi); }
#[test]
fn slash() { punct("/ /", Type::Slash); }
#[test]
fn slasheq() { punct("/= /=", Type::SlashEq); }
#[test]
fn star() { punct("* *", Type::Star); }
#[test]
fn stareq() { punct("*= *=", Type::StarEq); }
#[test]
fn tilde() { punct("~ ~", Type::Tilde); }
#[test]
fn xor() { punct("^ ^", Type::Xor); }
#[test]
fn xoreq() { punct("^= ^=", Type::XorEq); }
#[test]
fn xorxor() { punct("^^ ^^", Type::XorXor); }

#[test]
fn token_locations_are_one_based() {
    let t = tokens("a\n  bc");
    assert_eq!((t[0].line(), t[0].col()), (1, 1));
    assert_eq!((t[1].line(), t[1].col()), (2, 3));
}

#[test]
fn comments_are_tokens() {
    assert_eq!(types("// hi\n/* there */ x"), vec![Type::Comment, Type::Comment, Type::Identifier]);
}

#[test]
fn character_literal() {
    assert_eq!(data("'a' '\\n'"), vec![TokenData::Character('a'), TokenData::Character('\n')]);
}

#[test]
fn scan_reports_end_of_file() {
    let mut lexer = Lexer::new("   ");
    let e = lexer.scan().unwrap_err();
    assert_eq!(*e.reason(), Reason::EndOfFile);
}

#[test]
fn unterminated_string_is_an_error() {
    let mut lexer = Lexer::new("\"abc");
    let r = lexer.next_token();
    assert!(matches!(r, Some(Err(_))));
}

#[test]
fn unexpected_character_is_an_error() {
    let mut lexer = Lexer::new("$");
    let e = lexer.next_token().unwrap().unwrap_err();
    assert!(matches!(e.reason(), Reason::UnexpectedChar('$')));
    assert_eq!(e.location(), (1, 1));
}

#[test]
fn lexer_error_text() {
    let mut lexer = Lexer::new("  $");
    let e = lexer.next_token().unwrap().unwrap_err();
    assert_eq!(e.to_text(), "1:3: Character `$` not expected");
    assert_eq!(Reason::BadUnicode(55296).to_text(), "`55296` is not a valid unicode code-point");
    assert_eq!(Reason::EndOfFile.to_text(), "Reached end of input");
    assert_eq!(Reason::UnknownEscape('q').to_text(), "`\\q` is not a known escape sequence");
}

#[test]
fn literal_ahead_fits() {
    let lexer = Lexer::new("  340282366920938463463374607431768211455");
    assert!(lexer.literal_ahead_fits());
    let lexer = Lexer::new("340282366920938463463374607431768211456");
    assert!(!lexer.literal_ahead_fits());
    let lexer = Lexer::new("0xfffffffffffffffffffffffffffffffff");
    assert!(!lexer.literal_ahead_fits());
    let lexer = Lexer::new("abc");
    assert!(lexer.literal_ahead_fits());
}

#[test]
fn scan_doc_example_starts_with_fn() {
    let mut lexer = Lexer::new("\nfn main () {\n    // TODO: code goes here!\n}\n");
    let t = lexer.scan().unwrap();
    assert_eq!(t.ty(), Type::Keyword(Keyword::Fn));
    assert_eq!((t.line(), t.col()), (2, 1));
    let e = Lexer::new("").scan().unwrap_err();
    assert_eq!(*e.reason(), Reason::EndOfFile);
}
