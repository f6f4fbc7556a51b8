use conlang::ast::{AssignKind, BinaryKind, Loc, Mutability, Span, UnaryKind, Visibility};
use conlang::lexer::Lexer;
use conlang::token::{Keyword, Type};

#[test]
fn locations() {
    let l = Loc(3, 7);
    assert_eq!((l.line(), l.col()), (3, 7));
    let s = Span(Loc(1, 1), Loc(1, 5));
    assert_eq!(s.head.col(), 1);
    assert_eq!(s.tail.col(), 5);
    let lexer = Lexer::new("abc");
    let here = Loc::from_lexer(&lexer);
    assert_eq!((here.line(), here.col()), (1, 1));
}

#[test]
fn qualifiers() {
    assert_eq!(Mutability::Mut.as_str(), "mut ");
    assert_eq!(Mutability::Not.as_str(), "");
    assert_eq!(Visibility::Public.as_str(), "pub ");
    assert_eq!(Visibility::Private.as_str(), "");
}

#[test]
fn operator_spellings() {
    assert_eq!(AssignKind::Plain.as_str(), "=");
    assert_eq!(BinaryKind::Add.as_str(), "+");
    assert_eq!(UnaryKind::Neg.as_str(), "-");
}

#[test]
fn keyword_names() {
    assert_eq!(Keyword::While.as_str(), "while");
    assert_eq!(Keyword::from_str("fn"), Ok(Keyword::Fn));
    assert_eq!(Keyword::from_str("fun"), Err(()));
    assert_eq!(Type::Keyword(Keyword::If).name(), "if");
}

#[test]
fn keyword_round_trip() {
    for k in [Keyword::Break, Keyword::Continue, Keyword::Else, Keyword::False, Keyword::For,
              Keyword::Fn, Keyword::If, Keyword::In, Keyword::Let, Keyword::Return,
              Keyword::True, Keyword::While] {
        assert_eq!(Keyword::from_str(k.as_str()), Ok(k));
    }
}

#[test]
fn locations_order_by_line_then_column() {
    assert!(Loc(1, 9) < Loc(2, 1));
    assert!(Loc(2, 1) < Loc(2, 3));
    assert!(Loc(3, 1) > Loc(2, 7));
    assert!(Loc(2, 3) <= Loc(2, 3));
    assert_eq!(Loc(4, 4).partial_cmp(&Loc(4, 4)), Some(std::cmp::Ordering::Equal));
    assert_eq!(Loc(4, 4).cmp(&Loc(4, 5)), std::cmp::Ordering::Less);
}
