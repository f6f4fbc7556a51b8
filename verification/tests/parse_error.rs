use conlang::lexer::{Error as LexError, Lexer, Reason};
use conlang::parse_error::{ErrorKind, Parsing};
use conlang::token::Type;

#[test]
fn parsing_names() {
    assert_eq!(Parsing::ArrayRep.as_str(), "an array of form [k;N]");
    assert_eq!(Parsing::Let.as_str(), "a local variable declaration");
}

#[test]
fn error_kind_text() {
    assert_eq!(ErrorKind::EndOfInput.to_text(), "End of input");
    assert_eq!(
        ErrorKind::Expected { want: Type::Semi, got: Type::Comma }.to_text(),
        format!("Expected {}, but got {}", Type::Semi.name(), Type::Comma.name())
    );
    assert_eq!(
        ErrorKind::Unexpected(Type::Dot).to_text(),
        format!("Encountered unexpected token `{}`", Type::Dot.name())
    );
}

#[test]
fn lexical_errors_convert() {
    let mut lexer = Lexer::new("");
    let eof: LexError = lexer.scan().unwrap_err();
    assert_eq!(ErrorKind::from(eof), ErrorKind::EndOfInput);
    let mut lexer = Lexer::new("$");
    let bad: LexError = lexer.scan().unwrap_err();
    assert_eq!(*bad.reason(), Reason::UnexpectedChar('$'));
    assert_eq!(ErrorKind::from(bad.clone()), ErrorKind::Lexical(bad));
}
