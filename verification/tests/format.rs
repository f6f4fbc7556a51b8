use conlang::format::{delimit, separate, Delimiters, Indent, Pretty, Prettifier};
use conlang::ast::{Continue, Identifier, Literal, Path, PathPart};
use conlang::printer::{PrettyPrintable, Printer};

fn pretty(text: &str) -> String {
    let mut p = Prettifier::new(Vec::new());
    assert_eq!(p.write(text.as_bytes()), text.len());
    String::from_utf8(p.into_output()).unwrap()
}

#[test]
fn braces_indent_following_lines() {
    // each run of text up to a brace is indented by the level after that brace
    assert_eq!(pretty("fn f() {\nx;\n"), "fn f() {\n    x;\n    ");
    assert_eq!(pretty("fn f() {\nx\n}"), "fn f() {\nx\n}");
}

#[test]
fn nested_braces() {
    assert_eq!(pretty("{\n{\na\n}\n}"), "{\n        {\n    a\n    }\n}");
}

#[test]
fn plain_text_is_unchanged() {
    assert_eq!(pretty("let x = 1;"), "let x = 1;");
}

#[test]
fn level_follows_braces() {
    let mut p = Prettifier::new(Vec::new());
    p.write(b"{ { } {");
    assert_eq!(p.level(), 2);
}

#[test]
fn custom_indent() {
    let mut p = Prettifier::with_indent("\t", b"> ".to_vec());
    p.write(b"{\nx");
    assert_eq!(String::from_utf8(p.into_output()).unwrap(), "> {\n\tx");
}

#[test]
fn write_indentation_counts_bytes() {
    let mut p = Prettifier::with_indent("ab", Vec::new());
    p.write(b"{{");
    assert_eq!(p.write_indentation(), 4);
    assert_eq!(p.output(), &b"{{abab".to_vec());
}

#[test]
fn indent_guard() {
    let p = Vec::new().pretty();
    let mut i: Indent = p.indent();
    i.write(b"a\nb");
    let p = i.finish();
    assert_eq!(p.level(), 0);
    assert_eq!(String::from_utf8(p.into_output()).unwrap(), "a\n    b");
    let q = Indent::new(Prettifier::new(Vec::new()));
    assert_eq!(q.finish().level(), 0);
}

#[test]
fn delimiters() {
    assert_eq!(delimit("x", Delimiters::braces()), "{\nx\n}");
    assert_eq!(delimit("x", Delimiters::inline_braces()), "{ x }");
    assert_eq!(delimit("x", Delimiters::parens()), "(\nx\n)");
    assert_eq!(delimit("x", Delimiters::inline_parens()), "(x)");
    assert_eq!(delimit("x", Delimiters::square()), "[\nx\n]");
    assert_eq!(delimit("x", Delimiters::inline_square()), "[x]");
}

#[test]
fn separated_lists() {
    let items: Vec<String> = vec!["a".into(), "b".into(), "c".into()];
    assert_eq!(separate(&items, ", "), "a, b, c");
    assert_eq!(separate(&items[..1], ", "), "a");
    assert_eq!(separate(&[], ", "), "");
}

#[test]
fn printer_layout() {
    let mut p = Printer::new(String::new());
    p.put("fn");
    p.space();
    p.put("f");
    p.indent();
    p.newline();
    p.put("x");
    p.dedent();
    p.newline();
    p.put("}");
    assert_eq!(p.level(), 0);
    assert_eq!(p.into_output(), "fn f\n    x\n}");
}

#[test]
fn printer_pad() {
    let mut p = Printer::new(String::from(">"));
    p.indent();
    p.indent();
    p.pad();
    assert_eq!(p.output(), ">        ");
}

#[test]
fn pretty_printable_leaves() {
    let mut p = Printer::new(String::new());
    p.indent();
    Identifier(String::from("x")).visit(&mut p);
    p.space();
    PathPart::SuperKw.visit(&mut p);
    p.space();
    let path = Path {
        absolute: true,
        parts: vec![PathPart::SelfKw, PathPart::Ident(Identifier(String::from("y")))],
    };
    path.visit(&mut p);
    p.space();
    Literal::Int(42).visit(&mut p);
    p.space();
    Literal::String(String::from("hi")).visit(&mut p);
    p.space();
    Literal::Char('c').visit(&mut p);
    p.space();
    Continue.visit(&mut p);
    assert_eq!(p.level(), 1);
    assert_eq!(p.into_output(), "x super ::self::y 42 \"hi\" 'c' continue");
}
