use metaref::fmt_args::FmtArgs;
use metaref::log_attr::{log, Config, Level, LogAttrError};
use metaref::tokens::{Delimiter, Token};

fn id(s: &str) -> Token {
    Token::Ident(s.to_string())
}

fn p(c: char) -> Token {
    Token::Punct(c, false)
}

fn lit(s: &str) -> Token {
    Token::Literal(s.to_string())
}

fn seg(out: &mut Vec<Token>, name: &str) {
    out.push(Token::Punct(':', true));
    out.push(p(':'));
    out.push(id(name));
}

/// fn add(a: i32, b: i32) -> i32 { a + b }
fn add_fn() -> Vec<Token> {
    vec![
        id("fn"),
        id("add"),
        Token::Open(Delimiter::Parenthesis),
        id("a"),
        p(':'),
        id("i32"),
        p(','),
        id("b"),
        p(':'),
        id("i32"),
        Token::Close(Delimiter::Parenthesis),
        Token::Punct('-', true),
        p('>'),
        id("i32"),
        Token::Open(Delimiter::Brace),
        id("a"),
        p('+'),
        id("b"),
        Token::Close(Delimiter::Brace),
    ]
}

fn names(a: &FmtArgs) -> Vec<&str> {
    a.fmt_args.iter().map(|s| s.as_str()).collect()
}

#[test]
fn format_with_all_placeholder_kinds() {
    let a = FmtArgs::parse_fmt_args("{fn}({a},{b}) = {return}");
    assert!(a.takes_fn_name);
    assert!(a.takes_return_value);
    assert_eq!(names(&a), vec!["a", "b"]);
}

#[test]
fn format_without_placeholders() {
    let a = FmtArgs::parse_fmt_args("no placeholders");
    assert!(!a.takes_fn_name);
    assert!(!a.takes_return_value);
    assert!(a.fmt_args.is_empty());
}

#[test]
fn fn_placeholder_once_is_selected() {
    let a = FmtArgs::parse_fmt_args("called {fn}");
    assert!(a.takes_fn_name);
    assert!(!a.takes_return_value);
    assert!(a.fmt_args.is_empty());
}

#[test]
fn escaped_braces_make_no_placeholder() {
    let a = FmtArgs::parse_fmt_args("{{x}}");
    assert!(!a.takes_fn_name);
    assert!(!a.takes_return_value);
    assert!(a.fmt_args.is_empty());
    let b = FmtArgs::parse_fmt_args("{{x}} {a} {{{b}}}");
    assert_eq!(names(&b), vec!["a", "b"]);
}

#[test]
fn format_spec_is_not_part_of_the_name() {
    let a = FmtArgs::parse_fmt_args("{a:?} {return:>8} {a}");
    assert!(a.takes_return_value);
    assert_eq!(names(&a), vec!["a"]);
}

#[test]
fn positional_captures_are_not_named() {
    let a = FmtArgs::parse_fmt_args("{} {0} {x1}");
    assert_eq!(names(&a), vec!["x1"]);
}

#[test]
fn levels_are_spelled_exactly() {
    assert_eq!(Level::from_name("Info"), Some(Level::Info));
    assert_eq!(Level::from_name("Trace"), Some(Level::Trace));
    assert_eq!(Level::from_name("info"), None);
    assert_eq!(Level::Warn.name(), "Warn");
    assert_eq!(Level::Error.name(), "Error");
    assert_eq!(Level::Debug.name(), "Debug");
}

#[test]
fn config_reads_level_and_format() {
    let c = Config::new(&vec![id("Warn"), p(','), lit("\"a\\tb\""), p(',')]).unwrap();
    assert_eq!(c.log_level, Level::Warn);
    assert_eq!(c.fmt_string, "a\tb");
    assert_eq!(c.fmt_literal, "\"a\\tb\"");
}

#[test]
fn config_errors() {
    assert!(matches!(Config::new(&vec![]), Err(LogAttrError::ExpectedLevel(0))));
    assert!(matches!(Config::new(&vec![lit("\"x\"")]), Err(LogAttrError::ExpectedLevel(0))));
    assert!(matches!(Config::new(&vec![id("Loud"), p(','), lit("\"x\"")]), Err(LogAttrError::UnknownLevel(0))));
    assert!(matches!(Config::new(&vec![id("info"), p(','), lit("\"x\"")]), Err(LogAttrError::UnknownLevel(0))));
    assert!(matches!(Config::new(&vec![id("Info"), lit("\"x\"")]), Err(LogAttrError::ExpectedComma(1))));
    assert!(matches!(Config::new(&vec![id("Info"), p(',')]), Err(LogAttrError::ExpectedFormat(2))));
    assert!(matches!(Config::new(&vec![id("Info"), p(','), lit("42")]), Err(LogAttrError::ExpectedFormat(2))));
    assert!(matches!(
        Config::new(&vec![id("Info"), p(','), lit("\"x\""), id("y")]),
        Err(LogAttrError::UnexpectedToken(3))
    ));
    assert!(matches!(
        Config::new(&vec![id("Info"), p(','), lit("\"x\""), p(','), p(',')]),
        Err(LogAttrError::UnexpectedToken(3))
    ));
}

#[test]
fn add_is_wrapped_with_all_placeholders() {
    let fmt = "\"{fn}({a},{b}) = {return}\"";
    let out = log(&vec![id("Info"), p(','), lit(fmt)], &add_fn()).unwrap();
    let item = add_fn();
    let mut expected: Vec<Token> = item[..14].to_vec();
    expected.push(Token::Open(Delimiter::Brace));
    expected.push(id("let"));
    expected.push(id("__RET_VALUE__"));
    expected.push(p('='));
    expected.extend(item[14..].iter().cloned());
    expected.push(p(';'));
    seg(&mut expected, "log");
    seg(&mut expected, "log");
    expected.push(p('!'));
    expected.push(Token::Open(Delimiter::Parenthesis));
    seg(&mut expected, "log");
    seg(&mut expected, "Level");
    seg(&mut expected, "Info");
    expected.push(p(','));
    expected.push(lit(fmt));
    expected.push(p(','));
    expected.push(id("fn"));
    expected.push(p('='));
    seg(&mut expected, "core");
    seg(&mut expected, "stringify");
    expected.push(p('!'));
    expected.push(Token::Open(Delimiter::Parenthesis));
    expected.push(id("add"));
    expected.push(Token::Close(Delimiter::Parenthesis));
    expected.push(p(','));
    expected.push(id("return"));
    expected.push(p('='));
    expected.push(id("__RET_VALUE__"));
    expected.push(p(','));
    for n in ["a", "b"] {
        expected.push(id(n));
        expected.push(p('='));
        expected.push(id(n));
        expected.push(p(','));
    }
    expected.push(Token::Close(Delimiter::Parenthesis));
    expected.push(p(';'));
    expected.push(id("__RET_VALUE__"));
    expected.push(Token::Close(Delimiter::Brace));
    assert_eq!(out, expected);
}

#[test]
fn add_is_wrapped_without_placeholders() {
    let fmt = "\"no placeholders\"";
    let out = log(&vec![id("Debug"), p(','), lit(fmt)], &add_fn()).unwrap();
    let item = add_fn();
    let mut expected: Vec<Token> = item[..14].to_vec();
    expected.push(Token::Open(Delimiter::Brace));
    expected.push(id("let"));
    expected.push(id("__RET_VALUE__"));
    expected.push(p('='));
    expected.extend(item[14..].iter().cloned());
    expected.push(p(';'));
    seg(&mut expected, "log");
    seg(&mut expected, "log");
    expected.push(p('!'));
    expected.push(Token::Open(Delimiter::Parenthesis));
    seg(&mut expected, "log");
    seg(&mut expected, "Level");
    seg(&mut expected, "Debug");
    expected.push(p(','));
    expected.push(lit(fmt));
    expected.push(p(','));
    expected.push(Token::Close(Delimiter::Parenthesis));
    expected.push(p(';'));
    expected.push(id("__RET_VALUE__"));
    expected.push(Token::Close(Delimiter::Brace));
    assert_eq!(out, expected);
}

#[test]
fn attributes_and_signature_are_kept() {
    let mut item = vec![Token::Punct('#', false), Token::Open(Delimiter::Bracket), id("inline"), Token::Close(Delimiter::Bracket), id("pub")];
    item.extend(add_fn());
    let out = log(&vec![id("Trace"), p(','), lit("\"{fn}\"")], &item).unwrap();
    assert_eq!(&out[..19], &item[..19]);
    assert_eq!(out[19], Token::Open(Delimiter::Brace));
    assert_eq!(&out[23..28], &item[19..24]);
}

#[test]
fn item_errors() {
    let args = vec![id("Info"), p(','), lit("\"x\"")];
    assert!(matches!(log(&args, &vec![id("struct"), id("S"), p(';')]), Err(LogAttrError::ExpectedBody)));
    assert!(matches!(log(&args, &vec![]), Err(LogAttrError::ExpectedBody)));
    let no_fn = vec![id("impl"), id("S"), Token::Open(Delimiter::Brace), Token::Close(Delimiter::Brace)];
    assert!(matches!(log(&args, &no_fn), Err(LogAttrError::ExpectedFnName)));
    assert!(matches!(log(&vec![id("Loud"), p(','), lit("\"x\"")], &add_fn()), Err(LogAttrError::UnknownLevel(0))));
}

#[test]
fn config_from_value_takes_the_given_value() {
    let args = vec![id("Error"), p(','), lit("\"raw\"")];
    let c = Config::from_value(&args, Some("given".to_string())).unwrap();
    assert_eq!(c.log_level, Level::Error);
    assert_eq!(c.fmt_string, "given");
    assert_eq!(c.fmt_literal, "\"raw\"");
    assert!(matches!(Config::from_value(&args, None), Err(LogAttrError::ExpectedFormat(2))));
    assert!(matches!(Config::from_value(&vec![id("Nope")], Some("x".to_string())), Err(LogAttrError::UnknownLevel(0))));
}

#[test]
fn captures_that_are_no_identifier_are_not_named() {
    let a = FmtArgs::parse_fmt_args("{a.b} {a b} {é} {_x} {x:?}");
    assert_eq!(names(&a), vec!["_x", "x"]);
}

#[test]
fn c_string_format_is_refused_without_panic() {
    assert!(matches!(Config::new(&vec![id("Info"), p(','), lit("c\"x\"")]), Err(LogAttrError::ExpectedFormat(2))));
    assert!(matches!(Config::new(&vec![id("Info"), p(','), lit("b\"x\"")]), Err(LogAttrError::ExpectedFormat(2))));
    let raw = Config::new(&vec![id("Info"), p(','), lit("r#\"{a}\"#")]).unwrap();
    assert_eq!(raw.fmt_string, "{a}");
}
