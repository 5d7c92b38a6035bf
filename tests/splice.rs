use metaref::splice::{int_lexeme, parse_request_of, raw_contents, splice, splice_with, SpliceError};
use metaref::tokens::{Delimiter, Token};

fn id(s: &str) -> Token {
    Token::Ident(s.to_string())
}

fn p(c: char) -> Token {
    Token::Punct(c, false)
}

fn lit(s: &str) -> Token {
    Token::Literal(s.to_string())
}

fn open(d: Delimiter) -> Token {
    Token::Open(d)
}

fn close(d: Delimiter) -> Token {
    Token::Close(d)
}

#[test]
fn identity_gives_back_the_placeholder() {
    let input = vec![id("X"), p('='), id("X"), p(','), open(Delimiter::Brace), id("X"), close(Delimiter::Brace)];
    assert_eq!(splice(&input), Ok(vec![id("X")]));
}

#[test]
fn string_literal_spelling_the_placeholder_is_untouched() {
    let input = vec![
        id("X"),
        p('='),
        id("foo"),
        p(','),
        open(Delimiter::Brace),
        lit("\"X\""),
        close(Delimiter::Brace),
    ];
    assert_eq!(splice(&input), Ok(vec![lit("\"X\"")]));
}

#[test]
fn parts_join_into_one_identifier() {
    let input = vec![
        id("X"),
        p('='),
        id("foo"),
        p(','),
        id("_"),
        p(','),
        id("bar"),
        open(Delimiter::Brace),
        id("X"),
        close(Delimiter::Brace),
    ];
    let q = parse_request_of(&input).unwrap();
    assert_eq!(q.joined, "foo_bar");
    assert_eq!(q.placeholder, "X");
    assert_eq!(q.block_start, 7);
    assert_eq!(splice(&input), Ok(vec![id("foo_bar")]));
}

#[test]
fn function_name_is_spliced() {
    // ident = my, _, fn { fn ident() { return 1; } }
    let input = vec![
        id("ident"),
        p('='),
        id("my"),
        p(','),
        id("_"),
        p(','),
        id("fn"),
        open(Delimiter::Brace),
        id("fn"),
        id("ident"),
        open(Delimiter::Parenthesis),
        close(Delimiter::Parenthesis),
        open(Delimiter::Brace),
        id("return"),
        lit("1"),
        p(';'),
        close(Delimiter::Brace),
        close(Delimiter::Brace),
    ];
    let expected = vec![
        id("fn"),
        id("my_fn"),
        open(Delimiter::Parenthesis),
        close(Delimiter::Parenthesis),
        open(Delimiter::Brace),
        id("return"),
        lit("1"),
        p(';'),
        close(Delimiter::Brace),
    ];
    assert_eq!(splice(&input), Ok(expected));
}

#[test]
fn integer_part_is_spliced() {
    // ident = t, 42, { let ident = 0; }
    let input = vec![
        id("ident"),
        p('='),
        id("t"),
        p(','),
        lit("42"),
        p(','),
        open(Delimiter::Brace),
        id("let"),
        id("ident"),
        p('='),
        lit("0"),
        p(';'),
        close(Delimiter::Brace),
    ];
    let expected = vec![id("let"), id("t42"), p('='), lit("0"), p(';')];
    assert_eq!(splice(&input), Ok(expected));
}

#[test]
fn string_and_char_parts_lose_their_quotes() {
    let input = vec![
        id("x"),
        p('='),
        lit("\"ab\""),
        p(','),
        lit("'c'"),
        p(','),
        id("true"),
        open(Delimiter::Brace),
        id("x"),
        close(Delimiter::Brace),
    ];
    assert_eq!(splice(&input), Ok(vec![id("abctrue")]));
}

#[test]
fn nested_groups_are_renamed_too() {
    let input = vec![
        id("x"),
        p('='),
        id("y"),
        open(Delimiter::Brace),
        open(Delimiter::Parenthesis),
        open(Delimiter::Bracket),
        id("x"),
        close(Delimiter::Bracket),
        close(Delimiter::Parenthesis),
        id("z"),
        close(Delimiter::Brace),
    ];
    let expected = vec![
        open(Delimiter::Parenthesis),
        open(Delimiter::Bracket),
        id("y"),
        close(Delimiter::Bracket),
        close(Delimiter::Parenthesis),
        id("z"),
    ];
    assert_eq!(splice(&input), Ok(expected));
}

#[test]
fn empty_input_wants_an_identifier() {
    assert_eq!(splice(&vec![]), Err(SpliceError::ExpectedIdent(0)));
    assert_eq!(splice(&vec![lit("1")]), Err(SpliceError::ExpectedIdent(0)));
}

#[test]
fn missing_equals_is_refused() {
    let input = vec![id("x"), p(','), id("y"), open(Delimiter::Brace), close(Delimiter::Brace)];
    assert_eq!(splice(&input), Err(SpliceError::ExpectedEquals(1)));
    assert_eq!(splice(&vec![id("x")]), Err(SpliceError::UnexpectedEnd(1)));
}

#[test]
fn bad_part_is_refused() {
    let input = vec![id("x"), p('='), p('+'), open(Delimiter::Brace), close(Delimiter::Brace)];
    assert_eq!(splice(&input), Err(SpliceError::BadPart(2)));
    let float = vec![id("x"), p('='), lit("1.5"), open(Delimiter::Brace), close(Delimiter::Brace)];
    assert_eq!(splice(&float), Err(SpliceError::BadPart(2)));
}

#[test]
fn part_without_comma_or_block_is_refused() {
    let input = vec![id("x"), p('='), id("a"), id("b"), open(Delimiter::Brace), close(Delimiter::Brace)];
    assert_eq!(splice(&input), Err(SpliceError::ExpectedBlock(3)));
}

#[test]
fn input_ending_before_block_is_refused() {
    let input = vec![id("x"), p('='), id("a"), p(',')];
    assert_eq!(splice(&input), Err(SpliceError::UnexpectedEnd(4)));
    let input = vec![id("x"), p('='), id("a")];
    assert_eq!(splice(&input), Err(SpliceError::UnexpectedEnd(3)));
}

#[test]
fn unterminated_block_is_refused() {
    let input = vec![id("x"), p('='), id("a"), open(Delimiter::Brace), id("x")];
    assert_eq!(splice(&input), Err(SpliceError::UnterminatedBlock(3)));
    let trailing = vec![
        id("x"),
        p('='),
        id("a"),
        open(Delimiter::Brace),
        close(Delimiter::Brace),
        id("y"),
    ];
    assert_eq!(splice(&trailing), Err(SpliceError::UnterminatedBlock(3)));
    let unbalanced = vec![
        id("x"),
        p('='),
        id("a"),
        open(Delimiter::Brace),
        close(Delimiter::Parenthesis),
        close(Delimiter::Brace),
    ];
    assert_eq!(splice(&unbalanced), Err(SpliceError::UnterminatedBlock(3)));
}

#[test]
fn joined_parts_that_are_no_identifier_are_refused() {
    let space = vec![id("x"), p('='), lit("\"a b\""), open(Delimiter::Brace), close(Delimiter::Brace)];
    assert_eq!(splice(&space), Err(SpliceError::NotAnIdentifier(2)));
    let digit_first = vec![id("x"), p('='), lit("1"), p(','), id("a"), open(Delimiter::Brace), close(Delimiter::Brace)];
    assert_eq!(splice(&digit_first), Err(SpliceError::NotAnIdentifier(2)));
    let none = vec![id("x"), p('='), open(Delimiter::Brace), close(Delimiter::Brace)];
    assert_eq!(splice(&none), Err(SpliceError::NotAnIdentifier(2)));
}

#[test]
fn float_literals_are_no_parts() {
    for f in ["1e5", "1E3", "2f32", "3f64", "1.0", "7u7"] {
        let input = vec![id("x"), p('='), id("a"), p(','), lit(f), open(Delimiter::Brace), close(Delimiter::Brace)];
        assert_eq!(splice(&input), Err(SpliceError::BadPart(4)), "{f}");
    }
}

#[test]
fn integer_literals_in_every_base_are_parts() {
    for (l, ok) in [
        ("42", true),
        ("1_000", true),
        ("0x1Fu8", true),
        ("0o17", true),
        ("0b1010i64", true),
        ("7usize", true),
        ("0x", false),
        ("0b2", false),
        ("1e5", false),
        ("12f32", false),
        ("3.5", false),
    ] {
        assert_eq!(int_lexeme(l), ok, "{l}");
    }
    let input = vec![id("x"), p('='), id("v"), p(','), lit("0x1Fu8"), open(Delimiter::Brace), id("x"), close(Delimiter::Brace)];
    assert_eq!(splice(&input), Ok(vec![id("v0x1Fu8")]));
}

#[test]
fn raw_string_parts_give_their_contents() {
    assert_eq!(raw_contents("r\"ab\""), Some("ab".to_string()));
    assert_eq!(raw_contents("r#\"a\"b\"#"), Some("a\"b".to_string()));
    assert_eq!(raw_contents("r#\"ab\""), None);
    assert_eq!(raw_contents("\"ab\""), None);
    let input = vec![id("x"), p('='), lit("r#\"ab\"#"), p(','), id("c"), open(Delimiter::Brace), id("x"), close(Delimiter::Brace)];
    assert_eq!(splice(&input), Ok(vec![id("abc")]));
    let bytes = vec![id("x"), p('='), lit("b\"ab\""), open(Delimiter::Brace), close(Delimiter::Brace)];
    assert_eq!(splice(&bytes), Err(SpliceError::BadPart(2)));
}

#[test]
fn splice_with_uses_the_given_name() {
    let input = vec![id("x"), p('='), id("a"), p(','), id("b"), open(Delimiter::Brace), id("x"), p(';'), close(Delimiter::Brace)];
    assert_eq!(splice_with(&input, Some("renamed".to_string())), Ok(vec![id("renamed"), p(';')]));
    assert_eq!(splice_with(&input, None), Err(SpliceError::NotAnIdentifier(2)));
    let bad = vec![id("x"), p(',')];
    assert_eq!(splice_with(&bad, Some("n".to_string())), Err(SpliceError::ExpectedEquals(1)));
}
