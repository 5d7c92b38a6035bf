//! The identifier splicer: `placeholder = part, part, ... { block }` becomes the
//! statements of `block`, with the placeholder renamed to the parts joined.
use vstd::prelude::*;
use vstd::string::*;
use crate::syntax::{is_plain_ident, lex_ident};
use crate::text::text_is;
use crate::text::append_chars;
use crate::tokens::{balanced, is_balanced, toks, Delimiter, Tok, Token};

verus! {

/// Why a splice request was refused; each carries the index of the offending token.
#[derive(Clone, Copy, Debug, PartialEq, Eq, Structural)]
pub enum SpliceError {
    /// The input does not start with the placeholder identifier.
    ExpectedIdent(usize),
    /// The placeholder is not followed by `=`.
    ExpectedEquals(usize),
    /// A token that cannot be a part of the new identifier.
    BadPart(usize),
    /// After a part, neither `,` nor the block.
    ExpectedBlock(usize),
    /// The input ended before the block.
    UnexpectedEnd(usize),
    /// The block's brace is not closed by the last token, or not properly nested.
    UnterminatedBlock(usize),
    /// The joined parts do not form an identifier; the index is that of the first part.
    NotAnIdentifier(usize),
}

pub open spec fn is_digit(c: char) -> bool {
    '0' <= c && c <= '9'
}

pub open spec fn is_word_char(c: char) -> bool {
    is_digit(c) || ('a' <= c && c <= 'z') || ('A' <= c && c <= 'Z') || c == '_'
}

/// Whether `c` is a digit in base `radix` (2, 8, 16; any other value means 10).
pub open spec fn is_radix_digit(c: char, radix: nat) -> bool {
    if radix == 2 {
        c == '0' || c == '1'
    } else if radix == 8 {
        '0' <= c && c <= '7'
    } else if radix == 16 {
        is_digit(c) || ('a' <= c && c <= 'f') || ('A' <= c && c <= 'F')
    } else {
        is_digit(c)
    }
}

/// The base that an integer literal's prefix (`0x`, `0o`, `0b`, or none) gives.
pub open spec fn radix_of(s: Seq<char>) -> nat {
    if s.len() >= 2 && s[0] == '0' && s[1] == 'x' {
        16
    } else if s.len() >= 2 && s[0] == '0' && s[1] == 'o' {
        8
    } else if s.len() >= 2 && s[0] == '0' && s[1] == 'b' {
        2
    } else {
        10
    }
}

/// Where the digits start: after the prefix, if any.
pub open spec fn digits_start(s: Seq<char>) -> int {
    if radix_of(s) == 10 {
        0
    } else {
        2
    }
}

/// Where the type suffix starts: the first `u` or `i` from `i` on (neither is a digit
/// in any base), or the end.
pub open spec fn suffix_start(s: Seq<char>, i: int) -> int
    decreases s.len() - i,
{
    if i < 0 || i >= s.len() {
        s.len() as int
    } else if s[i] == 'u' || s[i] == 'i' {
        i
    } else {
        suffix_start(s, i + 1)
    }
}

/// No suffix, or an integer type's name.
pub open spec fn is_int_suffix(t: Seq<char>) -> bool {
    ||| t.len() == 0
    ||| t == "u8"@ || t == "u16"@ || t == "u32"@ || t == "u64"@ || t == "u128"@ || t == "usize"@
    ||| t == "i8"@ || t == "i16"@ || t == "i32"@ || t == "i64"@ || t == "i128"@ || t == "isize"@
}

/// An integer literal as written: an optional `0x`, `0o` or `0b` prefix, digits of
/// that base and underscores (at least one digit), then an optional integer type
/// suffix. A fraction, an exponent or a float suffix makes it no integer.
pub open spec fn is_int_lexeme(s: Seq<char>) -> bool {
    let radix = radix_of(s);
    let a = digits_start(s);
    let k = suffix_start(s, a);
    &&& s.len() > 0
    &&& is_digit(s[0])
    &&& forall|i: int| a <= i < k ==> is_radix_digit(#[trigger] s[i], radix) || s[i] == '_'
    &&& exists|i: int| a <= i < k && is_radix_digit(#[trigger] s[i], radix)
    &&& is_int_suffix(s.subrange(k, s.len() as int))
}

/// How many `#` follow index `i`.
pub open spec fn hashes_from(s: Seq<char>, i: int) -> nat
    decreases s.len() - i,
{
    if 0 <= i < s.len() && s[i] == '#' {
        1 + hashes_from(s, i + 1)
    } else {
        0
    }
}

/// The contents of a raw string literal `r#..#"…"#..#`.
pub open spec fn raw_str_contents(s: Seq<char>) -> Option<Seq<char>> {
    let n = hashes_from(s, 1) as int;
    if s.len() >= 2 * n + 3 && s[0] == 'r' && s[n + 1] == '"' && s[s.len() - n - 1] == '"' && (
    forall|i: int| s.len() - n <= i < s.len() ==> #[trigger] s[i] == '#') {
        Some(s.subrange(n + 2, s.len() - n - 1))
    } else {
        None
    }
}

/// A literal enclosed in the quote character `q`.
pub open spec fn is_quoted(s: Seq<char>, q: char) -> bool {
    s.len() >= 2 && s[0] == q && s[s.len() - 1] == q
}

/// What a part adds to the new identifier: an identifier (`_` among them, and
/// `true` and `false`) its spelling, an integer literal its text, a string, raw
/// string or character literal its text without the quotes. Any other literal
/// (a float, a byte string) is no part.
pub open spec fn part_text(t: Tok) -> Option<Seq<char>> {
    match t {
        Tok::Ident(x) => Some(x),
        Tok::Literal(x) => if is_int_lexeme(x) {
            Some(x)
        } else if is_quoted(x, '"') || is_quoted(x, '\'') {
            Some(x.subrange(1, x.len() - 1))
        } else {
            raw_str_contents(x)
        },
        _ => None,
    }
}

pub open spec fn is_brace_open(t: Tok) -> bool {
    t == Tok::Open(Delimiter::Brace)
}

pub open spec fn is_comma(t: Tok) -> bool {
    t matches Tok::Punct(c, _) && c == ','
}

/// The parts from index `i` on: their joined text and the index of the block's `{`.
pub open spec fn scan_parts(s: Seq<Tok>, i: int) -> Result<(Seq<char>, int), SpliceError>
    decreases s.len() - i,
{
    if i < 0 || i >= s.len() {
        Err(SpliceError::UnexpectedEnd(i as usize))
    } else if is_brace_open(s[i]) {
        Ok((seq![], i))
    } else {
        match part_text(s[i]) {
            None => Err(SpliceError::BadPart(i as usize)),
            Some(p) => if i + 1 >= s.len() {
                Err(SpliceError::UnexpectedEnd((i + 1) as usize))
            } else if is_comma(s[i + 1]) {
                prepend(p, scan_parts(s, i + 2))
            } else if is_brace_open(s[i + 1]) {
                Ok((p, i + 1))
            } else {
                Err(SpliceError::ExpectedBlock((i + 1) as usize))
            },
        }
    }
}

pub open spec fn prepend(p: Seq<char>, r: Result<(Seq<char>, int), SpliceError>) -> Result<
    (Seq<char>, int),
    SpliceError,
> {
    match r {
        Ok((rest, j)) => Ok((p + rest, j)),
        Err(e) => Err(e),
    }
}

/// The block opened at `j` is closed by the last token, and what lies between is
/// properly nested.
pub open spec fn block_closes(s: Seq<Tok>, j: int) -> bool {
    &&& j + 1 < s.len()
    &&& s[s.len() - 1] == Tok::Close(Delimiter::Brace)
    &&& balanced(s.subrange(j + 1, s.len() - 1))
}

/// A well-formed request: the placeholder, the parts' joined text, and the index of
/// the block's `{`.
pub open spec fn parse_request(s: Seq<Tok>) -> Result<(Seq<char>, Seq<char>, int), SpliceError> {
    if s.len() == 0 || !(s[0] is Ident) {
        Err(SpliceError::ExpectedIdent(0))
    } else if s.len() < 2 {
        Err(SpliceError::UnexpectedEnd(1))
    } else if s[1] != Tok::Punct('=', false) {
        Err(SpliceError::ExpectedEquals(1))
    } else {
        match scan_parts(s, 2) {
            Err(e) => Err(e),
            Ok((text, j)) => if block_closes(s, j) {
                Ok((s[0]->Ident_0, text, j))
            } else {
                Err(SpliceError::UnterminatedBlock(j as usize))
            },
        }
    }
}

/// The placeholder renamed, every other token kept.
pub open spec fn rename(t: Tok, from: Seq<char>, to: Seq<char>) -> Tok {
    match t {
        Tok::Ident(x) => if x == from {
            Tok::Ident(to)
        } else {
            t
        },
        _ => t,
    }
}

pub open spec fn rename_all(s: Seq<Tok>, from: Seq<char>, to: Seq<char>) -> Seq<Tok> {
    s.map_values(|t: Tok| rename(t, from, to))
}

/// What a splice of `s` gives when the joined parts lex as the identifier `name`
/// (`None`: as no identifier): the block's statements, renamed.
pub open spec fn splice_result(s: Seq<Tok>, name: Option<Seq<char>>) -> Result<Seq<Tok>, SpliceError> {
    match parse_request(s) {
        Err(e) => Err(e),
        Ok((placeholder, text, j)) => match name {
            None => Err(SpliceError::NotAnIdentifier(2)),
            Some(name) => Ok(rename_all(s.subrange(j + 1, s.len() - 1), placeholder, name)),
        },
    }
}

/// Renaming touches identifiers spelled like the placeholder and nothing else:
/// literals (a string that spells the placeholder among them), punctuation, group
/// edges and other identifiers stay as they are, in place.
pub proof fn lemma_rename_touches_only_placeholder(s: Seq<Tok>, from: Seq<char>, to: Seq<char>)
    ensures
        rename_all(s, from, to).len() == s.len(),
        forall|i: int|
            0 <= i < s.len() && s[i] != Tok::Ident(from) ==> #[trigger] rename_all(s, from, to)[i]
                == s[i],
        forall|i: int|
            0 <= i < s.len() && s[i] == Tok::Ident(from) ==> #[trigger] rename_all(s, from, to)[i]
                == Tok::Ident(to),
{
}

/// Splicing `x = x, { body }` gives back `body` when `x` lexes as itself.
pub proof fn lemma_splice_identity(x: Seq<char>, body: Seq<Tok>)
    requires
        balanced(body),
    ensures
        splice_result(
            seq![
                Tok::Ident(x),
                Tok::Punct('=', false),
                Tok::Ident(x),
                Tok::Punct(',', false),
                Tok::Open(Delimiter::Brace),
            ] + body + seq![Tok::Close(Delimiter::Brace)],
            Some(x),
        ) == Ok::<Seq<Tok>, SpliceError>(body),
{
    let s = seq![
        Tok::Ident(x),
        Tok::Punct('=', false),
        Tok::Ident(x),
        Tok::Punct(',', false),
        Tok::Open(Delimiter::Brace),
    ] + body + seq![Tok::Close(Delimiter::Brace)];
    assert(s[0] == Tok::Ident(x) && s[1] == Tok::Punct('=', false) && s[2] == Tok::Ident(x));
    assert(s[3] == Tok::Punct(',', false) && s[4] == Tok::Open(Delimiter::Brace));
    assert(scan_parts(s, 4) == Ok::<(Seq<char>, int), SpliceError>((seq![], 4)));
    assert(x + seq![] =~= x);
    assert(scan_parts(s, 2) == Ok::<(Seq<char>, int), SpliceError>((x, 4)));
    assert(s.subrange(5, s.len() - 1) =~= body);
    assert(s[s.len() - 1] == Tok::Close(Delimiter::Brace));
    assert(parse_request(s) == Ok::<(Seq<char>, Seq<char>, int), SpliceError>((x, x, 4)));
    assert(rename_all(body, x, x) =~= body);
}

/// A parsed splice request.
pub struct SpliceRequest {
    /// The identifier to replace.
    pub placeholder: String,
    /// The parts' text, joined.
    pub joined: String,
    /// The index of the block's `{`; the block's statements follow it, up to the
    /// last token.
    pub block_start: usize,
}

fn radix_digit(c: char, radix: usize) -> (r: bool)
    ensures
        r == is_radix_digit(c, radix as nat),
{
    if radix == 2 {
        c == '0' || c == '1'
    } else if radix == 8 {
        '0' <= c && c <= '7'
    } else if radix == 16 {
        ('0' <= c && c <= '9') || ('a' <= c && c <= 'f') || ('A' <= c && c <= 'F')
    } else {
        '0' <= c && c <= '9'
    }
}

fn int_suffix(t: &str) -> (r: bool)
    ensures
        r == is_int_suffix(t@),
{
    t.unicode_len() == 0 || text_is(t, "u8") || text_is(t, "u16") || text_is(t, "u32") || text_is(
        t,
        "u64",
    ) || text_is(t, "u128") || text_is(t, "usize") || text_is(t, "i8") || text_is(t, "i16")
        || text_is(t, "i32") || text_is(t, "i64") || text_is(t, "i128") || text_is(t, "isize")
}

proof fn lemma_suffix_start_after(s: Seq<char>, i: int)
    requires
        0 <= i <= s.len(),
    ensures
        i <= suffix_start(s, i) <= s.len(),
    decreases s.len() - i,
{
    if i < s.len() {
        lemma_suffix_start_after(s, i + 1);
    }
}

/// Whether `s` is an integer literal as written.
pub fn int_lexeme(s: &str) -> (r: bool)
    ensures
        r == is_int_lexeme(s@),
{
    let n = s.unicode_len();
    if n == 0 {
        return false;
    }
    let c0 = s.get_char(0);
    if !('0' <= c0 && c0 <= '9') {
        return false;
    }
    let (radix, a): (usize, usize) = if n >= 2 && c0 == '0' && s.get_char(1) == 'x' {
        (16, 2)
    } else if n >= 2 && c0 == '0' && s.get_char(1) == 'o' {
        (8, 2)
    } else if n >= 2 && c0 == '0' && s.get_char(1) == 'b' {
        (2, 2)
    } else {
        (10, 0)
    };
    assert(radix as nat == radix_of(s@) && a as int == digits_start(s@));
    let ghost k = suffix_start(s@, a as int);
    let mut i: usize = a;
    let mut seen = false;
    loop
        invariant
            n == s@.len(),
            a <= i <= n,
            radix as nat == radix_of(s@),
            k == suffix_start(s@, a as int),
            k == suffix_start(s@, i as int),
            forall|j: int| a <= j < i ==> is_radix_digit(#[trigger] s@[j], radix as nat) || s@[j] == '_',
            seen == exists|j: int| a <= j < i && is_radix_digit(#[trigger] s@[j], radix as nat),
            a as int == digits_start(s@),
        ensures
            a <= i <= n,
            i as int == k,
            forall|j: int| a <= j < i ==> is_radix_digit(#[trigger] s@[j], radix as nat) || s@[j] == '_',
            seen == exists|j: int| a <= j < i && is_radix_digit(#[trigger] s@[j], radix as nat),
        decreases n - i,
    {
        if i == n {
            break;
        }
        let c = s.get_char(i);
        if c == 'u' || c == 'i' {
            break;
        }
        proof {
            lemma_suffix_start_after(s@, i + 1);
            assert(k == suffix_start(s@, i + 1));
        }
        if radix_digit(c, radix) {
            seen = true;
        } else if c != '_' {
            assert(a <= i < k);
            assert(!(is_radix_digit(s@[i as int], radix as nat) || s@[i as int] == '_'));
            return false;
        }
        proof {
            if !seen {
                assert forall|j: int| a <= j < i + 1 implies !is_radix_digit(#[trigger] s@[j], radix as nat) by {
                    if j < i {
                    }
                }
            }
        }
        i = i + 1;
    }
    assert(i as int == k);
    if !seen {
        return false;
    }
    let rest = s.substring_char(i, n);
    int_suffix(rest)
}

/// The contents of a raw string literal, if `s` is one.
pub fn raw_contents(s: &str) -> (r: Option<String>)
    ensures
        match r {
            Some(c) => raw_str_contents(s@) == Some(c@),
            None => raw_str_contents(s@) is None,
        },
{
    let n = s.unicode_len();
    if n < 3 || s.get_char(0) != 'r' {
        return None;
    }
    let mut h: usize = 1;
    while h < n && s.get_char(h) == '#'
        invariant
            1 <= h <= n == s@.len(),
            hashes_from(s@, 1) == (h - 1) + hashes_from(s@, h as int),
        decreases n - h,
    {
        h = h + 1;
    }
    let hashes = h - 1;
    assert(hashes_from(s@, h as int) == 0);
    assert(hashes as int == hashes_from(s@, 1));
    if n - hashes < 3 || n - hashes - 3 < hashes || s.get_char(hashes + 1) != '"' || s.get_char(
        n - hashes - 1,
    ) != '"' {
        return None;
    }
    let mut j: usize = n - hashes;
    while j < n
        invariant
            n - hashes <= j <= n == s@.len(),
            hashes as int == hashes_from(s@, 1),
            forall|m: int| n - hashes <= m < j ==> #[trigger] s@[m] == '#',
        decreases n - j,
    {
        if s.get_char(j) != '#' {
            assert(s@[j as int] != '#');
            return None;
        }
        j = j + 1;
    }
    let mut c = String::new();
    append_chars(&mut c, s, hashes + 2, n - hashes - 1);
    assert(c@ =~= s@.subrange(hashes + 2, n - hashes - 1));
    Some(c)
}

/// What a part adds to the new identifier, if the token can be a part.
pub fn part_text_of(t: &Token) -> (r: Option<String>)
    ensures
        match r {
            Some(p) => part_text(t@) == Some(p@),
            None => part_text(t@) is None,
        },
{
    match t {
        Token::Ident(x) => Some(x.clone()),
        Token::Literal(x) => {
            let s = x.as_str();
            if int_lexeme(s) {
                return Some(x.clone());
            }
            let n = s.unicode_len();
            if n >= 2 {
                let first = s.get_char(0);
                let last = s.get_char(n - 1);
                if (first == '"' || first == '\'') && last == first {
                    let mut p = String::new();
                    append_chars(&mut p, s, 1, n - 1);
                    assert(p@ =~= x@.subrange(1, x@.len() - 1));
                    return Some(p);
                }
            }
            raw_contents(s)
        },
        _ => None,
    }
}

/// Parses `placeholder = part, part, ... { block }`.
pub fn parse_request_of(tokens: &Vec<Token>) -> (r: Result<SpliceRequest, SpliceError>)
    ensures
        match r {
            Ok(q) => parse_request(toks(tokens@)) == Ok::<(Seq<char>, Seq<char>, int), SpliceError>(
                (q.placeholder@, q.joined@, q.block_start as int),
            ),
            Err(e) => parse_request(toks(tokens@)) == Err::<(Seq<char>, Seq<char>, int), _>(e),
        },
        r is Ok ==> r->Ok_0.block_start + 1 < tokens@.len(),
{
    let ghost s = toks(tokens@);
    let n = tokens.len();
    if n == 0 {
        return Err(SpliceError::ExpectedIdent(0));
    }
    let placeholder = match &tokens[0] {
        Token::Ident(x) => x.clone(),
        _ => {
            return Err(SpliceError::ExpectedIdent(0));
        },
    };
    if n < 2 {
        return Err(SpliceError::UnexpectedEnd(1));
    }
    let eq = match &tokens[1] {
        Token::Punct(c, joint) => *c == '=' && !*joint,
        _ => false,
    };
    if !eq {
        return Err(SpliceError::ExpectedEquals(1));
    }
    let mut joined = String::new();
    let mut i: usize = 2;
    let mut block_start: usize = 0;
    assert(s[0] == tokens@[0]@ && s[1] == tokens@[1]@);
    loop
        invariant_except_break
            scan_parts(s, 2) == prepend(joined@, scan_parts(s, i as int)),
        invariant
            n == tokens@.len() == s.len(),
            n >= 2,
            s == toks(tokens@),
            2 <= i,
            s[0] == Tok::Ident(placeholder@),
            s[1] == Tok::Punct('=', false),
        ensures
            block_start < n,
            scan_parts(s, 2) == Ok::<(Seq<char>, int), SpliceError>((joined@, block_start as int)),
        decreases n + 2 - i,
    {
        proof {
            lemma_prepend_assoc(joined@, seq![], scan_parts(s, i as int));
            if i < n {
                assert(s[i as int] == tokens@[i as int]@);
            }
            if i + 1 < n {
                assert(s[i + 1] == tokens@[i + 1]@);
            }
        }
        if i >= n {
            assert(scan_parts(s, i as int) == Err::<(Seq<char>, int), SpliceError>(
                SpliceError::UnexpectedEnd(i),
            ));
            assert(scan_parts(s, 2) == Err::<(Seq<char>, int), SpliceError>(
                SpliceError::UnexpectedEnd(i),
            ));
            return Err(SpliceError::UnexpectedEnd(i));
        }
        if tokens[i].is_open(Delimiter::Brace) {
            assert(joined@ + seq![] =~= joined@);
            block_start = i;
            break;
        }
        let p = match part_text_of(&tokens[i]) {
            Some(p) => p,
            None => {
                return Err(SpliceError::BadPart(i));
            },
        };
        if i + 1 >= n {
            return Err(SpliceError::UnexpectedEnd(i + 1));
        }
        if tokens[i + 1].is_punct(',') {
            proof {
                lemma_prepend_assoc(joined@, p@, scan_parts(s, i + 2));
            }
            let ghost before = joined@;
            append_chars(&mut joined, p.as_str(), 0, p.unicode_len());
            assert(p@.subrange(0, p@.len() as int) =~= p@);
            assert(joined@ == before + p@);
            i = i + 2;
        } else if tokens[i + 1].is_open(Delimiter::Brace) {
            append_chars(&mut joined, p.as_str(), 0, p.unicode_len());
            assert(p@.subrange(0, p@.len() as int) =~= p@);
            block_start = i + 1;
            break;
        } else {
            return Err(SpliceError::ExpectedBlock(i + 1));
        }
    }
    assert(scan_parts(s, 2) == Ok::<(Seq<char>, int), SpliceError>((joined@, block_start as int)));
    assert(block_start < n);
    proof {
        if block_start + 1 < n {
            assert(s[n - 1] == tokens@[n - 1]@);
        }
    }
    if block_start + 1 < n && tokens[n - 1].is_close(Delimiter::Brace) && is_balanced(
        tokens,
        block_start + 1,
        n - 1,
    ) {
        Ok(SpliceRequest { placeholder, joined, block_start })
    } else {
        Err(SpliceError::UnterminatedBlock(block_start))
    }
}

proof fn lemma_prepend_assoc(a: Seq<char>, b: Seq<char>, r: Result<(Seq<char>, int), SpliceError>)
    ensures
        prepend(a, prepend(b, r)) == prepend(a + b, r),
{
    match r {
        Ok((rest, j)) => {
            assert(a + (b + rest) =~= (a + b) + rest);
        },
        Err(_) => {},
    }
}

/// The tokens `from..to` of `tokens`, with every identifier spelled `placeholder`
/// replaced by one spelled `name`.
pub fn substitute(tokens: &Vec<Token>, from: usize, to: usize, placeholder: &String, name: &String) -> (r:
    Vec<Token>)
    requires
        from <= to <= tokens@.len(),
    ensures
        toks(r@) == rename_all(toks(tokens@).subrange(from as int, to as int), placeholder@, name@),
{
    let ghost want = rename_all(toks(tokens@).subrange(from as int, to as int), placeholder@, name@);
    let mut out: Vec<Token> = Vec::new();
    let mut i: usize = from;
    while i < to
        invariant
            from <= i <= to <= tokens@.len(),
            want == rename_all(toks(tokens@).subrange(from as int, to as int), placeholder@, name@),
            toks(out@) =~= want.subrange(0, i - from),
        decreases to - i,
    {
        let t = match &tokens[i] {
            Token::Ident(x) => if *x == *placeholder {
                Token::Ident(name.clone())
            } else {
                Token::Ident(x.clone())
            },
            other => other.copy(),
        };
        assert(toks(tokens@).subrange(from as int, to as int)[i - from] == tokens@[i as int]@);
        assert(t@ == rename(tokens@[i as int]@, placeholder@, name@));
        let ghost before = out@;
        out.push(t);
        assert(toks(out@) =~= toks(before).push(want[i - from]));
        i = i + 1;
        assert(toks(out@) =~= want.subrange(0, i - from));
    }
    out
}

/// A splice result as values.
pub open spec fn spliced(r: Result<Vec<Token>, SpliceError>) -> Result<Seq<Tok>, SpliceError> {
    match r {
        Ok(v) => Ok(toks(v@)),
        Err(e) => Err(e),
    }
}

pub open spec fn text_of(name: Option<String>) -> Option<Seq<char>> {
    match name {
        Some(n) => Some(n@),
        None => None,
    }
}

/// Splices with `name` as what the joined parts lex as (`None`: no identifier).
pub fn splice_with(tokens: &Vec<Token>, name: Option<String>) -> (r: Result<Vec<Token>, SpliceError>)
    ensures
        spliced(r) == splice_result(toks(tokens@), text_of(name)),
{
    let q = match parse_request_of(tokens) {
        Ok(q) => q,
        Err(e) => {
            return Err(e);
        },
    };
    match name {
        None => Err(SpliceError::NotAnIdentifier(2)),
        Some(name) => {
            assert(q.block_start < tokens.len() - 1);
            let start = q.block_start + 1;
            let end = tokens.len() - 1;
            Ok(substitute(tokens, start, end, &q.placeholder, &name))
        },
    }
}

/// The new identifier where the joined parts form a plain ASCII identifier, which
/// every lexer reads as itself.
pub open spec fn plain_name(s: Seq<Tok>) -> Option<Seq<char>> {
    match parse_request(s) {
        Ok((_, text, _)) => if is_plain_ident(text) {
            Some(text)
        } else {
            None
        },
        Err(_) => None,
    }
}

/// Splices: the block's statements, with the placeholder renamed to the identifier
/// that the parts spell together, as the lexer reads it. Malformed requests fail
/// the same way whatever the lexer does.
pub fn splice(tokens: &Vec<Token>) -> (r: Result<Vec<Token>, SpliceError>)
    ensures
        exists|name: Option<Seq<char>>| spliced(r) == splice_result(toks(tokens@), name),
        plain_name(toks(tokens@)) is Some ==> spliced(r) == splice_result(
            toks(tokens@),
            plain_name(toks(tokens@)),
        ),
{
    let q = match parse_request_of(tokens) {
        Ok(q) => q,
        Err(e) => {
            assert(spliced(Err(e)) == splice_result(toks(tokens@), None));
            return Err(e);
        },
    };
    let name = lex_ident(q.joined.as_str());
    let r = splice_with(tokens, name);
    assert(spliced(r) == splice_result(toks(tokens@), text_of(name)));
    r
}

} // verus!
