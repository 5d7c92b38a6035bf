//! The logging attribute: `(Level, "format")` on a function whose body is rewritten
//! to capture its value, log it, and return it.
use vstd::prelude::*;
use vstd::string::*;
use crate::fmt_args::{
    fn_name, has_placeholder, lemma_fn_placeholder_selected,
    lemma_unmentioned_placeholders_not_selected, no_nested_brace, return_name, scan, scan_prefix,
    FmtArgs, ScanState,
};
use crate::splice::{is_comma, text_of};
use crate::syntax::{is_plain_str_literal, parse_str_literal};
use crate::text::text_is;
use crate::tokens::{balanced, is_balanced, toks, Delimiter, Tok, Token};

verus! {

#[derive(Clone, Copy, Debug, PartialEq, Eq, Structural)]
pub enum Level {
    Error,
    Warn,
    Info,
    Debug,
    Trace,
}

pub open spec fn level_name(l: Level) -> Seq<char> {
    match l {
        Level::Error => "Error"@,
        Level::Warn => "Warn"@,
        Level::Info => "Info"@,
        Level::Debug => "Debug"@,
        Level::Trace => "Trace"@,
    }
}

/// The level spelled exactly `s`, if any.
pub open spec fn level_named(s: Seq<char>) -> Option<Level> {
    if s == "Error"@ {
        Some(Level::Error)
    } else if s == "Warn"@ {
        Some(Level::Warn)
    } else if s == "Info"@ {
        Some(Level::Info)
    } else if s == "Debug"@ {
        Some(Level::Debug)
    } else if s == "Trace"@ {
        Some(Level::Trace)
    } else {
        None
    }
}

impl Level {
    /// The level's name, as the logging facility spells it.
    pub fn name(&self) -> (r: &'static str)
        ensures
            r@ == level_name(*self),
    {
        match self {
            Level::Error => "Error",
            Level::Warn => "Warn",
            Level::Info => "Info",
            Level::Debug => "Debug",
            Level::Trace => "Trace",
        }
    }

    /// The level spelled exactly `s` (case matters), if any.
    pub fn from_name(s: &str) -> (r: Option<Level>)
        ensures
            r == level_named(s@),
    {
        if text_is(s, "Error") {
            Some(Level::Error)
        } else if text_is(s, "Warn") {
            Some(Level::Warn)
        } else if text_is(s, "Info") {
            Some(Level::Info)
        } else if text_is(s, "Debug") {
            Some(Level::Debug)
        } else if text_is(s, "Trace") {
            Some(Level::Trace)
        } else {
            None
        }
    }
}

/// Why the attribute or the item it stands on was refused; each position is a
/// token index.
#[derive(Clone, Copy, Debug, PartialEq, Eq, Structural)]
pub enum LogAttrError {
    /// The arguments do not start with an identifier.
    ExpectedLevel(usize),
    /// The first argument names no level.
    UnknownLevel(usize),
    /// No `,` after the level.
    ExpectedComma(usize),
    /// No string literal after the `,`.
    ExpectedFormat(usize),
    /// Tokens after the format (a single trailing `,` is allowed).
    UnexpectedToken(usize),
    /// The item does not end with a braced body.
    ExpectedBody,
    /// No `fn name` before the body.
    ExpectedFnName,
}

/// The attribute's arguments: the level, the format's value, the format as written;
/// `value` is what the literal parser made of the third token (`None`: no string
/// literal).
pub open spec fn parse_config(s: Seq<Tok>, value: Option<Seq<char>>) -> Result<(Level, Seq<char>, Seq<char>), LogAttrError> {
    if s.len() == 0 || !(s[0] is Ident) {
        Err(LogAttrError::ExpectedLevel(0))
    } else if level_named(s[0]->Ident_0) is None {
        Err(LogAttrError::UnknownLevel(0))
    } else if s.len() < 2 || !is_comma(s[1]) {
        Err(LogAttrError::ExpectedComma(1))
    } else if s.len() < 3 || !(s[2] is Literal) || value is None {
        Err(LogAttrError::ExpectedFormat(2))
    } else if s.len() > 4 || (s.len() == 4 && !is_comma(s[3])) {
        Err(LogAttrError::UnexpectedToken(3))
    } else {
        Ok((level_named(s[0]->Ident_0)->0, value->0, s[2]->Literal_0))
    }
}

/// The logging attribute's arguments.
pub struct Config {
    pub log_level: Level,
    /// The format string's value.
    pub fmt_string: String,
    /// The format string as written in the attribute.
    pub fmt_literal: String,
}

/// The format's value where the third argument is a plain string literal, whose
/// value every lexer agrees on.
pub open spec fn plain_format_value(s: Seq<Tok>) -> Option<Seq<char>> {
    if s.len() >= 3 && s[2] is Literal && is_plain_str_literal(s[2]->Literal_0) {
        Some(s[2]->Literal_0.subrange(1, s[2]->Literal_0.len() - 1))
    } else {
        None
    }
}

/// A configuration result as values.
pub open spec fn config_view(r: Result<Config, LogAttrError>) -> Result<(Level, Seq<char>, Seq<char>), LogAttrError> {
    match r {
        Ok(c) => Ok((c.log_level, c.fmt_string@, c.fmt_literal@)),
        Err(e) => Err(e),
    }
}

impl Config {
    /// Reads `level, "format"` (with an optional trailing `,`), as the literal parser
    /// reads the format. Malformed arguments fail the same way whatever it does.
    pub fn new(args: &Vec<Token>) -> (r: Result<Config, LogAttrError>)
        ensures
            exists|value: Option<Seq<char>>| config_view(r) == parse_config(toks(args@), value),
            plain_format_value(toks(args@)) is Some ==> config_view(r) == parse_config(
                toks(args@),
                plain_format_value(toks(args@)),
            ),
    {
        let value = if args.len() >= 3 {
            match &args[2] {
                Token::Literal(raw) => {
                    let t = raw.as_str();
                    if t.unicode_len() > 0 && (t.get_char(0) == '"' || t.get_char(0) == 'r') {
                        parse_str_literal(t)
                    } else {
                        None
                    }
                },
                _ => None,
            }
        } else {
            None
        };
        proof {
            if plain_format_value(toks(args@)) is Some {
                assert(toks(args@)[2] == args@[2]@);
            }
        }
        let ghost v = text_of(value);
        let r = Config::from_value(args, value);
        assert(config_view(r) == parse_config(toks(args@), v));
        r
    }

    /// Reads `level, "format"` (with an optional trailing `,`), with `value` as the
    /// format's value (`None`: the third token is no string literal).
    pub fn from_value(args: &Vec<Token>, value: Option<String>) -> (r: Result<Config, LogAttrError>)
        ensures
            config_view(r) == parse_config(toks(args@), text_of(value)),
    {
        let ghost s = toks(args@);
        let n = args.len();
        if n == 0 {
            return Err(LogAttrError::ExpectedLevel(0));
        }
        assert(s[0] == args@[0]@);
        let log_level = match &args[0] {
            Token::Ident(x) => match Level::from_name(x.as_str()) {
                Some(l) => l,
                None => {
                    return Err(LogAttrError::UnknownLevel(0));
                },
            },
            _ => {
                return Err(LogAttrError::ExpectedLevel(0));
            },
        };
        if n < 2 || !args[1].is_punct(',') {
            return Err(LogAttrError::ExpectedComma(1));
        }
        assert(s[1] == args@[1]@);
        if n < 3 {
            return Err(LogAttrError::ExpectedFormat(2));
        }
        assert(s[2] == args@[2]@);
        let (fmt_string, fmt_literal) = match &args[2] {
            Token::Literal(raw) => match value {
                Some(v) => (v, raw.clone()),
                None => {
                    return Err(LogAttrError::ExpectedFormat(2));
                },
            },
            _ => {
                return Err(LogAttrError::ExpectedFormat(2));
            },
        };
        if n > 4 || (n == 4 && !args[3].is_punct(',')) {
            proof {
                if n == 4 {
                    assert(s[3] == args@[3]@);
                }
            }
            return Err(LogAttrError::UnexpectedToken(3));
        }
        proof {
            if n == 4 {
                assert(s[3] == args@[3]@);
            }
        }
        Ok(Config { log_level, fmt_string, fmt_literal })
    }
}


pub open spec fn punct(c: char) -> Tok {
    Tok::Punct(c, false)
}

/// `::name`
pub open spec fn segment(name: Seq<char>) -> Seq<Tok> {
    seq![Tok::Punct(':', true), punct(':'), Tok::Ident(name)]
}

/// The binding that holds the value of the function's own body.
pub open spec fn ret_binding() -> Seq<char> {
    "__RET_VALUE__"@
}

/// `name = name,` for each named placeholder, in order.
pub open spec fn named_args(names: Seq<Seq<char>>) -> Seq<Tok>
    decreases names.len(),
{
    if names.len() == 0 {
        seq![]
    } else {
        named_args(names.drop_last()) + seq![
            Tok::Ident(names.last()),
            punct('='),
            Tok::Ident(names.last()),
            punct(','),
        ]
    }
}

/// `fn = ::core::stringify!(name),` where the format holds `{fn}`.
pub open spec fn fn_arg(st: ScanState, name: Seq<char>) -> Seq<Tok> {
    if st.takes_fn {
        seq![Tok::Ident("fn"@), punct('=')] + segment("core"@) + segment("stringify"@) + seq![
            punct('!'),
            Tok::Open(Delimiter::Parenthesis),
            Tok::Ident(name),
            Tok::Close(Delimiter::Parenthesis),
            punct(','),
        ]
    } else {
        seq![]
    }
}

/// `return = __RET_VALUE__,` where the format holds `{return}`.
pub open spec fn return_arg(st: ScanState) -> Seq<Tok> {
    if st.takes_ret {
        seq![Tok::Ident("return"@), punct('='), Tok::Ident(ret_binding()), punct(',')]
    } else {
        seq![]
    }
}

/// `::log::log!(::log::Level::L, "format", <placeholders>);`
pub open spec fn log_call(level: Level, literal: Seq<char>, st: ScanState, name: Seq<char>) -> Seq<Tok> {
    segment("log"@) + segment("log"@) + seq![punct('!'), Tok::Open(Delimiter::Parenthesis)]
        + segment("log"@) + segment("Level"@) + segment(level_name(level)) + seq![
        punct(','),
        Tok::Literal(literal),
        punct(','),
    ] + fn_arg(st, name) + return_arg(st) + named_args(st.named) + seq![
        Tok::Close(Delimiter::Parenthesis),
        punct(';'),
    ]
}

/// `{ let __RET_VALUE__ = <block>; <log call> __RET_VALUE__ }`
pub open spec fn wrapped_body(
    level: Level,
    literal: Seq<char>,
    st: ScanState,
    name: Seq<char>,
    block: Seq<Tok>,
) -> Seq<Tok> {
    seq![Tok::Open(Delimiter::Brace), Tok::Ident("let"@), Tok::Ident(ret_binding()), punct('=')]
        + block + seq![punct(';')] + log_call(level, literal, st, name) + seq![
        Tok::Ident(ret_binding()),
        Tok::Close(Delimiter::Brace),
    ]
}

/// The start of the body: the last `{` from which the rest of the item is balanced.
pub open spec fn body_start_from(s: Seq<Tok>, b: int) -> Option<int>
    decreases b + 1,
{
    if b < 0 {
        None
    } else if s[b] == Tok::Open(Delimiter::Brace) && balanced(s.subrange(b, s.len() as int)) {
        Some(b)
    } else {
        body_start_from(s, b - 1)
    }
}

pub open spec fn body_start(s: Seq<Tok>) -> Option<int> {
    if s.len() >= 2 && s[s.len() - 1] == Tok::Close(Delimiter::Brace) {
        body_start_from(s, s.len() - 2)
    } else {
        None
    }
}

/// The function's name: the identifier after the first `fn` before index `end`.
pub open spec fn fn_name_from(s: Seq<Tok>, k: int, end: int) -> Option<Seq<char>>
    decreases end - k,
{
    if k < 0 || k + 1 >= end {
        None
    } else if s[k] == Tok::Ident("fn"@) && s[k + 1] is Ident {
        Some(s[k + 1]->Ident_0)
    } else {
        fn_name_from(s, k + 1, end)
    }
}

/// The item with its body wrapped, for a level, a format (value and literal) and
/// the item's tokens.
pub open spec fn rewrite_item(level: Level, value: Seq<char>, literal: Seq<char>, s: Seq<Tok>) -> Result<
    Seq<Tok>,
    LogAttrError,
> {
    match body_start(s) {
        None => Err(LogAttrError::ExpectedBody),
        Some(b) => match fn_name_from(s, 0, b) {
            None => Err(LogAttrError::ExpectedFnName),
            Some(name) => Ok(
                s.subrange(0, b) + wrapped_body(
                    level,
                    literal,
                    scan(value),
                    name,
                    s.subrange(b, s.len() as int),
                ),
            ),
        },
    }
}

/// What the attribute does to the item: the arguments read (with `value` as the
/// format's value), then the item rewritten.
pub open spec fn log_result(args: Seq<Tok>, item: Seq<Tok>, value: Option<Seq<char>>) -> Result<Seq<Tok>, LogAttrError> {
    match parse_config(args, value) {
        Err(e) => Err(e),
        Ok((level, value, literal)) => rewrite_item(level, value, literal, item),
    }
}

fn emit(out: &mut Vec<Token>, t: Token)
    ensures
        toks(final(out)@) == toks(old(out)@).push(t@),
{
    out.push(t);
    assert(toks(out@) =~= toks(old(out)@).push(t@));
}

fn emit_punct(out: &mut Vec<Token>, c: char)
    ensures
        toks(final(out)@) == toks(old(out)@).push(punct(c)),
{
    emit(out, Token::Punct(c, false));
}

fn emit_ident(out: &mut Vec<Token>, name: &str)
    ensures
        toks(final(out)@) == toks(old(out)@).push(Tok::Ident(name@)),
{
    emit(out, Token::Ident(name.to_owned()));
}

fn emit_segment(out: &mut Vec<Token>, name: &str)
    ensures
        toks(final(out)@) == toks(old(out)@) + segment(name@),
{
    emit(out, Token::Punct(':', true));
    emit_punct(out, ':');
    emit_ident(out, name);
    assert(toks(out@) =~= toks(old(out)@) + segment(name@));
}

fn emit_named_args(out: &mut Vec<Token>, names: &Vec<String>)
    ensures
        toks(final(out)@) == toks(old(out)@) + named_args(names@.map_values(|s: String| s@)),
{
    let ghost views = names@.map_values(|s: String| s@);
    let mut i: usize = 0;
    assert(views.take(0) =~= seq![]);
    assert(toks(out@) =~= toks(old(out)@) + named_args(views.take(0)));
    while i < names.len()
        invariant
            i <= names@.len(),
            views == names@.map_values(|s: String| s@),
            toks(out@) == toks(old(out)@) + named_args(views.take(i as int)),
        decreases names@.len() - i,
    {
        let ghost before = toks(out@);
        emit(out, Token::Ident(names[i].clone()));
        emit_punct(out, '=');
        emit(out, Token::Ident(names[i].clone()));
        emit_punct(out, ',');
        assert(views.take(i + 1).drop_last() =~= views.take(i as int));
        assert(views.take(i + 1).last() == names@[i as int]@);
        i = i + 1;
        assert(toks(out@) =~= toks(old(out)@) + named_args(views.take(i as int)));
    }
    assert(views.take(names@.len() as int) =~= views);
}

fn emit_fn_arg(out: &mut Vec<Token>, st: Ghost<ScanState>, takes: bool, name: &String)
    requires
        takes == st@.takes_fn,
    ensures
        toks(final(out)@) == toks(old(out)@) + fn_arg(st@, name@),
{
    if takes {
        emit_ident(out, "fn");
        emit_punct(out, '=');
        emit_segment(out, "core");
        emit_segment(out, "stringify");
        emit_punct(out, '!');
        emit(out, Token::Open(Delimiter::Parenthesis));
        emit(out, Token::Ident(name.clone()));
        emit(out, Token::Close(Delimiter::Parenthesis));
        emit_punct(out, ',');
    }
    assert(toks(out@) =~= toks(old(out)@) + fn_arg(st@, name@));
}

fn emit_return_arg(out: &mut Vec<Token>, st: Ghost<ScanState>, takes: bool)
    requires
        takes == st@.takes_ret,
    ensures
        toks(final(out)@) == toks(old(out)@) + return_arg(st@),
{
    if takes {
        emit_ident(out, "return");
        emit_punct(out, '=');
        emit_ident(out, "__RET_VALUE__");
        emit_punct(out, ',');
    }
    assert(toks(out@) =~= toks(old(out)@) + return_arg(st@));
}

fn emit_log_call(out: &mut Vec<Token>, config: &Config, args: &FmtArgs, st: Ghost<ScanState>, name: &String)
    requires
        st@.named == args.names(),
        st@.takes_fn == args.takes_fn_name,
        st@.takes_ret == args.takes_return_value,
    ensures
        toks(final(out)@) == toks(old(out)@) + log_call(config.log_level, config.fmt_literal@, st@, name@),
{
    emit_segment(out, "log");
    emit_segment(out, "log");
    emit_punct(out, '!');
    emit(out, Token::Open(Delimiter::Parenthesis));
    emit_segment(out, "log");
    emit_segment(out, "Level");
    emit_segment(out, config.log_level.name());
    emit_punct(out, ',');
    emit(out, Token::Literal(config.fmt_literal.clone()));
    emit_punct(out, ',');
    emit_fn_arg(out, st, args.takes_fn_name, name);
    emit_return_arg(out, st, args.takes_return_value);
    emit_named_args(out, &args.fmt_args);
    emit(out, Token::Close(Delimiter::Parenthesis));
    emit_punct(out, ';');
    assert(toks(out@) =~= toks(old(out)@) + log_call(config.log_level, config.fmt_literal@, st@, name@));
}

/// Appends the tokens `b..` of `item`.
fn emit_rest(out: &mut Vec<Token>, item: &Vec<Token>, b: usize)
    requires
        b <= item@.len(),
    ensures
        toks(final(out)@) == toks(old(out)@) + toks(item@).subrange(b as int, item@.len() as int),
{
    let mut i: usize = b;
    assert(toks(out@) =~= toks(old(out)@) + toks(item@).subrange(b as int, b as int));
    while i < item.len()
        invariant
            b <= i <= item@.len(),
            toks(out@) == toks(old(out)@) + toks(item@).subrange(b as int, i as int),
        decreases item@.len() - i,
    {
        emit(out, item[i].copy());
        i = i + 1;
        assert(toks(out@) =~= toks(old(out)@) + toks(item@).subrange(b as int, i as int));
    }
}

/// Appends the wrapped body for an item whose body is `item[b..]`.
fn emit_wrapped_body(
    out: &mut Vec<Token>,
    config: &Config,
    args: &FmtArgs,
    st: Ghost<ScanState>,
    name: &String,
    item: &Vec<Token>,
    b: usize,
)
    requires
        b <= item@.len(),
        st@.named == args.names(),
        st@.takes_fn == args.takes_fn_name,
        st@.takes_ret == args.takes_return_value,
    ensures
        toks(final(out)@) == toks(old(out)@) + wrapped_body(
            config.log_level,
            config.fmt_literal@,
            st@,
            name@,
            toks(item@).subrange(b as int, item@.len() as int),
        ),
{
    emit(out, Token::Open(Delimiter::Brace));
    emit_ident(out, "let");
    emit_ident(out, "__RET_VALUE__");
    emit_punct(out, '=');
    emit_rest(out, item, b);
    emit_punct(out, ';');
    emit_log_call(out, config, args, st, name);
    emit_ident(out, "__RET_VALUE__");
    emit(out, Token::Close(Delimiter::Brace));
    assert(toks(out@) =~= toks(old(out)@) + wrapped_body(
        config.log_level,
        config.fmt_literal@,
        st@,
        name@,
        toks(item@).subrange(b as int, item@.len() as int),
    ));
}

/// Where the item's body starts, if the item ends with a braced body.
pub fn find_body_start(item: &Vec<Token>) -> (r: Option<usize>)
    ensures
        match r {
            Some(b) => body_start(toks(item@)) == Some(b as int),
            None => body_start(toks(item@)) is None,
        },
        r matches Some(b) ==> b < item@.len(),
{
    let ghost s = toks(item@);
    let n = item.len();
    if n < 2 {
        return None;
    }
    assert(s[n - 1] == item@[n - 1]@);
    if !item[n - 1].is_close(Delimiter::Brace) {
        return None;
    }
    let mut k: usize = n - 1;
    while k > 0
        invariant
            k <= n - 1,
            n == item@.len(),
            s == toks(item@),
            body_start(s) == body_start_from(s, k - 1),
        decreases k,
    {
        let b = k - 1;
        assert(s[b as int] == item@[b as int]@);
        if item[b].is_open(Delimiter::Brace) && is_balanced(item, b, n) {
            return Some(b);
        }
        k = b;
    }
    None
}

/// The identifier after the first `fn` among the tokens before `end`.
pub fn find_fn_name(item: &Vec<Token>, end: usize) -> (r: Option<String>)
    requires
        end <= item@.len(),
    ensures
        match r {
            Some(name) => fn_name_from(toks(item@), 0, end as int) == Some(name@),
            None => fn_name_from(toks(item@), 0, end as int) is None,
        },
{
    let ghost s = toks(item@);
    let mut k: usize = 0;
    while k < end && end - k > 1
        invariant
            k <= end <= item@.len(),
            s == toks(item@),
            fn_name_from(s, 0, end as int) == fn_name_from(s, k as int, end as int),
        decreases end - k,
    {
        assert(s[k as int] == item@[k as int]@);
        assert(s[k + 1] == item@[k + 1]@);
        let is_fn = match &item[k] {
            Token::Ident(x) => text_is(x.as_str(), "fn"),
            _ => false,
        };
        if is_fn {
            if let Token::Ident(name) = &item[k + 1] {
                return Some(name.clone());
            }
        }
        k = k + 1;
    }
    None
}

/// Rewrites the item's body for the given arguments: the body's value is bound,
/// logged as the format asks, and returned.
pub fn rewrite(config: &Config, item: &Vec<Token>) -> (r: Result<Vec<Token>, LogAttrError>)
    ensures
        match r {
            Ok(v) => rewrite_item(config.log_level, config.fmt_string@, config.fmt_literal@, toks(item@))
                == Ok::<Seq<Tok>, LogAttrError>(toks(v@)),
            Err(e) => rewrite_item(config.log_level, config.fmt_string@, config.fmt_literal@, toks(item@))
                == Err::<Seq<Tok>, LogAttrError>(e),
        },
{
    let b = match find_body_start(item) {
        Some(b) => b,
        None => {
            return Err(LogAttrError::ExpectedBody);
        },
    };
    let name = match find_fn_name(item, b) {
        Some(name) => name,
        None => {
            return Err(LogAttrError::ExpectedFnName);
        },
    };
    let args = FmtArgs::parse_fmt_args(config.fmt_string.as_str());
    let ghost full = scan(config.fmt_string@);
    let ghost st = ScanState {
        in_arg: false,
        skip: false,
        suppress: false,
        arg: seq![],
        named: args.names(),
        takes_fn: args.takes_fn_name,
        takes_ret: args.takes_return_value,
    };
    let mut out: Vec<Token> = Vec::new();
    emit_rest_until(&mut out, item, b);
    emit_wrapped_body(&mut out, config, &args, Ghost(st), &name, item, b);
    proof {
        lemma_log_call_reads_placeholders_only(st, full, config.log_level, config.fmt_literal@, name@);
    }
    assert(toks(out@) =~= toks(item@).subrange(0, b as int) + wrapped_body(
        config.log_level,
        config.fmt_literal@,
        full,
        name@,
        toks(item@).subrange(b as int, item@.len() as int),
    ));
    Ok(out)
}

/// The log call depends on a scan's placeholders alone.
proof fn lemma_log_call_reads_placeholders_only(
    a: ScanState,
    b: ScanState,
    level: Level,
    literal: Seq<char>,
    name: Seq<char>,
)
    requires
        a.named == b.named,
        a.takes_fn == b.takes_fn,
        a.takes_ret == b.takes_ret,
    ensures
        log_call(level, literal, a, name) == log_call(level, literal, b, name),
{
}

/// Appends the tokens `..b` of `item`.
fn emit_rest_until(out: &mut Vec<Token>, item: &Vec<Token>, b: usize)
    requires
        b <= item@.len(),
    ensures
        toks(final(out)@) == toks(old(out)@) + toks(item@).subrange(0, b as int),
{
    let mut i: usize = 0;
    assert(toks(out@) =~= toks(old(out)@) + toks(item@).subrange(0, 0));
    while i < b
        invariant
            i <= b <= item@.len(),
            toks(out@) == toks(old(out)@) + toks(item@).subrange(0, i as int),
        decreases b - i,
    {
        emit(out, item[i].copy());
        i = i + 1;
        assert(toks(out@) =~= toks(old(out)@) + toks(item@).subrange(0, i as int));
    }
}

proof fn lemma_body_start_bounds(s: Seq<Tok>, k: int)
    ensures
        body_start_from(s, k) matches Some(b) ==> 0 <= b <= k,
    decreases k + 1,
{
    if k >= 0 {
        lemma_body_start_bounds(s, k - 1);
    }
}

/// The rewritten function returns what its own body returns: everything before
/// the body (attributes, visibility, signature) is kept as it was, the former
/// body is kept whole as the value bound to `__RET_VALUE__`, and that binding is
/// the new body's last expression.
pub proof fn lemma_rewrite_transparent(level: Level, value: Seq<char>, literal: Seq<char>, s: Seq<Tok>)
    ensures
        rewrite_item(level, value, literal, s) matches Ok(out) ==> {
            let b = body_start(s)->0;
            let body = s.subrange(b, s.len() as int);
            &&& out.subrange(0, b) == s.subrange(0, b)
            &&& out.subrange(b, b + 4) == seq![
                Tok::Open(Delimiter::Brace),
                Tok::Ident("let"@),
                Tok::Ident(ret_binding()),
                punct('='),
            ]
            &&& out.subrange(b + 4, b + 4 + body.len()) == body
            &&& out[b + 4 + body.len()] == punct(';')
            &&& out.subrange(out.len() - 2, out.len() as int) == seq![
                Tok::Ident(ret_binding()),
                Tok::Close(Delimiter::Brace),
            ]
        },
{
    if let Ok(out) = rewrite_item(level, value, literal, s) {
        let b = body_start(s)->0;
        lemma_body_start_bounds(s, s.len() - 2);
        let name = fn_name_from(s, 0, b)->0;
        let body = s.subrange(b, s.len() as int);
        let head = seq![
            Tok::Open(Delimiter::Brace),
            Tok::Ident("let"@),
            Tok::Ident(ret_binding()),
            punct('='),
        ];
        let call = log_call(level, literal, scan(value), name);
        let tail = seq![Tok::Ident(ret_binding()), Tok::Close(Delimiter::Brace)];
        assert(out =~= s.subrange(0, b) + head + body + seq![punct(';')] + call + tail);
        assert(out.subrange(0, b) =~= s.subrange(0, b));
        assert(out.subrange(b, b + 4) =~= head);
        assert(out.subrange(b + 4, b + 4 + body.len()) =~= body);
        assert(out.subrange(out.len() - 2, out.len() as int) =~= tail);
    }
}

/// A `{fn}` whose `{` opens a capture puts `fn = ::core::stringify!(name),` into the
/// log call, once.
pub proof fn lemma_fn_argument_in_log_call(value: Seq<char>, p: int, name: Seq<char>)
    requires
        0 <= p,
        p + 4 <= value.len(),
        value.subrange(p, p + 4) == seq!['{', 'f', 'n', '}'],
        !scan_prefix(value, p as nat).in_arg,
        !scan_prefix(value, p as nat).suppress,
    ensures
        fn_arg(scan(value), name) == seq![Tok::Ident("fn"@), punct('=')] + segment("core"@)
            + segment("stringify"@) + seq![
            punct('!'),
            Tok::Open(Delimiter::Parenthesis),
            Tok::Ident(name),
            Tok::Close(Delimiter::Parenthesis),
            punct(','),
        ],
{
    lemma_fn_placeholder_selected(value, p);
}

/// A format that holds neither `{fn}` (or `{fn:…}`) nor `{return}` (or `{return:…}`),
/// and nests no brace inside a capture, gives a log call with neither a `fn = …`
/// nor a `return = …` argument.
pub proof fn lemma_no_fn_or_return_argument(value: Seq<char>, name: Seq<char>)
    requires
        no_nested_brace(value),
        !has_placeholder(value, fn_name()),
        !has_placeholder(value, return_name()),
    ensures
        fn_arg(scan(value), name) == Seq::<Tok>::empty(),
        return_arg(scan(value)) == Seq::<Tok>::empty(),
{
    lemma_unmentioned_placeholders_not_selected(value);
}

/// The attribute: reads `level, "format"` from `args` and rewrites the function `item`.
pub fn log(args: &Vec<Token>, item: &Vec<Token>) -> (r: Result<Vec<Token>, LogAttrError>)
    ensures
        exists|value: Option<Seq<char>>| rewritten(r) == log_result(toks(args@), toks(item@), value),
        plain_format_value(toks(args@)) is Some ==> rewritten(r) == log_result(
            toks(args@),
            toks(item@),
            plain_format_value(toks(args@)),
        ),
{
    let c = Config::new(args);
    let ghost value = if plain_format_value(toks(args@)) is Some {
        plain_format_value(toks(args@))
    } else {
        choose|value: Option<Seq<char>>| config_view(c) == parse_config(toks(args@), value)
    };
    match c {
        Ok(config) => {
            let r = rewrite(&config, item);
            assert(rewritten(r) == log_result(toks(args@), toks(item@), value));
            r
        },
        Err(e) => {
            assert(rewritten(Err(e)) == log_result(toks(args@), toks(item@), value));
            Err(e)
        },
    }
}

/// A rewrite result as values.
pub open spec fn rewritten(r: Result<Vec<Token>, LogAttrError>) -> Result<Seq<Tok>, LogAttrError> {
    match r {
        Ok(v) => Ok(toks(v@)),
        Err(e) => Err(e),
    }
}

} // verus!
