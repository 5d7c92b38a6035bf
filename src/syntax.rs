//! What the library takes from syn's lexer and literal parser. Which lexer runs
//! (the compiler's or proc-macro2's own) is chosen per process, and the two need not
//! agree on every input, so only what both do with plain ASCII input is claimed:
//! the callers hand the results on to functions that are exact for every value.
use vstd::prelude::*;
use crate::fmt_args::{is_ident_char, is_ident_start};

verus! {

/// An identifier of ASCII letters, digits and `_`, not starting with a digit, other
/// than `_` alone.
pub open spec fn is_plain_ident(s: Seq<char>) -> bool {
    &&& s.len() > 0
    &&& s != seq!['_']
    &&& is_ident_start(s[0])
    &&& forall|i: int| 0 <= i < s.len() ==> is_ident_char(#[trigger] s[i])
}

/// A string literal `"…"` whose contents hold no `"`, `\` or carriage return, so that
/// its value is its contents.
pub open spec fn is_plain_str_literal(raw: Seq<char>) -> bool {
    &&& raw.len() >= 2
    &&& raw[0] == '"'
    &&& raw[raw.len() - 1] == '"'
    &&& forall|i: int|
        1 <= i < raw.len() - 1 ==> #[trigger] raw[i] != '"' && raw[i] != '\\' && raw[i] != '\r'
}

/// Relies on syn's `Parser::parse_str` with `Ident::parse_any`: it lexes `s` and
/// succeeds when the whole of it is one identifier, keywords included; the result is
/// that identifier's spelling.
#[verifier::external_body]
pub(crate) fn lex_ident(s: &str) -> (r: Option<String>)
    ensures
        is_plain_ident(s@) ==> (r is Some && r->0@ == s@),
{
    let parser = <syn::Ident as syn::ext::IdentExt>::parse_any;
    syn::parse::Parser::parse_str(parser, s).ok().map(|i| i.to_string())
}

/// Relies on syn's `parse_str::<LitStr>` and `LitStr::value`: the text of a string
/// literal with its escapes decoded, if `raw` is one. syn 1 panics on a literal
/// kind it does not know (a C string `c"…"`), so the text must start as a string
/// or raw string does.
#[verifier::external_body]
pub(crate) fn parse_str_literal(raw: &str) -> (r: Option<String>)
    requires
        raw@.len() > 0,
        raw@[0] == '"' || raw@[0] == 'r',
    ensures
        is_plain_str_literal(raw@) ==> (r is Some && r->0@ == raw@.subrange(1, raw@.len() - 1)),
{
    syn::parse_str::<syn::LitStr>(raw).ok().map(|l| l.value())
}

} // verus!
