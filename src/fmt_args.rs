//! The placeholder scanner of the logging attribute's format strings.
use vstd::prelude::*;
use vstd::string::*;
use crate::text::string_from_chars;

verus! {

/// What a scan of a format string has seen so far.
pub struct ScanState {
    /// Inside a `{ ... }` capture.
    pub in_arg: bool,
    /// Inside a capture, after its `:`; the rest of the capture is a format spec.
    pub skip: bool,
    /// The previous `{` opened an escape `{{`: the current `{` is its second half.
    pub suppress: bool,
    /// The name gathered in the current capture.
    pub arg: Seq<char>,
    /// The named placeholders, in the order first seen, each once.
    pub named: Seq<Seq<char>>,
    /// A `{fn}` capture was seen.
    pub takes_fn: bool,
    /// A `{return}` capture was seen.
    pub takes_ret: bool,
}

pub open spec fn initial_scan() -> ScanState {
    ScanState {
        in_arg: false,
        skip: false,
        suppress: false,
        arg: seq![],
        named: seq![],
        takes_fn: false,
        takes_ret: false,
    }
}

pub open spec fn fn_name() -> Seq<char> {
    seq!['f', 'n']
}

pub open spec fn return_name() -> Seq<char> {
    seq!['r', 'e', 't', 'u', 'r', 'n']
}

pub open spec fn is_ident_start(c: char) -> bool {
    ('a' <= c && c <= 'z') || ('A' <= c && c <= 'Z') || c == '_'
}

pub open spec fn is_ident_char(c: char) -> bool {
    is_ident_start(c) || ('0' <= c && c <= '9')
}

/// A capture names a binding when it is an ASCII identifier. An empty or numeric
/// capture is positional, and any other text is left to the formatter's diagnostics.
pub open spec fn is_binding_name(name: Seq<char>) -> bool {
    &&& name.len() > 0
    &&& is_ident_start(name[0])
    &&& forall|i: int| 0 <= i < name.len() ==> is_ident_char(#[trigger] name[i])
}

/// A `}` ends the current capture, which is classified by its name.
pub open spec fn close_capture(st: ScanState) -> ScanState {
    let closed = ScanState { in_arg: false, skip: false, arg: seq![], ..st };
    if st.arg == fn_name() {
        ScanState { takes_fn: true, ..closed }
    } else if st.arg == return_name() {
        ScanState { takes_ret: true, ..closed }
    } else if is_binding_name(st.arg) && !st.named.contains(st.arg) {
        ScanState { named: st.named.push(st.arg), ..closed }
    } else {
        closed
    }
}

/// One step of the scanner on character `c`, with `next` the character after it.
pub open spec fn scan_step(st: ScanState, c: char, next: Option<char>) -> ScanState {
    if st.suppress {
        ScanState { suppress: false, ..st }
    } else if c == '{' {
        if st.in_arg {
            st
        } else if next == Some('{') {
            ScanState { suppress: true, ..st }
        } else {
            ScanState { in_arg: true, skip: false, arg: seq![], ..st }
        }
    } else if c == '}' {
        if st.in_arg {
            close_capture(st)
        } else {
            st
        }
    } else if c == ':' && st.in_arg {
        ScanState { skip: true, ..st }
    } else if st.in_arg && !st.skip {
        ScanState { arg: st.arg.push(c), ..st }
    } else {
        st
    }
}

pub open spec fn next_char(s: Seq<char>, i: int) -> Option<char> {
    if 0 <= i < s.len() {
        Some(s[i])
    } else {
        None
    }
}

/// The state after scanning the first `n` characters of `s`.
pub open spec fn scan_prefix(s: Seq<char>, n: nat) -> ScanState
    decreases n,
{
    if n == 0 {
        initial_scan()
    } else {
        scan_step(scan_prefix(s, (n - 1) as nat), s[n - 1], next_char(s, n as int))
    }
}

/// The state after scanning all of `s`.
pub open spec fn scan(s: Seq<char>) -> ScanState {
    scan_prefix(s, s.len())
}

/// The placeholders that a format string asks the log call for.
pub struct FmtArgs {
    /// The named placeholders, in the order first seen, each once.
    pub fmt_args: Vec<String>,
    /// The format holds `{fn}`.
    pub takes_fn_name: bool,
    /// The format holds `{return}`.
    pub takes_return_value: bool,
}

impl FmtArgs {
    pub open spec fn names(&self) -> Seq<Seq<char>> {
        self.fmt_args@.map_values(|s: String| s@)
    }

    /// Whether these placeholders are those that a scan of `s` finds.
    pub open spec fn found_in(&self, s: Seq<char>) -> bool {
        &&& self.takes_fn_name == scan(s).takes_fn
        &&& self.takes_return_value == scan(s).takes_ret
        &&& self.names() == scan(s).named
    }

    /// Scans `fmt_string` once, left to right, for its placeholders.
    pub fn parse_fmt_args(fmt_string: &str) -> (r: Self)
        ensures
            r.found_in(fmt_string@),
    {
        let n = fmt_string.unicode_len();
        let mut fmt_args: Vec<String> = Vec::new();
        let mut takes_fn_name = false;
        let mut takes_return_value = false;
        let mut in_arg = false;
        let mut skip = false;
        let mut suppress = false;
        let mut arg: Vec<char> = Vec::new();
        let mut i: usize = 0;
        while i < n
            invariant
                n == fmt_string@.len(),
                i <= n,
                ({
                    let st = scan_prefix(fmt_string@, i as nat);
                    &&& st.in_arg == in_arg
                    &&& st.skip == skip
                    &&& st.suppress == suppress
                    &&& st.arg == arg@
                    &&& st.named == fmt_args@.map_values(|s: String| s@)
                    &&& st.takes_fn == takes_fn_name
                    &&& st.takes_ret == takes_return_value
                }),
            decreases n - i,
        {
            let c = fmt_string.get_char(i);
            let next: Option<char> = if i + 1 < n {
                Some(fmt_string.get_char(i + 1))
            } else {
                None
            };
            if suppress {
                suppress = false;
            } else if c == '{' {
                if in_arg {
                } else if next == Some('{') {
                    suppress = true;
                } else {
                    in_arg = true;
                    skip = false;
                    arg = Vec::new();
                }
            } else if c == '}' {
                if in_arg {
                    proof {
                        assert(fn_name().len() == 2);
                        assert(return_name().len() == 6);
                    }
                    if arg.len() == 2 && arg[0] == 'f' && arg[1] == 'n' {
                        assert(arg@ =~= fn_name());
                        takes_fn_name = true;
                    } else if arg.len() == 6 && arg[0] == 'r' && arg[1] == 'e' && arg[2] == 't'
                        && arg[3] == 'u' && arg[4] == 'r' && arg[5] == 'n' {
                        assert(arg@ =~= return_name());
                        takes_return_value = true;
                    } else {
                        proof {
                            if arg@ == fn_name() {
                                assert(arg@[0] == 'f' && arg@[1] == 'n');
                            }
                            if arg@ == return_name() {
                                assert(arg@[0] == 'r' && arg@[5] == 'n');
                            }
                        }
                        if binding_name(&arg) {
                            let name = string_from_chars(&arg);
                            if !contains_name(&fmt_args, &name) {
                                let ghost old_args = fmt_args@;
                                fmt_args.push(name);
                                assert(fmt_args@.map_values(|s: String| s@) =~= old_args.map_values(
                                    |s: String| s@,
                                ).push(arg@));
                            }
                        }
                    }
                    in_arg = false;
                    skip = false;
                    arg = Vec::new();
                }
            } else if c == ':' && in_arg {
                skip = true;
            } else if in_arg && !skip {
                arg.push(c);
            }
            proof {
                assert(next == next_char(fmt_string@, i + 1));
            }
            i = i + 1;
            assert(arg@ =~= scan_prefix(fmt_string@, i as nat).arg);
        }
        FmtArgs { fmt_args, takes_fn_name, takes_return_value }
    }
}

/// `s` holds no brace.
pub open spec fn brace_free(s: Seq<char>) -> bool {
    forall|i: int| 0 <= i < s.len() ==> #[trigger] s[i] != '{' && s[i] != '}'
}

/// Characters that are not braces leave a scan at rest where it was.
proof fn lemma_rest_through_brace_free(s: Seq<char>, m: nat, n: nat)
    requires
        m <= n <= s.len(),
        scan_prefix(s, m) == initial_scan(),
        forall|i: int| m <= i < n ==> #[trigger] s[i] != '{' && s[i] != '}',
    ensures
        scan_prefix(s, n) == initial_scan(),
    decreases n - m,
{
    if n > m {
        lemma_rest_through_brace_free(s, m, (n - 1) as nat);
        assert(s[n - 1] != '{' && s[n - 1] != '}');
    }
}

/// Once a scan has seen `{fn}` it keeps it.
proof fn lemma_takes_fn_kept(s: Seq<char>, m: nat, n: nat)
    requires
        m <= n <= s.len(),
        scan_prefix(s, m).takes_fn,
    ensures
        scan_prefix(s, n).takes_fn,
    decreases n - m,
{
    if n > m {
        lemma_takes_fn_kept(s, m, (n - 1) as nat);
    }
}

/// A `{fn}` at index `p` whose `{` opens a capture (the scan is then neither inside a
/// capture nor in the second half of an escaped `{{`) makes the log call name the
/// function, whatever surrounds it.
pub proof fn lemma_fn_placeholder_selected(s: Seq<char>, p: int)
    requires
        0 <= p,
        p + 4 <= s.len(),
        s.subrange(p, p + 4) == seq!['{', 'f', 'n', '}'],
        !scan_prefix(s, p as nat).in_arg,
        !scan_prefix(s, p as nat).suppress,
    ensures
        scan(s).takes_fn,
{
    assert(s.subrange(p, p + 4)[0] == s[p]);
    assert(s.subrange(p, p + 4)[1] == s[p + 1]);
    assert(s.subrange(p, p + 4)[2] == s[p + 2]);
    assert(s.subrange(p, p + 4)[3] == s[p + 3]);
    assert(s[p] == '{' && s[p + 1] == 'f' && s[p + 2] == 'n' && s[p + 3] == '}');
    assert(next_char(s, p + 1) == Some('f'));
    assert(scan_prefix(s, (p + 1) as nat).in_arg);
    assert(scan_prefix(s, (p + 1) as nat).arg =~= seq![]);
    assert(scan_prefix(s, (p + 2) as nat).arg =~= seq!['f']);
    assert(scan_prefix(s, (p + 3) as nat).arg =~= fn_name());
    assert(scan_prefix(s, (p + 4) as nat).takes_fn);
    lemma_takes_fn_kept(s, (p + 4) as nat, s.len());
}

/// `{{x}}` is an escaped brace pair: for `x` without braces it introduces no
/// placeholder and leaves the scan where it started.
pub proof fn lemma_escaped_braces(x: Seq<char>)
    requires
        brace_free(x),
    ensures
        scan(seq!['{', '{'] + x + seq!['}', '}']) == initial_scan(),
{
    let s = seq!['{', '{'] + x + seq!['}', '}'];
    let n = x.len();
    assert(s[0] == '{' && s[1] == '{');
    assert(scan_prefix(s, 0) == initial_scan());
    assert(next_char(s, 1) == Some('{'));
    assert(scan_prefix(s, 1) == scan_step(initial_scan(), '{', Some('{')));
    assert(scan_prefix(s, 1).suppress);
    assert(scan_prefix(s, 2) == initial_scan());
    assert forall|i: int| 2 <= i < n + 2 implies #[trigger] s[i] != '{' && s[i] != '}' by {
        assert(s[i] == x[i - 2]);
    }
    lemma_rest_through_brace_free(s, 2, n + 2);
    assert(s[n as int + 2] == '}' && s[n as int + 3] == '}');
    assert(scan_prefix(s, n + 3) == initial_scan());
    assert(scan_prefix(s, n + 4) == initial_scan());
}

/// No `{` stands inside a capture (a nested brace is the formatter's error).
pub open spec fn no_nested_brace(s: Seq<char>) -> bool {
    forall|n: int| 0 <= n < s.len() && #[trigger] scan_prefix(s, n as nat).in_arg ==> s[n] != '{'
}

/// `s` holds `{name}` or `{name:` at index `p`.
pub open spec fn placeholder_at(s: Seq<char>, p: int, name: Seq<char>) -> bool {
    &&& 0 <= p
    &&& p + name.len() + 2 <= s.len()
    &&& s[p] == '{'
    &&& s.subrange(p + 1, p + 1 + name.len()) == name
    &&& (s[p + 1 + name.len()] == '}' || s[p + 1 + name.len()] == ':')
}

/// `s` holds `{name}` or `{name:` somewhere.
pub open spec fn has_placeholder(s: Seq<char>, name: Seq<char>) -> bool {
    exists|p: int| placeholder_at(s, p, name)
}

/// The open capture of `st`, after the first `n` characters, began with the `{` at `b`:
/// its name is the text after that brace, up to the `:` if one was seen.
spec fn capture_from(s: Seq<char>, st: ScanState, n: int, b: int) -> bool {
    &&& 0 <= b < n
    &&& s[b] == '{'
    &&& if st.skip {
        &&& b + 1 + st.arg.len() < n
        &&& st.arg == s.subrange(b + 1, b + 1 + st.arg.len())
        &&& s[b + 1 + st.arg.len()] == ':'
    } else {
        st.arg == s.subrange(b + 1, n)
    }
}

/// What a closed capture reports was written in `s` as `{name}` or `{name:`.
proof fn lemma_closed_capture_written(s: Seq<char>, st: ScanState, n: int, b: int)
    requires
        n < s.len(),
        s[n] == '}',
        capture_from(s, st, n, b),
    ensures
        placeholder_at(s, b, st.arg),
{
}

/// Everything a scan reports is written in `s`.
proof fn lemma_scan_sources(s: Seq<char>, n: nat)
    requires
        n <= s.len(),
        no_nested_brace(s),
    ensures
        scan_prefix(s, n).suppress ==> !scan_prefix(s, n).in_arg,
        scan_prefix(s, n).in_arg ==> exists|b: int| capture_from(s, scan_prefix(s, n), n as int, b),
        scan_prefix(s, n).takes_fn ==> has_placeholder(s, fn_name()),
        scan_prefix(s, n).takes_ret ==> has_placeholder(s, return_name()),
    decreases n,
{
    if n > 0 {
        let m = (n - 1) as nat;
        lemma_scan_sources(s, m);
        let prev = scan_prefix(s, m);
        let st = scan_prefix(s, n);
        let c = s[m as int];
        assert(st == scan_step(prev, c, next_char(s, n as int)));
        if prev.in_arg {
            let b = choose|b: int| capture_from(s, prev, m as int, b);
            assert(c != '{');
            if !prev.suppress && c == '}' {
                lemma_closed_capture_written(s, prev, m as int, b);
            } else if !prev.suppress && c == ':' {
                if !prev.skip {
                    assert(capture_from(s, st, n as int, b));
                } else {
                    assert(capture_from(s, st, n as int, b));
                }
            } else if !prev.suppress && !prev.skip {
                assert(st.arg =~= s.subrange(b + 1, n as int));
                assert(capture_from(s, st, n as int, b));
            } else {
                assert(capture_from(s, st, n as int, b));
            }
        } else if !prev.suppress && c == '{' && st.in_arg {
            assert(st.arg =~= s.subrange(n as int, n as int));
            assert(capture_from(s, st, n as int, m as int));
        }
    }
}

/// A format that holds neither `{fn}` (or `{fn:…}`) nor `{return}` (or `{return:…}`),
/// and nests no brace inside a capture, makes the log call pass neither the
/// function's name nor the return value.
pub proof fn lemma_unmentioned_placeholders_not_selected(s: Seq<char>)
    requires
        no_nested_brace(s),
        !has_placeholder(s, fn_name()),
        !has_placeholder(s, return_name()),
    ensures
        !scan(s).takes_fn,
        !scan(s).takes_ret,
{
    lemma_scan_sources(s, s.len());
}

/// Whether `name` is an ASCII identifier.
fn binding_name(name: &Vec<char>) -> (r: bool)
    ensures
        r == is_binding_name(name@),
{
    if name.len() == 0 {
        return false;
    }
    let c0 = name[0];
    if !(('a' <= c0 && c0 <= 'z') || ('A' <= c0 && c0 <= 'Z') || c0 == '_') {
        return false;
    }
    let mut i: usize = 0;
    while i < name.len()
        invariant
            i <= name@.len(),
            forall|k: int| 0 <= k < i ==> is_ident_char(#[trigger] name@[k]),
        decreases name@.len() - i,
    {
        let c = name[i];
        if !(('a' <= c && c <= 'z') || ('A' <= c && c <= 'Z') || c == '_' || ('0' <= c && c <= '9')) {
            assert(!is_ident_char(name@[i as int]));
            return false;
        }
        i = i + 1;
    }
    true
}

/// Whether `name` is one of `names`.
fn contains_name(names: &Vec<String>, name: &String) -> (r: bool)
    ensures
        r == names@.map_values(|s: String| s@).contains(name@),
{
    let ghost views = names@.map_values(|s: String| s@);
    let mut i: usize = 0;
    while i < names.len()
        invariant
            i <= names@.len(),
            views == names@.map_values(|s: String| s@),
            forall|k: int| 0 <= k < i ==> views[k] != name@,
        decreases names@.len() - i,
    {
        if names[i] == *name {
            assert(views[i as int] == name@);
            return true;
        }
        i = i + 1;
    }
    false
}

} // verus!
