//! Token streams, flattened: a group is its opening delimiter, its tokens and its
//! closing delimiter.
use vstd::prelude::*;

verus! {

#[derive(Clone, Copy, Debug, PartialEq, Eq, Structural)]
pub enum Delimiter {
    Parenthesis,
    Brace,
    Bracket,
    /// A group without visible delimiters.
    Invisible,
}

/// One token: an identifier (keywords included), a punctuation character and
/// whether it is joined to the next one, a literal as written, or a group edge.
#[derive(Clone, Debug, PartialEq, Eq)]
pub enum Token {
    Ident(String),
    Punct(char, bool),
    Literal(String),
    Open(Delimiter),
    Close(Delimiter),
}

/// A token as a mathematical value.
pub enum Tok {
    Ident(Seq<char>),
    Punct(char, bool),
    Literal(Seq<char>),
    Open(Delimiter),
    Close(Delimiter),
}

impl View for Token {
    type V = Tok;

    open spec fn view(&self) -> Tok {
        match self {
            Token::Ident(s) => Tok::Ident(s@),
            Token::Punct(c, joint) => Tok::Punct(*c, *joint),
            Token::Literal(s) => Tok::Literal(s@),
            Token::Open(d) => Tok::Open(*d),
            Token::Close(d) => Tok::Close(*d),
        }
    }
}

/// The tokens of `v` as values.
pub open spec fn toks(v: Seq<Token>) -> Seq<Tok> {
    v.map_values(|t: Token| t@)
}

impl Token {
    /// A copy of this token.
    pub fn copy(&self) -> (r: Token)
        ensures
            r@ == self@,
    {
        match self {
            Token::Ident(s) => Token::Ident(s.clone()),
            Token::Punct(c, joint) => Token::Punct(*c, *joint),
            Token::Literal(s) => Token::Literal(s.clone()),
            Token::Open(d) => Token::Open(*d),
            Token::Close(d) => Token::Close(*d),
        }
    }

    /// Whether this token is the punctuation character `c`.
    pub fn is_punct(&self, c: char) -> (r: bool)
        ensures
            r == (self@ matches Tok::Punct(p, _) && p == c),
    {
        match self {
            Token::Punct(p, _) => *p == c,
            _ => false,
        }
    }

    /// Whether this token opens a group delimited by `d`.
    pub fn is_open(&self, d: Delimiter) -> (r: bool)
        ensures
            r == (self@ == Tok::Open(d)),
    {
        match self {
            Token::Open(e) => *e == d,
            _ => false,
        }
    }

    /// Whether this token closes a group delimited by `d`.
    pub fn is_close(&self, d: Delimiter) -> (r: bool)
        ensures
            r == (self@ == Tok::Close(d)),
    {
        match self {
            Token::Close(e) => *e == d,
            _ => false,
        }
    }
}

/// How far a sequence of tokens leaves groups open (negative: closed more than opened).
pub open spec fn depth(s: Seq<Tok>) -> int
    decreases s.len(),
{
    if s.len() == 0 {
        0
    } else {
        depth(s.drop_last()) + match s.last() {
            Tok::Open(_) => 1int,
            Tok::Close(_) => -1int,
            _ => 0int,
        }
    }
}

/// Every group that `s` opens it also closes, and it closes none that it did not open.
pub open spec fn balanced(s: Seq<Tok>) -> bool {
    &&& depth(s) == 0
    &&& forall|k: int| 0 <= k <= s.len() ==> depth(#[trigger] s.take(k)) >= 0
}

/// Whether the tokens `from..to` of `tokens` are balanced.
pub fn is_balanced(tokens: &Vec<Token>, from: usize, to: usize) -> (r: bool)
    requires
        from <= to <= tokens@.len(),
    ensures
        r == balanced(toks(tokens@).subrange(from as int, to as int)),
{
    let ghost s = toks(tokens@);
    let mut d: usize = 0;
    let mut i: usize = from;
    assert(s.subrange(from as int, from as int).take(0) =~= seq![]);
    while i < to
        invariant
            from <= i <= to <= tokens@.len(),
            s == toks(tokens@),
            d <= i - from,
            d as int == depth(s.subrange(from as int, i as int)),
            forall|k: int|
                0 <= k <= i - from ==> depth(#[trigger] s.subrange(from as int, i as int).take(k))
                    >= 0,
        decreases to - i,
    {
        let ghost prev = s.subrange(from as int, i as int);
        let ghost next = s.subrange(from as int, i + 1);
        assert(next.drop_last() =~= prev);
        assert(next.last() == tokens@[i as int]@);
        assert forall|k: int| 0 <= k <= i - from implies next.take(k) =~= prev.take(k) by {}
        assert(next.take(i + 1 - from) =~= next);
        match &tokens[i] {
            Token::Open(_) => {
                d = d + 1;
            },
            Token::Close(_) => {
                if d == 0 {
                    assert(depth(next.take(i + 1 - from)) < 0);
                    proof { lemma_unbalanced_tail(s, from as int, i + 1, to as int); }
                    return false;
                }
                d = d - 1;
            },
            _ => {},
        }
        i = i + 1;
    }
    assert(s.subrange(from as int, to as int).take((to - from) as int) =~= s.subrange(
        from as int,
        to as int,
    ));
    d == 0
}

/// A prefix that goes below depth zero stays a prefix of every longer range.
proof fn lemma_unbalanced_tail(s: Seq<Tok>, from: int, mid: int, to: int)
    requires
        0 <= from <= mid <= to <= s.len(),
        depth(s.subrange(from, mid)) < 0,
    ensures
        !balanced(s.subrange(from, to)),
{
    assert(s.subrange(from, to).take(mid - from) =~= s.subrange(from, mid));
}

} // verus!
