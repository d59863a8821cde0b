use vstd::prelude::*;
use erl_tokenize::TokenValue;
use erl_tokenize::Symbol;

verus! {

/// The punctuation symbols the term grammar tells apart; any other
/// punctuation or operator token is carried as `Other` with its text.
#[derive(Debug)]
pub enum Sym {
    OpenSquare,
    CloseSquare,
    OpenBrace,
    CloseBrace,
    Sharp,
    Dot,
    Comma,
    DoubleRightArrow,
    DoubleLeftAngle,
    DoubleRightAngle,
    Other(String),
}

/// One lexical token of a metadata source text, reduced to the plain
/// values the term grammar reads.
#[derive(Debug)]
pub enum Tok {
    /// Unquoted symbolic name, decoded.
    Atom(String),
    /// Character literal, decoded.
    Char(char),
    /// Float literal, carried as its IEEE-754 bit pattern.
    Float(u64),
    /// Integer literal: its value when it fits the 64-bit signed range,
    /// `None` when it exceeds it. Literals are never negative at the
    /// token level; a leading minus is a separate symbol token.
    Integer(Option<i64>),
    /// Reserved word of the tokenizer's language; no part of the term
    /// grammar.
    Keyword(String),
    /// Quoted string literal, decoded.
    Str(String),
    /// Variable identifier; no part of the term grammar.
    Variable(String),
    /// Sigil string literal; no part of the term grammar.
    Sigil(String),
    /// Comment or whitespace; dropped before parsing.
    Hidden,
    /// Punctuation or operator symbol.
    Punct(Sym),
}

impl Clone for Sym {
    fn clone(&self) -> (r: Self)
        ensures
            r == *self,
    {
        match self {
            Sym::OpenSquare => Sym::OpenSquare,
            Sym::CloseSquare => Sym::CloseSquare,
            Sym::OpenBrace => Sym::OpenBrace,
            Sym::CloseBrace => Sym::CloseBrace,
            Sym::Sharp => Sym::Sharp,
            Sym::Dot => Sym::Dot,
            Sym::Comma => Sym::Comma,
            Sym::DoubleRightArrow => Sym::DoubleRightArrow,
            Sym::DoubleLeftAngle => Sym::DoubleLeftAngle,
            Sym::DoubleRightAngle => Sym::DoubleRightAngle,
            Sym::Other(t) => Sym::Other(t.clone()),
        }
    }
}

impl Clone for Tok {
    fn clone(&self) -> (r: Self)
        ensures
            r == *self,
    {
        match self {
            Tok::Atom(s) => Tok::Atom(s.clone()),
            Tok::Char(c) => Tok::Char(*c),
            Tok::Float(b) => Tok::Float(*b),
            Tok::Integer(n) => Tok::Integer(*n),
            Tok::Keyword(s) => Tok::Keyword(s.clone()),
            Tok::Str(s) => Tok::Str(s.clone()),
            Tok::Variable(s) => Tok::Variable(s.clone()),
            Tok::Sigil(s) => Tok::Sigil(s.clone()),
            Tok::Hidden => Tok::Hidden,
            Tok::Punct(y) => Tok::Punct(y.clone()),
        }
    }
}

#[verifier::external_type_specification]
#[verifier::external_body]
pub struct ExErlToken(erl_tokenize::Token);

#[verifier::external_type_specification]
#[verifier::external_body]
pub struct ExErlSymbol(erl_tokenize::Symbol);

/// The token stream that the outside tokenizer derives from a source
/// text, comments and whitespace included; `None` when it rejects the
/// text. The stream depends on the text alone.
pub uninterp spec fn erl_scan(s: Seq<char>) -> Option<Seq<Tok>>;

/// Relies on erl_tokenize::scan_tokens: one scan of the whole source,
/// deterministic in the source text, stopping at the first lexical
/// error. Each scanned token is reduced to the plain values this crate
/// reads from it.
#[verifier::external_body]
pub(crate) fn tokenize(s: &str) -> (r: Result<Vec<Tok>, String>)
    ensures
        r matches Ok(v) ==> erl_scan(s@) == Some(v@),
        r is Err ==> erl_scan(s@) is None,
{
    match erl_tokenize::scan_tokens(s) {
        Ok(ts) => Ok(ts.into_iter().map(|t| classify(t, s)).collect()),
        Err(e) => Err(e.to_string()),
    }
}

/// The value of an integer literal, kept only when it fits the 64-bit
/// signed range.
fn narrow(n: Option<u64>) -> (r: Option<i64>)
    ensures
        r == (match n {
            Option::Some(u) => if u <= i64::MAX as u64 {
                Option::Some(u as i64)
            } else {
                Option::None::<i64>
            },
            Option::None => Option::None::<i64>,
        }),
{
    match n {
        Some(u) => if u <= 0x7fff_ffff_ffff_ffff {
            Some(u as i64)
        } else {
            None
        },
        None => None,
    }
}

/// Relies on erl_tokenize::Token::value: decodes one token against the
/// source it was scanned from. Each variant is moved to the matching
/// variant of this crate's token type.
#[verifier::external_body]
fn classify(t: erl_tokenize::Token, src: &str) -> Tok {
    match t.value(src) {
        TokenValue::Atom(a) => Tok::Atom(a.into_owned()),
        TokenValue::Char(c) => Tok::Char(c),
        TokenValue::Comment(_) | TokenValue::Whitespace(_) => Tok::Hidden,
        TokenValue::Float(f) => Tok::Float(f.to_bits()),
        TokenValue::Integer(n) => Tok::Integer(narrow(n)),
        TokenValue::Keyword(k) => Tok::Keyword(k.as_str().to_string()),
        TokenValue::SigilString { content, .. } => Tok::Sigil(content.into_owned()),
        TokenValue::String(s) => Tok::Str(s.into_owned()),
        TokenValue::Symbol(y) => Tok::Punct(classify_symbol(y)),
        TokenValue::Variable(v) => Tok::Variable(v.to_string()),
    }
}

/// Relies on erl_tokenize::Symbol: a plain enumeration of punctuation.
/// The symbols the grammar tells apart are moved to their own variants;
/// every other one is carried as text via Symbol::as_str.
#[verifier::external_body]
fn classify_symbol(y: Symbol) -> Sym {
    match y {
        Symbol::OpenSquare => Sym::OpenSquare,
        Symbol::CloseSquare => Sym::CloseSquare,
        Symbol::OpenBrace => Sym::OpenBrace,
        Symbol::CloseBrace => Sym::CloseBrace,
        Symbol::Sharp => Sym::Sharp,
        Symbol::Dot => Sym::Dot,
        Symbol::Comma => Sym::Comma,
        Symbol::DoubleRightArrow => Sym::DoubleRightArrow,
        Symbol::DoubleLeftAngle => Sym::DoubleLeftAngle,
        Symbol::DoubleRightAngle => Sym::DoubleRightAngle,
        other => Sym::Other(other.as_str().to_string()),
    }
}

/// The lexical tokens of a stream: what is left when comments and
/// whitespace are dropped.
pub open spec fn lexical(ts: Seq<Tok>) -> Seq<Tok>
    decreases ts.len(),
{
    if ts.len() == 0 {
        Seq::empty()
    } else {
        let rest = lexical(ts.subrange(1, ts.len() as int));
        if ts[0] is Hidden {
            rest
        } else {
            seq![ts[0]] + rest
        }
    }
}

/// Drops the comment and whitespace tokens of a stream.
pub(crate) fn drop_hidden(ts: &Vec<Tok>) -> (r: Vec<Tok>)
    ensures
        r@ == lexical(ts@),
{
    let mut out: Vec<Tok> = Vec::new();
    let n = ts.len();
    proof {
        assert(ts@.subrange(0, n as int) =~= ts@);
        assert(Seq::<Tok>::empty() + lexical(ts@) =~= lexical(ts@));
    }
    for k in 0..n
        invariant
            n == ts@.len(),
            lexical(ts@) == out@ + lexical(ts@.subrange(k as int, n as int)),
    {
        let ghost pre = out@;
        let ghost rest = lexical(ts@.subrange(k + 1, n as int));
        proof {
            assert(ts@.subrange(k as int, n as int).subrange(1, (n - k) as int)
                =~= ts@.subrange(k + 1, n as int));
            assert(ts@.subrange(k as int, n as int)[0] == ts@[k as int]);
        }
        if !matches!(&ts[k], Tok::Hidden) {
            out.push(ts[k].clone());
            proof {
                assert(pre + (seq![ts@[k as int]] + rest) =~= out@ + rest);
            }
        }
    }
    proof {
        assert(ts@.subrange(n as int, n as int) =~= Seq::<Tok>::empty());
        assert(out@ + Seq::<Tok>::empty() =~= out@);
    }
    out
}

} // verus!
