use vstd::prelude::*;
use vstd::string::*;
use crate::grammar::{
    MOut, SOut, TOut, lemma_map_tail_err, lemma_map_tail_key, lemma_map_tail_step,
    lemma_map_tail_val_err, lemma_seq_tail_err, lemma_seq_tail_step, lemma_term_at,
    lemma_term_map_open, lemma_term_seq_open, m_combine, s_combine, sp_consult, sp_map_tail_at,
    sp_seq_tail_at, sp_term_at, string_codes, fuel_for,
};
use crate::term::{
    TermV, Value, lemma_view_pairs_push, lemma_view_terms_push, view_pairs, view_terms,
};
use crate::token::{Sym, Tok, drop_hidden, erl_scan, lexical, tokenize};

verus! {

/// Why a source text failed to parse into terms.
#[derive(Debug)]
pub enum Error {
    /// A token that no rule of the grammar accepts, carried whole for
    /// diagnostics.
    InvalidToken(Tok),
    /// The token stream ended where a token was required.
    EndOfInput,
    /// The tokenizer rejected the source text; its rendered report.
    TokenizerError(String),
    /// A specific symbol was required; both sides are carried.
    WrongSymbol { expected: Sym, got: Sym },
    /// An integer literal exceeding the 64-bit signed range.
    InvalidInteger,
}

/// Symbol equality, for the symbols the grammar expects (never `Other`).
fn sym_eq(a: &Sym, b: &Sym) -> (r: bool)
    requires
        !(b is Other),
    ensures
        r == (a == b),
{
    match (a, b) {
        (Sym::OpenSquare, Sym::OpenSquare) => true,
        (Sym::CloseSquare, Sym::CloseSquare) => true,
        (Sym::OpenBrace, Sym::OpenBrace) => true,
        (Sym::CloseBrace, Sym::CloseBrace) => true,
        (Sym::Sharp, Sym::Sharp) => true,
        (Sym::Dot, Sym::Dot) => true,
        (Sym::Comma, Sym::Comma) => true,
        (Sym::DoubleRightArrow, Sym::DoubleRightArrow) => true,
        (Sym::DoubleLeftAngle, Sym::DoubleLeftAngle) => true,
        (Sym::DoubleRightAngle, Sym::DoubleRightAngle) => true,
        _ => false,
    }
}

/// One-token-lookahead cursor over a token stream: the navigation
/// primitive under the term parser. No parsing logic lives here.
pub struct TokenStream {
    toks: Vec<Tok>,
    pos: usize,
}

impl TokenStream {
    /// The whole underlying token sequence.
    pub closed spec fn toks(&self) -> Seq<Tok> {
        self.toks@
    }

    /// The position of the next unread token.
    pub closed spec fn at(&self) -> int {
        self.pos as int
    }

    pub open spec fn wf(&self) -> bool {
        0 <= self.at() <= self.toks().len()
    }

    /// Wraps a token sequence as a stream positioned at its start.
    pub fn new(toks: Vec<Tok>) -> (r: TokenStream)
        ensures
            r.wf(),
            r.toks() == toks@,
            r.at() == 0,
    {
        TokenStream { toks, pos: 0 }
    }

    /// Whether the stream is exhausted.
    pub fn at_end(&self) -> (r: bool)
        requires
            self.wf(),
        ensures
            r == (self.at() >= self.toks().len()),
    {
        self.pos >= self.toks.len()
    }

    /// The next token, consumed; stream-exhausted otherwise.
    pub fn next_token(&mut self) -> (r: Result<Tok, Error>)
        requires
            old(self).wf(),
        ensures
            final(self).toks() == old(self).toks(),
            final(self).wf(),
            old(self).at() < old(self).toks().len() ==> (r matches Ok(t)
                && t == old(self).toks()[old(self).at()]
                && final(self).at() == old(self).at() + 1),
            old(self).at() >= old(self).toks().len() ==> r == Err::<Tok, Error>(Error::EndOfInput)
                && final(self).at() == old(self).at(),
    {
        if self.pos < self.toks.len() {
            let t = self.toks[self.pos].clone();
            self.pos = self.pos + 1;
            Ok(t)
        } else {
            Err(Error::EndOfInput)
        }
    }

    /// Requires the next token to be the given symbol and consumes it;
    /// fails telling exhaustion, a non-symbol token, and a wrong symbol
    /// apart.
    pub fn expect_symbol(&mut self, symbol: Sym) -> (r: Result<(), Error>)
        requires
            old(self).wf(),
            !(symbol is Other),
        ensures
            final(self).toks() == old(self).toks(),
            final(self).wf(),
            old(self).at() >= old(self).toks().len() ==> r == Err::<(), Error>(Error::EndOfInput),
            old(self).at() < old(self).toks().len() ==> match old(self).toks()[old(self).at()] {
                Tok::Punct(y) => if y == symbol {
                    r == Ok::<(), Error>(()) && final(self).at() == old(self).at() + 1
                } else {
                    r == Err::<(), Error>(Error::WrongSymbol { expected: symbol, got: y })
                },
                _ => r == Err::<(), Error>(Error::InvalidToken(old(self).toks()[old(self).at()])),
            },
    {
        let t = match self.next_token() {
            Ok(t) => t,
            Err(e) => {
                return Err(e);
            },
        };
        match t {
            Tok::Punct(y) => {
                if sym_eq(&y, &symbol) {
                    Ok(())
                } else {
                    Err(Error::WrongSymbol { expected: symbol, got: y })
                }
            },
            other => Err(Error::InvalidToken(other)),
        }
    }

    /// The next token's symbol, without consuming anything; fails on a
    /// non-symbol token or an exhausted stream.
    pub fn peek_symbol(&self) -> (r: Result<Sym, Error>)
        requires
            self.wf(),
        ensures
            self.at() >= self.toks().len() ==> r == Err::<Sym, Error>(Error::EndOfInput),
            self.at() < self.toks().len() ==> match self.toks()[self.at()] {
                Tok::Punct(y) => r == Ok::<Sym, Error>(y),
                t => r == Err::<Sym, Error>(Error::InvalidToken(t)),
            },
    {
        if self.pos < self.toks.len() {
            match &self.toks[self.pos] {
                Tok::Punct(y) => Ok(y.clone()),
                other => Err(Error::InvalidToken(other.clone())),
            }
        } else {
            Err(Error::EndOfInput)
        }
    }

    /// Consumes the next token exactly when peeking a symbol succeeds,
    /// returning that symbol; otherwise leaves the stream untouched and
    /// propagates the peek failure.
    pub fn consume_symbol(&mut self) -> (r: Result<Sym, Error>)
        requires
            old(self).wf(),
        ensures
            final(self).toks() == old(self).toks(),
            final(self).wf(),
            old(self).at() >= old(self).toks().len() ==> r == Err::<Sym, Error>(Error::EndOfInput)
                && final(self).at() == old(self).at(),
            old(self).at() < old(self).toks().len() ==> match old(self).toks()[old(self).at()] {
                Tok::Punct(y) => r == Ok::<Sym, Error>(y)
                    && final(self).at() == old(self).at() + 1,
                t => r == Err::<Sym, Error>(Error::InvalidToken(t))
                    && final(self).at() == old(self).at(),
            },
    {
        match self.peek_symbol() {
            Ok(y) => {
                let n = self.toks.len();
                proof {
                    assert(self.at() < n as int);
                }
                self.pos = self.pos + 1;
                Ok(y)
            },
            Err(e) => Err(e),
        }
    }
}

/// Reads one complete term from the stream, consuming exactly its
/// tokens: the result, success or failure, is the one the grammar
/// (`sp_term_at`) gives at the starting position.
#[verifier::loop_isolation(false)]
pub fn parse(l: &mut TokenStream) -> (r: Result<Value, Error>)
    requires
        old(l).wf(),
    ensures
        final(l).toks() == old(l).toks(),
        final(l).wf(),
        match r {
            Ok(v) => sp_term_at(old(l).toks(), old(l).at())
                == (TOut::Done { v: v@, next: final(l).at() })
                && old(l).at() < final(l).at() <= old(l).toks().len(),
            Err(e) => sp_term_at(old(l).toks(), old(l).at()) == TOut::Stop(e),
        },
    decreases old(l).toks().len() - old(l).at(),
{
    let ghost ts = l.toks();
    let ghost i0 = l.at();
    let next = match l.next_token() {
        Ok(t) => t,
        Err(e) => {
            return Err(e);
        },
    };
    match next {
        Tok::Atom(s) => Ok(Value::Atom(s)),
        Tok::Char(c) => Ok(Value::Integer((c as u32) as i64)),
        Tok::Float(b) => Ok(Value::Float(b)),
        Tok::Integer(n) => match n {
            Some(x) => Ok(Value::Integer(x)),
            None => Err(Error::InvalidInteger),
        },
        Tok::Str(s) => {
            let mut elems: Vec<Value> = Vec::new();
            let n = s.as_str().unicode_len();
            for k in 0..n
                invariant
                    n == s@.len(),
                    view_terms(elems@) == string_codes(s@.subrange(0, k as int)),
            {
                let ghost pre = elems@;
                let c = s.as_str().get_char(k);
                elems.push(Value::Integer((c as u32) as i64));
                proof {
                    lemma_view_terms_push(pre, Value::Integer((c as u32) as i64));
                    assert(s@.subrange(0, k + 1)
                        =~= s@.subrange(0, k as int).push(s@[k as int]));
                    assert(string_codes(s@.subrange(0, k + 1))
                        =~= string_codes(s@.subrange(0, k as int)).push(
                            TermV::Int(c as u32 as int)));
                }
            }
            proof {
                assert(s@.subrange(0, s@.len() as int) =~= s@);
            }
            Ok(Value::List(elems))
        },
        Tok::Punct(y) => match y {
            Sym::OpenSquare => {
                let empty = match l.peek_symbol() {
                    Ok(Sym::CloseSquare) => true,
                    _ => false,
                };
                if empty {
                    let _ = l.next_token();
                    proof {
                        assert(view_terms(Seq::<Value>::empty()) =~= Seq::<TermV>::empty());
                    }
                    return Ok(Value::List(Vec::new()));
                }
                let mut res: Vec<Value> = Vec::new();
                proof {
                    lemma_term_seq_open(ts, i0);
                    assert(s_combine(view_terms(res@), sp_seq_tail_at(ts, i0 + 1, Sym::CloseSquare))
                        == sp_seq_tail_at(ts, i0 + 1, Sym::CloseSquare));
                }
                loop
                    invariant
                        l.wf(),
                        l.toks() == ts,
                        0 <= i0 < ts.len(),
                        ts[i0] == Tok::Punct(Sym::OpenSquare),
                        !(i0 + 1 < ts.len() && ts[i0 + 1] == Tok::Punct(Sym::CloseSquare)),
                        i0 + 1 <= l.at() <= ts.len(),
                        s_combine(view_terms(res@), sp_seq_tail_at(ts, l.at(), Sym::CloseSquare))
                            == sp_seq_tail_at(ts, i0 + 1, Sym::CloseSquare),
                    decreases ts.len() - l.at(),
                {
                    let ghost cur = l.at();
                    let ghost acc = res@;
                    let v = match parse(l) {
                        Ok(v) => v,
                        Err(e) => {
                            proof {
                                lemma_seq_tail_err(ts, cur, Sym::CloseSquare, e);
                                lemma_term_seq_open(ts, i0);
                            }
                            return Err(e);
                        },
                    };
                    let ghost j = l.at();
                    res.push(v);
                    proof {
                        lemma_view_terms_push(acc, v);
                        lemma_seq_tail_step(ts, cur, Sym::CloseSquare, v@, j);
                    }
                    match l.consume_symbol() {
                        Ok(Sym::Comma) => {
                            proof {
                                assert(sp_seq_tail_at(ts, cur, Sym::CloseSquare)
                                    == s_combine(seq![v@],
                                        sp_seq_tail_at(ts, j + 1, Sym::CloseSquare)));
                                match sp_seq_tail_at(ts, j + 1, Sym::CloseSquare) {
                                    SOut::Done { vs, next } => {
                                        assert(view_terms(acc) + (seq![v@] + vs)
                                            =~= view_terms(res@) + vs);
                                    },
                                    _ => {},
                                }
                            }
                        },
                        Ok(Sym::CloseSquare) => {
                            proof {
                                lemma_term_seq_open(ts, i0);
                                assert(view_terms(acc) + seq![v@] =~= view_terms(res@));
                            }
                            return Ok(Value::List(res));
                        },
                        Ok(other) => {
                            proof {
                                lemma_term_seq_open(ts, i0);
                            }
                            return Err(Error::WrongSymbol {
                                expected: Sym::CloseSquare,
                                got: other,
                            });
                        },
                        Err(e) => {
                            proof {
                                lemma_term_seq_open(ts, i0);
                            }
                            return Err(e);
                        },
                    }
                }
            },
            Sym::OpenBrace => {
                let empty = match l.peek_symbol() {
                    Ok(Sym::CloseBrace) => true,
                    _ => false,
                };
                if empty {
                    let _ = l.next_token();
                    proof {
                        assert(view_terms(Seq::<Value>::empty()) =~= Seq::<TermV>::empty());
                    }
                    return Ok(Value::Tuple(Vec::new()));
                }
                let mut res: Vec<Value> = Vec::new();
                proof {
                    lemma_term_seq_open(ts, i0);
                }
                loop
                    invariant
                        l.wf(),
                        l.toks() == ts,
                        0 <= i0 < ts.len(),
                        ts[i0] == Tok::Punct(Sym::OpenBrace),
                        !(i0 + 1 < ts.len() && ts[i0 + 1] == Tok::Punct(Sym::CloseBrace)),
                        i0 + 1 <= l.at() <= ts.len(),
                        s_combine(view_terms(res@), sp_seq_tail_at(ts, l.at(), Sym::CloseBrace))
                            == sp_seq_tail_at(ts, i0 + 1, Sym::CloseBrace),
                    decreases ts.len() - l.at(),
                {
                    let ghost cur = l.at();
                    let ghost acc = res@;
                    let v = match parse(l) {
                        Ok(v) => v,
                        Err(e) => {
                            proof {
                                lemma_seq_tail_err(ts, cur, Sym::CloseBrace, e);
                                lemma_term_seq_open(ts, i0);
                            }
                            return Err(e);
                        },
                    };
                    let ghost j = l.at();
                    res.push(v);
                    proof {
                        lemma_view_terms_push(acc, v);
                        lemma_seq_tail_step(ts, cur, Sym::CloseBrace, v@, j);
                    }
                    match l.consume_symbol() {
                        Ok(Sym::Comma) => {
                            proof {
                                match sp_seq_tail_at(ts, j + 1, Sym::CloseBrace) {
                                    SOut::Done { vs, next } => {
                                        assert(view_terms(acc) + (seq![v@] + vs)
                                            =~= view_terms(res@) + vs);
                                    },
                                    _ => {},
                                }
                            }
                        },
                        Ok(Sym::CloseBrace) => {
                            proof {
                                lemma_term_seq_open(ts, i0);
                                assert(view_terms(acc) + seq![v@] =~= view_terms(res@));
                            }
                            return Ok(Value::Tuple(res));
                        },
                        Ok(other) => {
                            proof {
                                lemma_term_seq_open(ts, i0);
                            }
                            return Err(Error::WrongSymbol {
                                expected: Sym::CloseBrace,
                                got: other,
                            });
                        },
                        Err(e) => {
                            proof {
                                lemma_term_seq_open(ts, i0);
                            }
                            return Err(e);
                        },
                    }
                }
            },
            Sym::Sharp => {
                match l.expect_symbol(Sym::OpenBrace) {
                    Ok(()) => {},
                    Err(e) => {
                        return Err(e);
                    },
                }
                let empty = match l.peek_symbol() {
                    Ok(Sym::CloseBrace) => true,
                    _ => false,
                };
                if empty {
                    let _ = l.next_token();
                    proof {
                        assert(view_pairs(Seq::<(Value, Value)>::empty())
                            =~= Seq::<(TermV, TermV)>::empty());
                    }
                    return Ok(Value::Mapping(Vec::new()));
                }
                let mut res: Vec<(Value, Value)> = Vec::new();
                proof {
                    lemma_term_map_open(ts, i0);
                }
                loop
                    invariant
                        l.wf(),
                        l.toks() == ts,
                        0 <= i0 < ts.len(),
                        ts[i0] == Tok::Punct(Sym::Sharp),
                        i0 + 1 < ts.len(),
                        ts[i0 + 1] == Tok::Punct(Sym::OpenBrace),
                        !(i0 + 2 < ts.len() && ts[i0 + 2] == Tok::Punct(Sym::CloseBrace)),
                        i0 + 2 <= l.at() <= ts.len(),
                        m_combine(view_pairs(res@), sp_map_tail_at(ts, l.at()))
                            == sp_map_tail_at(ts, i0 + 2),
                    decreases ts.len() - l.at(),
                {
                    let ghost cur = l.at();
                    let ghost acc = res@;
                    let k = match parse(l) {
                        Ok(k) => k,
                        Err(e) => {
                            proof {
                                lemma_map_tail_err(ts, cur, e);
                                lemma_term_map_open(ts, i0);
                            }
                            return Err(e);
                        },
                    };
                    let ghost j = l.at();
                    match l.expect_symbol(Sym::DoubleRightArrow) {
                        Ok(()) => {},
                        Err(e) => {
                            proof {
                                lemma_map_tail_key(ts, cur, k@, j);
                                lemma_term_map_open(ts, i0);
                            }
                            return Err(e);
                        },
                    }
                    let w = match parse(l) {
                        Ok(w) => w,
                        Err(e) => {
                            proof {
                                lemma_map_tail_val_err(ts, cur, k@, j, e);
                                lemma_term_map_open(ts, i0);
                            }
                            return Err(e);
                        },
                    };
                    let ghost m = l.at();
                    proof {
                        lemma_view_pairs_push(acc, (k, w));
                        lemma_map_tail_step(ts, cur, k@, j, w@, m);
                    }
                    res.push((k, w));
                    match l.consume_symbol() {
                        Ok(Sym::Comma) => {
                            proof {
                                match sp_map_tail_at(ts, m + 1) {
                                    MOut::Done { ps, next } => {
                                        assert(view_pairs(acc) + (seq![(k@, w@)] + ps)
                                            =~= view_pairs(res@) + ps);
                                    },
                                    _ => {},
                                }
                            }
                        },
                        Ok(Sym::CloseBrace) => {
                            proof {
                                lemma_term_map_open(ts, i0);
                                assert(view_pairs(acc) + seq![(k@, w@)] =~= view_pairs(res@));
                            }
                            return Ok(Value::Mapping(res));
                        },
                        Ok(other) => {
                            proof {
                                lemma_term_map_open(ts, i0);
                            }
                            return Err(Error::WrongSymbol {
                                expected: Sym::CloseBrace,
                                got: other,
                            });
                        },
                        Err(e) => {
                            proof {
                                lemma_term_map_open(ts, i0);
                            }
                            return Err(e);
                        },
                    }
                }
            },
            Sym::DoubleLeftAngle => {
                let t2 = match l.next_token() {
                    Ok(t) => t,
                    Err(e) => {
                        return Err(e);
                    },
                };
                match t2 {
                    Tok::Str(s) => {
                        match l.expect_symbol(Sym::DoubleRightAngle) {
                            Ok(()) => Ok(Value::Binary(s)),
                            Err(e) => Err(e),
                        }
                    },
                    Tok::Punct(y2) => {
                        if matches!(y2, Sym::DoubleRightAngle) {
                            Ok(Value::Binary(String::new()))
                        } else {
                            Err(Error::InvalidToken(Tok::Punct(y2)))
                        }
                    },
                    other => Err(Error::InvalidToken(other)),
                }
            },
            yy => Err(Error::InvalidToken(Tok::Punct(yy))),
        },
        other => Err(Error::InvalidToken(other)),
    }
}

/// Reads every period-terminated form of a source text, in source
/// order: the text is tokenized once, comments and whitespace fall
/// away, and the forms are exactly what the grammar (`sp_consult`)
/// gives on that token stream. An empty input yields an empty sequence.
#[verifier::loop_isolation(false)]
pub fn consult(s: &str) -> (r: Result<Vec<Value>, Error>)
    ensures
        match erl_scan(s@) {
            Option::Some(raw) => match sp_consult(lexical(raw), 0) {
                Result::Ok(vs) => (r matches Ok(out) && view_terms(out@) == vs),
                Result::Err(e) => r == Err::<Vec<Value>, Error>(e),
            },
            Option::None => (r matches Err(e) && e is TokenizerError),
        },
{
    let raw = match tokenize(s) {
        Ok(v) => v,
        Err(m) => {
            return Err(Error::TokenizerError(m));
        },
    };
    let toks = drop_hidden(&raw);
    let mut l = TokenStream::new(toks);
    let ghost ts = l.toks();
    let mut res: Vec<Value> = Vec::new();
    proof {
        assert(view_terms(res@) =~= Seq::<TermV>::empty());
    }
    loop
        invariant
            l.wf(),
            l.toks() == ts,
            ts == lexical(raw@),
            erl_scan(s@) == Some(raw@),
            0 <= l.at() <= ts.len(),
            match sp_consult(ts, l.at()) {
                Result::Ok(vs) => sp_consult(ts, 0) == Ok::<Seq<TermV>, Error>(
                    view_terms(res@) + vs),
                Result::Err(e) => sp_consult(ts, 0) == Err::<Seq<TermV>, Error>(e),
            },
        decreases ts.len() - l.at(),
    {
        if l.at_end() {
            break;
        }
        let ghost cur = l.at();
        let ghost acc = res@;
        let form = match parse(&mut l) {
            Ok(v) => v,
            Err(e) => {
                return Err(e);
            },
        };
        let ghost j = l.at();
        match l.expect_symbol(Sym::Dot) {
            Ok(()) => {},
            Err(e) => {
                proof {
                    lemma_term_at(ts, cur, fuel_for(ts, cur));
                }
                return Err(e);
            },
        }
        res.push(form);
        proof {
            lemma_term_at(ts, cur, fuel_for(ts, cur));
            lemma_view_terms_push(acc, form);
            match sp_consult(ts, j + 1) {
                Result::Ok(vs) => {
                    assert(view_terms(acc) + (seq![form@] + vs) =~= view_terms(res@) + vs);
                },
                Result::Err(e) => {},
            }
        }
    }
    proof {
        assert(view_terms(res@) + Seq::<TermV>::empty() =~= view_terms(res@));
    }
    Ok(res)
}

} // verus!
