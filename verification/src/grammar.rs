use vstd::prelude::*;
use crate::term::TermV;
use crate::token::{Sym, Tok};
use crate::consult::Error;

verus! {

/// Outcome of reading one term at a position of a token stream:
/// the term and the position just past it, a typed failure, or the
/// recursion allowance ran out (never reached from a sufficient
/// allowance; see `lemma_term_fuel`).
pub enum TOut {
    Done { v: TermV, next: int },
    Stop(Error),
    Short,
}

/// Outcome of reading the comma-separated element terms of a list or
/// tuple, from the first element up to and including the closing symbol.
pub enum SOut {
    Done { vs: Seq<TermV>, next: int },
    Stop(Error),
    Short,
}

/// Outcome of reading the key-arrow-value pairs of a map, from the
/// first key up to and including the closing brace.
pub enum MOut {
    Done { ps: Seq<(TermV, TermV)>, next: int },
    Stop(Error),
    Short,
}

/// The code points of a quoted string, as Integer terms.
pub open spec fn string_codes(s: Seq<char>) -> Seq<TermV> {
    s.map_values(|c: char| TermV::Int(c as u32 as int))
}

/// Reads one term at position `i` of `ts`: the mathematical definition
/// of the term grammar. Dispatch is on the token at `i`; structural
/// forms make one closing decision per element by looking a single
/// token ahead. `f` bounds the recursion depth.
pub open spec fn sp_term(ts: Seq<Tok>, i: int, f: nat) -> TOut
    decreases f,
{
    if f == 0 {
        TOut::Short
    } else if !(0 <= i < ts.len()) {
        TOut::Stop(Error::EndOfInput)
    } else {
        match ts[i] {
            Tok::Atom(a) => TOut::Done { v: TermV::Atm(a@), next: i + 1 },
            Tok::Char(c) => TOut::Done { v: TermV::Int(c as u32 as int), next: i + 1 },
            Tok::Float(b) => TOut::Done { v: TermV::Flt(b), next: i + 1 },
            Tok::Integer(n) => match n {
                Some(x) => TOut::Done { v: TermV::Int(x as int), next: i + 1 },
                None => TOut::Stop(Error::InvalidInteger),
            },
            Tok::Str(s) => TOut::Done { v: TermV::Lst(string_codes(s@)), next: i + 1 },
            Tok::Punct(y) => match y {
                Sym::OpenSquare => if i + 1 < ts.len() && ts[i + 1] == Tok::Punct(Sym::CloseSquare) {
                    TOut::Done { v: TermV::Lst(Seq::empty()), next: i + 2 }
                } else {
                    match sp_seq_tail(ts, i + 1, Sym::CloseSquare, (f - 1) as nat) {
                        SOut::Done { vs, next } => TOut::Done { v: TermV::Lst(vs), next },
                        SOut::Stop(e) => TOut::Stop(e),
                        SOut::Short => TOut::Short,
                    }
                },
                Sym::OpenBrace => if i + 1 < ts.len() && ts[i + 1] == Tok::Punct(Sym::CloseBrace) {
                    TOut::Done { v: TermV::Tup(Seq::empty()), next: i + 2 }
                } else {
                    match sp_seq_tail(ts, i + 1, Sym::CloseBrace, (f - 1) as nat) {
                        SOut::Done { vs, next } => TOut::Done { v: TermV::Tup(vs), next },
                        SOut::Stop(e) => TOut::Stop(e),
                        SOut::Short => TOut::Short,
                    }
                },
                Sym::Sharp => if !(i + 1 < ts.len()) {
                    TOut::Stop(Error::EndOfInput)
                } else {
                    match ts[i + 1] {
                        Tok::Punct(y2) => if y2 == Sym::OpenBrace {
                            if i + 2 < ts.len() && ts[i + 2] == Tok::Punct(Sym::CloseBrace) {
                                TOut::Done { v: TermV::Mp(Seq::empty()), next: i + 3 }
                            } else {
                                match sp_map_tail(ts, i + 2, (f - 1) as nat) {
                                    MOut::Done { ps, next } => TOut::Done { v: TermV::Mp(ps), next },
                                    MOut::Stop(e) => TOut::Stop(e),
                                    MOut::Short => TOut::Short,
                                }
                            }
                        } else {
                            TOut::Stop(Error::WrongSymbol { expected: Sym::OpenBrace, got: y2 })
                        },
                        _ => TOut::Stop(Error::InvalidToken(ts[i + 1])),
                    }
                },
                Sym::DoubleLeftAngle => if !(i + 1 < ts.len()) {
                    TOut::Stop(Error::EndOfInput)
                } else {
                    match ts[i + 1] {
                        Tok::Str(s) => if !(i + 2 < ts.len()) {
                            TOut::Stop(Error::EndOfInput)
                        } else {
                            match ts[i + 2] {
                                Tok::Punct(y3) => if y3 == Sym::DoubleRightAngle {
                                    TOut::Done { v: TermV::Bin(s@), next: i + 3 }
                                } else {
                                    TOut::Stop(Error::WrongSymbol {
                                        expected: Sym::DoubleRightAngle,
                                        got: y3,
                                    })
                                },
                                _ => TOut::Stop(Error::InvalidToken(ts[i + 2])),
                            }
                        },
                        Tok::Punct(y2) => if y2 == Sym::DoubleRightAngle {
                            TOut::Done { v: TermV::Bin(Seq::empty()), next: i + 2 }
                        } else {
                            TOut::Stop(Error::InvalidToken(ts[i + 1]))
                        },
                        _ => TOut::Stop(Error::InvalidToken(ts[i + 1])),
                    }
                },
                _ => TOut::Stop(Error::InvalidToken(ts[i])),
            },
            _ => TOut::Stop(Error::InvalidToken(ts[i])),
        }
    }
}

/// Reads list or tuple elements from the first element at `i`: one term,
/// then a comma (continue) or the closing symbol (done); any other
/// symbol is a mismatch naming the expected closing symbol.
pub open spec fn sp_seq_tail(ts: Seq<Tok>, i: int, close: Sym, f: nat) -> SOut
    decreases f,
{
    if f == 0 {
        SOut::Short
    } else {
        match sp_term(ts, i, (f - 1) as nat) {
            TOut::Short => SOut::Short,
            TOut::Stop(e) => SOut::Stop(e),
            TOut::Done { v, next } => if !(0 <= next < ts.len()) {
                SOut::Stop(Error::EndOfInput)
            } else {
                match ts[next] {
                    Tok::Punct(y) => if y == Sym::Comma {
                        match sp_seq_tail(ts, next + 1, close, (f - 1) as nat) {
                            SOut::Done { vs, next: after } => SOut::Done {
                                vs: seq![v] + vs,
                                next: after,
                            },
                            SOut::Stop(e) => SOut::Stop(e),
                            SOut::Short => SOut::Short,
                        }
                    } else if y == close {
                        SOut::Done { vs: seq![v], next: next + 1 }
                    } else {
                        SOut::Stop(Error::WrongSymbol { expected: close, got: y })
                    },
                    _ => SOut::Stop(Error::InvalidToken(ts[next])),
                }
            },
        }
    }
}

/// Reads map pairs from the first key at `i`: a key term, the arrow, a
/// value term, then a comma (continue) or the closing brace (done).
pub open spec fn sp_map_tail(ts: Seq<Tok>, i: int, f: nat) -> MOut
    decreases f,
{
    if f == 0 {
        MOut::Short
    } else {
        match sp_term(ts, i, (f - 1) as nat) {
            TOut::Short => MOut::Short,
            TOut::Stop(e) => MOut::Stop(e),
            TOut::Done { v: k, next: j } => if !(0 <= j < ts.len()) {
                MOut::Stop(Error::EndOfInput)
            } else {
                match ts[j] {
                    Tok::Punct(y) => if y == Sym::DoubleRightArrow {
                        match sp_term(ts, j + 1, (f - 1) as nat) {
                            TOut::Short => MOut::Short,
                            TOut::Stop(e) => MOut::Stop(e),
                            TOut::Done { v: w, next: m } => if !(0 <= m < ts.len()) {
                                MOut::Stop(Error::EndOfInput)
                            } else {
                                match ts[m] {
                                    Tok::Punct(y2) => if y2 == Sym::Comma {
                                        match sp_map_tail(ts, m + 1, (f - 1) as nat) {
                                            MOut::Done { ps, next: after } => MOut::Done {
                                                ps: seq![(k, w)] + ps,
                                                next: after,
                                            },
                                            MOut::Stop(e) => MOut::Stop(e),
                                            MOut::Short => MOut::Short,
                                        }
                                    } else if y2 == Sym::CloseBrace {
                                        MOut::Done { ps: seq![(k, w)], next: m + 1 }
                                    } else {
                                        MOut::Stop(Error::WrongSymbol {
                                            expected: Sym::CloseBrace,
                                            got: y2,
                                        })
                                    },
                                    _ => MOut::Stop(Error::InvalidToken(ts[m])),
                                }
                            },
                        }
                    } else {
                        MOut::Stop(Error::WrongSymbol { expected: Sym::DoubleRightArrow, got: y })
                    },
                    _ => MOut::Stop(Error::InvalidToken(ts[j])),
                }
            },
        }
    }
}

/// A recursion allowance that reads one term at `i` without running out:
/// every step of the grammar consumes a token before it recurs.
pub open spec fn term_fuel_ok(ts: Seq<Tok>, i: int, f: nat) -> bool {
    0 <= i <= ts.len() && f >= 2 * (ts.len() - i) + 1
}

/// The allowance sufficient for element or pair tails starting at `i`.
pub open spec fn tail_fuel_ok(ts: Seq<Tok>, i: int, f: nat) -> bool {
    0 <= i <= ts.len() && f >= 2 * (ts.len() - i) + 2
}

/// The canonical sufficient allowance at position `i`.
pub open spec fn fuel_for(ts: Seq<Tok>, i: int) -> nat {
    if 0 <= i <= ts.len() {
        (2 * (ts.len() - i) + 2) as nat
    } else {
        2
    }
}

/// The term read at position `i`, at the canonical allowance.
pub open spec fn sp_term_at(ts: Seq<Tok>, i: int) -> TOut {
    sp_term(ts, i, fuel_for(ts, i))
}

pub open spec fn sp_seq_tail_at(ts: Seq<Tok>, i: int, close: Sym) -> SOut {
    sp_seq_tail(ts, i, close, fuel_for(ts, i))
}

pub open spec fn sp_map_tail_at(ts: Seq<Tok>, i: int) -> MOut {
    sp_map_tail(ts, i, fuel_for(ts, i))
}

/// Any two sufficient allowances read the same term: the outcome never
/// runs short, and a term read with success ends past its first token
/// and within the stream.
pub proof fn lemma_term_fuel(ts: Seq<Tok>, i: int, f: nat, g: nat)
    requires
        term_fuel_ok(ts, i, f),
        term_fuel_ok(ts, i, g),
    ensures
        sp_term(ts, i, f) == sp_term(ts, i, g),
        !(sp_term(ts, i, f) is Short),
        sp_term(ts, i, f) matches TOut::Done { next, .. } ==> i < next <= ts.len(),
    decreases f,
{
    if i < ts.len() {
        match ts[i] {
            Tok::Punct(y) => match y {
                Sym::OpenSquare => {
                    if !(i + 1 < ts.len() && ts[i + 1] == Tok::Punct(Sym::CloseSquare)) {
                        lemma_seq_tail_fuel(ts, i + 1, Sym::CloseSquare, (f - 1) as nat,
                            (g - 1) as nat);
                    }
                },
                Sym::OpenBrace => {
                    if !(i + 1 < ts.len() && ts[i + 1] == Tok::Punct(Sym::CloseBrace)) {
                        lemma_seq_tail_fuel(ts, i + 1, Sym::CloseBrace, (f - 1) as nat,
                            (g - 1) as nat);
                    }
                },
                Sym::Sharp => {
                    if i + 1 < ts.len() && ts[i + 1] == Tok::Punct(Sym::OpenBrace)
                        && !(i + 2 < ts.len() && ts[i + 2] == Tok::Punct(Sym::CloseBrace)) {
                        lemma_map_tail_fuel(ts, i + 2, (f - 1) as nat, (g - 1) as nat);
                    }
                },
                _ => {},
            },
            _ => {},
        }
    }
}

pub proof fn lemma_seq_tail_fuel(ts: Seq<Tok>, i: int, close: Sym, f: nat, g: nat)
    requires
        tail_fuel_ok(ts, i, f),
        tail_fuel_ok(ts, i, g),
    ensures
        sp_seq_tail(ts, i, close, f) == sp_seq_tail(ts, i, close, g),
        !(sp_seq_tail(ts, i, close, f) is Short),
        sp_seq_tail(ts, i, close, f) matches SOut::Done { next, .. } ==> i < next <= ts.len(),
    decreases f,
{
    lemma_term_fuel(ts, i, (f - 1) as nat, (g - 1) as nat);
    match sp_term(ts, i, (f - 1) as nat) {
        TOut::Done { v, next } => {
            if 0 <= next < ts.len() {
                match ts[next] {
                    Tok::Punct(y) => {
                        if y == Sym::Comma {
                            lemma_seq_tail_fuel(ts, next + 1, close, (f - 1) as nat,
                                (g - 1) as nat);
                        }
                    },
                    _ => {},
                }
            }
        },
        _ => {},
    }
}

pub proof fn lemma_map_tail_fuel(ts: Seq<Tok>, i: int, f: nat, g: nat)
    requires
        tail_fuel_ok(ts, i, f),
        tail_fuel_ok(ts, i, g),
    ensures
        sp_map_tail(ts, i, f) == sp_map_tail(ts, i, g),
        !(sp_map_tail(ts, i, f) is Short),
        sp_map_tail(ts, i, f) matches MOut::Done { next, .. } ==> i < next <= ts.len(),
    decreases f,
{
    lemma_term_fuel(ts, i, (f - 1) as nat, (g - 1) as nat);
    match sp_term(ts, i, (f - 1) as nat) {
        TOut::Done { v: k, next: j } => {
            if 0 <= j < ts.len() {
                match ts[j] {
                    Tok::Punct(y) => {
                        if y == Sym::DoubleRightArrow {
                            lemma_term_fuel(ts, j + 1, (f - 1) as nat, (g - 1) as nat);
                            match sp_term(ts, j + 1, (f - 1) as nat) {
                                TOut::Done { v: w, next: m } => {
                                    if 0 <= m < ts.len() {
                                        match ts[m] {
                                            Tok::Punct(y2) => {
                                                if y2 == Sym::Comma {
                                                    lemma_map_tail_fuel(ts, m + 1, (f - 1) as nat,
                                                        (g - 1) as nat);
                                                }
                                            },
                                            _ => {},
                                        }
                                    }
                                },
                                _ => {},
                            }
                        }
                    },
                    _ => {},
                }
            }
        },
        _ => {},
    }
}

/// Any sufficient allowance reads the canonical term.
pub proof fn lemma_term_at(ts: Seq<Tok>, i: int, f: nat)
    requires
        term_fuel_ok(ts, i, f),
    ensures
        sp_term(ts, i, f) == sp_term_at(ts, i),
        !(sp_term_at(ts, i) is Short),
        sp_term_at(ts, i) matches TOut::Done { next, .. } ==> i < next <= ts.len(),
{
    lemma_term_fuel(ts, i, f, fuel_for(ts, i));
}

pub proof fn lemma_seq_tail_at(ts: Seq<Tok>, i: int, close: Sym, f: nat)
    requires
        tail_fuel_ok(ts, i, f),
    ensures
        sp_seq_tail(ts, i, close, f) == sp_seq_tail_at(ts, i, close),
        !(sp_seq_tail_at(ts, i, close) is Short),
        sp_seq_tail_at(ts, i, close) matches SOut::Done { next, .. } ==> i < next <= ts.len(),
{
    lemma_seq_tail_fuel(ts, i, close, f, fuel_for(ts, i));
}

pub proof fn lemma_map_tail_at(ts: Seq<Tok>, i: int, f: nat)
    requires
        tail_fuel_ok(ts, i, f),
    ensures
        sp_map_tail(ts, i, f) == sp_map_tail_at(ts, i),
        !(sp_map_tail_at(ts, i) is Short),
        sp_map_tail_at(ts, i) matches MOut::Done { next, .. } ==> i < next <= ts.len(),
{
    lemma_map_tail_fuel(ts, i, f, fuel_for(ts, i));
}

/// Reads the forms of a whole source, each closed by a period, from
/// position `i`: the mathematical definition of consulting a text.
/// An exhausted stream yields the empty sequence. The bound `after`
/// is clamped only to keep the definition total; a term read with
/// success always ends past its first token and within the stream
/// (`lemma_term_at`), so the clamp never moves it.
pub open spec fn sp_consult(ts: Seq<Tok>, i: int) -> Result<Seq<TermV>, Error>
    decreases ts.len() - i
        when 0 <= i <= ts.len()
{
    if i >= ts.len() {
        Ok(Seq::empty())
    } else {
        match sp_term_at(ts, i) {
            TOut::Done { v, next } => if !(0 <= next < ts.len()) {
                Err(Error::EndOfInput)
            } else {
                match ts[next] {
                    Tok::Punct(y) => if y == Sym::Dot {
                        let after = if next + 1 <= i {
                            i + 1
                        } else if next + 1 > ts.len() {
                            ts.len() as int
                        } else {
                            next + 1
                        };
                        match sp_consult(ts, after) {
                            Ok(vs) => Ok(seq![v] + vs),
                            Err(e) => Err(e),
                        }
                    } else {
                        Err(Error::WrongSymbol { expected: Sym::Dot, got: y })
                    },
                    _ => Err(Error::InvalidToken(ts[next])),
                }
            },
            TOut::Stop(e) => Err(e),
            TOut::Short => Err(Error::EndOfInput),
        }
    }
}

/// Prepends already-read elements to a tail outcome.
pub open spec fn s_combine(acc: Seq<TermV>, o: SOut) -> SOut {
    match o {
        SOut::Done { vs, next } => SOut::Done { vs: acc + vs, next },
        _ => o,
    }
}

/// Prepends already-read pairs to a tail outcome.
pub open spec fn m_combine(acc: Seq<(TermV, TermV)>, o: MOut) -> MOut {
    match o {
        MOut::Done { ps, next } => MOut::Done { ps: acc + ps, next },
        _ => o,
    }
}

/// A failed element read fails the whole tail with the same error.
pub proof fn lemma_seq_tail_err(ts: Seq<Tok>, i: int, close: Sym, e: Error)
    requires
        0 <= i <= ts.len(),
        sp_term_at(ts, i) == TOut::Stop(e),
    ensures
        sp_seq_tail_at(ts, i, close) == SOut::Stop(e),
{
    let f = fuel_for(ts, i);
    lemma_term_at(ts, i, (f - 1) as nat);
}

/// One step of a list or tuple tail: the element read at `i`, then the
/// separator decision at `j`.
pub proof fn lemma_seq_tail_step(ts: Seq<Tok>, i: int, close: Sym, v: TermV, j: int)
    requires
        0 <= i <= ts.len(),
        sp_term_at(ts, i) == (TOut::Done { v, next: j }),
    ensures
        !(0 <= j < ts.len()) ==> sp_seq_tail_at(ts, i, close) == SOut::Stop(Error::EndOfInput),
        0 <= j < ts.len() ==> match ts[j] {
            Tok::Punct(y) => if y == Sym::Comma {
                sp_seq_tail_at(ts, i, close) == s_combine(seq![v], sp_seq_tail_at(ts, j + 1, close))
            } else if y == close {
                sp_seq_tail_at(ts, i, close) == (SOut::Done { vs: seq![v], next: j + 1 })
            } else {
                sp_seq_tail_at(ts, i, close) == SOut::Stop(Error::WrongSymbol {
                    expected: close,
                    got: y,
                })
            },
            _ => sp_seq_tail_at(ts, i, close) == SOut::Stop(Error::InvalidToken(ts[j])),
        },
{
    let f = fuel_for(ts, i);
    lemma_term_at(ts, i, (f - 1) as nat);
    if 0 <= j < ts.len() {
        match ts[j] {
            Tok::Punct(y) => {
                if y == Sym::Comma {
                    lemma_seq_tail_at(ts, j + 1, close, (f - 1) as nat);
                }
            },
            _ => {},
        }
    }
}

/// A failed key read fails the whole map tail with the same error.
pub proof fn lemma_map_tail_err(ts: Seq<Tok>, i: int, e: Error)
    requires
        0 <= i <= ts.len(),
        sp_term_at(ts, i) == TOut::Stop(e),
    ensures
        sp_map_tail_at(ts, i) == MOut::Stop(e),
{
    let f = fuel_for(ts, i);
    lemma_term_at(ts, i, (f - 1) as nat);
}

/// The arrow decision of a map tail, after the key read at `i`.
pub proof fn lemma_map_tail_key(ts: Seq<Tok>, i: int, k: TermV, j: int)
    requires
        0 <= i <= ts.len(),
        sp_term_at(ts, i) == (TOut::Done { v: k, next: j }),
    ensures
        !(0 <= j < ts.len()) ==> sp_map_tail_at(ts, i) == MOut::Stop(Error::EndOfInput),
        0 <= j < ts.len() ==> match ts[j] {
            Tok::Punct(y) => y != Sym::DoubleRightArrow
                ==> sp_map_tail_at(ts, i) == MOut::Stop(Error::WrongSymbol {
                    expected: Sym::DoubleRightArrow,
                    got: y,
                }),
            _ => sp_map_tail_at(ts, i) == MOut::Stop(Error::InvalidToken(ts[j])),
        },
{
    let f = fuel_for(ts, i);
    lemma_term_at(ts, i, (f - 1) as nat);
}

/// A failed value read fails the whole map tail with the same error.
pub proof fn lemma_map_tail_val_err(ts: Seq<Tok>, i: int, k: TermV, j: int, e: Error)
    requires
        0 <= i <= ts.len(),
        sp_term_at(ts, i) == (TOut::Done { v: k, next: j }),
        0 <= j < ts.len(),
        ts[j] == Tok::Punct(Sym::DoubleRightArrow),
        sp_term_at(ts, j + 1) == TOut::Stop(e),
    ensures
        sp_map_tail_at(ts, i) == MOut::Stop(e),
{
    let f = fuel_for(ts, i);
    lemma_term_at(ts, i, (f - 1) as nat);
    lemma_term_at(ts, j + 1, (f - 1) as nat);
}

/// One step of a map tail: key at `i`, arrow at `j`, value at `j + 1`,
/// then the separator decision at `m`.
pub proof fn lemma_map_tail_step(ts: Seq<Tok>, i: int, k: TermV, j: int, w: TermV, m: int)
    requires
        0 <= i <= ts.len(),
        sp_term_at(ts, i) == (TOut::Done { v: k, next: j }),
        0 <= j < ts.len(),
        ts[j] == Tok::Punct(Sym::DoubleRightArrow),
        sp_term_at(ts, j + 1) == (TOut::Done { v: w, next: m }),
    ensures
        !(0 <= m < ts.len()) ==> sp_map_tail_at(ts, i) == MOut::Stop(Error::EndOfInput),
        0 <= m < ts.len() ==> match ts[m] {
            Tok::Punct(y) => if y == Sym::Comma {
                sp_map_tail_at(ts, i) == m_combine(seq![(k, w)], sp_map_tail_at(ts, m + 1))
            } else if y == Sym::CloseBrace {
                sp_map_tail_at(ts, i) == (MOut::Done { ps: seq![(k, w)], next: m + 1 })
            } else {
                sp_map_tail_at(ts, i) == MOut::Stop(Error::WrongSymbol {
                    expected: Sym::CloseBrace,
                    got: y,
                })
            },
            _ => sp_map_tail_at(ts, i) == MOut::Stop(Error::InvalidToken(ts[m])),
        },
{
    let f = fuel_for(ts, i);
    lemma_term_at(ts, i, (f - 1) as nat);
    lemma_term_at(ts, j + 1, (f - 1) as nat);
    if 0 <= m < ts.len() {
        match ts[m] {
            Tok::Punct(y) => {
                if y == Sym::Comma {
                    lemma_map_tail_at(ts, m + 1, (f - 1) as nat);
                }
            },
            _ => {},
        }
    }
}

/// A non-empty list or tuple term is its element tail, wrapped.
pub proof fn lemma_term_seq_open(ts: Seq<Tok>, i: int)
    requires
        0 <= i < ts.len(),
        ts[i] == Tok::Punct(Sym::OpenSquare) || ts[i] == Tok::Punct(Sym::OpenBrace),
    ensures
        ts[i] == Tok::Punct(Sym::OpenSquare)
            && !(i + 1 < ts.len() && ts[i + 1] == Tok::Punct(Sym::CloseSquare))
            ==> sp_term_at(ts, i) == (match sp_seq_tail_at(ts, i + 1, Sym::CloseSquare) {
                SOut::Done { vs, next } => TOut::Done { v: TermV::Lst(vs), next },
                SOut::Stop(e) => TOut::Stop(e),
                SOut::Short => TOut::Short,
            }),
        ts[i] == Tok::Punct(Sym::OpenBrace)
            && !(i + 1 < ts.len() && ts[i + 1] == Tok::Punct(Sym::CloseBrace))
            ==> sp_term_at(ts, i) == (match sp_seq_tail_at(ts, i + 1, Sym::CloseBrace) {
                SOut::Done { vs, next } => TOut::Done { v: TermV::Tup(vs), next },
                SOut::Stop(e) => TOut::Stop(e),
                SOut::Short => TOut::Short,
            }),
{
    let f = fuel_for(ts, i);
    if !(i + 1 < ts.len() && ts[i + 1] == Tok::Punct(Sym::CloseSquare)) {
        lemma_seq_tail_at(ts, i + 1, Sym::CloseSquare, (f - 1) as nat);
    }
    if !(i + 1 < ts.len() && ts[i + 1] == Tok::Punct(Sym::CloseBrace)) {
        lemma_seq_tail_at(ts, i + 1, Sym::CloseBrace, (f - 1) as nat);
    }
}

/// A non-empty map term is its pair tail, wrapped.
pub proof fn lemma_term_map_open(ts: Seq<Tok>, i: int)
    requires
        0 <= i < ts.len(),
        ts[i] == Tok::Punct(Sym::Sharp),
        i + 1 < ts.len(),
        ts[i + 1] == Tok::Punct(Sym::OpenBrace),
        !(i + 2 < ts.len() && ts[i + 2] == Tok::Punct(Sym::CloseBrace)),
    ensures
        sp_term_at(ts, i) == (match sp_map_tail_at(ts, i + 2) {
            MOut::Done { ps, next } => TOut::Done { v: TermV::Mp(ps), next },
            MOut::Stop(e) => TOut::Stop(e),
            MOut::Short => TOut::Short,
        }),
{
    let f = fuel_for(ts, i);
    lemma_map_tail_at(ts, i + 2, (f - 1) as nat);
}

/// A quoted string literal is one token and parses to a list of
/// exactly as many Integer terms as it has characters, each the code
/// point of the corresponding character, in order.
pub proof fn lemma_string_literal(ts: Seq<Tok>, i: int, s: String)
    requires
        0 <= i < ts.len(),
        ts[i] == Tok::Str(s),
    ensures
        sp_term_at(ts, i) == (TOut::Done { v: TermV::Lst(string_codes(s@)), next: i + 1 }),
        string_codes(s@).len() == s@.len(),
        forall|k: int| 0 <= k < s@.len()
            ==> string_codes(s@)[k] == TermV::Int(#[trigger] s@[k] as u32 as int),
{
}

/// An integer literal exceeding the 64-bit signed range fails with the
/// range error; no term is ever produced for it.
pub proof fn lemma_integer_overflow(ts: Seq<Tok>, i: int)
    requires
        0 <= i < ts.len(),
        ts[i] == Tok::Integer(Option::None),
    ensures
        sp_term_at(ts, i) == TOut::Stop(Error::InvalidInteger),
{
}

/// Inside a list or tuple, a symbol after an element that is neither
/// the separating comma nor the matching close fails with a syntax
/// error naming the expected closing symbol and the symbol found.
pub proof fn lemma_wrong_close(ts: Seq<Tok>, i: int, close: Sym, v: TermV, j: int, got: Sym)
    requires
        0 <= i <= ts.len(),
        sp_term_at(ts, i) == (TOut::Done { v, next: j }),
        0 <= j < ts.len(),
        ts[j] == Tok::Punct(got),
        got != Sym::Comma,
        got != close,
    ensures
        sp_seq_tail_at(ts, i, close) == SOut::Stop(Error::WrongSymbol { expected: close, got }),
{
    lemma_seq_tail_step(ts, i, close, v, j);
}

/// Every atomic literal parses to the matching term, consuming exactly
/// its tokens: an atom to an Atom, a character to its code point, a
/// float to a Float, an in-range integer to an Integer, the empty
/// collection forms to empty containers, and a binary literal to a
/// Binary of its text. Together with `lemma_string_literal`,
/// `lemma_term_seq_open`, `lemma_term_map_open` and the tail-step
/// lemmas, this characterizes the grammar production by production.
pub proof fn lemma_atomic_terms(ts: Seq<Tok>, i: int)
    requires
        0 <= i < ts.len(),
    ensures
        ts[i] matches Tok::Atom(a)
            ==> sp_term_at(ts, i) == (TOut::Done { v: TermV::Atm(a@), next: i + 1 }),
        ts[i] matches Tok::Char(c)
            ==> sp_term_at(ts, i) == (TOut::Done { v: TermV::Int(c as u32 as int), next: i + 1 }),
        ts[i] matches Tok::Float(b)
            ==> sp_term_at(ts, i) == (TOut::Done { v: TermV::Flt(b), next: i + 1 }),
        ts[i] matches Tok::Integer(Some(x))
            ==> sp_term_at(ts, i) == (TOut::Done { v: TermV::Int(x as int), next: i + 1 }),
        ts[i] == Tok::Punct(Sym::OpenSquare) && i + 1 < ts.len()
            && ts[i + 1] == Tok::Punct(Sym::CloseSquare)
            ==> sp_term_at(ts, i) == (TOut::Done { v: TermV::Lst(Seq::empty()), next: i + 2 }),
        ts[i] == Tok::Punct(Sym::OpenBrace) && i + 1 < ts.len()
            && ts[i + 1] == Tok::Punct(Sym::CloseBrace)
            ==> sp_term_at(ts, i) == (TOut::Done { v: TermV::Tup(Seq::empty()), next: i + 2 }),
        ts[i] == Tok::Punct(Sym::Sharp) && i + 2 < ts.len()
            && ts[i + 1] == Tok::Punct(Sym::OpenBrace)
            && ts[i + 2] == Tok::Punct(Sym::CloseBrace)
            ==> sp_term_at(ts, i) == (TOut::Done { v: TermV::Mp(Seq::empty()), next: i + 3 }),
        ts[i + 1] matches Tok::Str(s) ==> ((ts[i] == Tok::Punct(Sym::DoubleLeftAngle)
            && i + 2 < ts.len() && ts[i + 2] == Tok::Punct(Sym::DoubleRightAngle))
            ==> sp_term_at(ts, i) == (TOut::Done { v: TermV::Bin(s@), next: i + 3 })),
        ts[i] == Tok::Punct(Sym::DoubleLeftAngle) && i + 1 < ts.len()
            && ts[i + 1] == Tok::Punct(Sym::DoubleRightAngle)
            ==> sp_term_at(ts, i) == (TOut::Done { v: TermV::Bin(Seq::empty()), next: i + 2 }),
{
}

/// Each period-closed form contributes exactly one value to a consult,
/// in source order: the forms of the whole text are the form just read
/// followed by the forms after its period.
pub proof fn lemma_consult_step(ts: Seq<Tok>, i: int, v: TermV, j: int)
    requires
        0 <= i < ts.len(),
        sp_term_at(ts, i) == (TOut::Done { v, next: j }),
        0 <= j < ts.len(),
        ts[j] == Tok::Punct(Sym::Dot),
    ensures
        sp_consult(ts, i) == (match sp_consult(ts, j + 1) {
            Result::Ok(vs) => Ok::<Seq<TermV>, Error>(seq![v] + vs),
            Result::Err(e) => Err::<Seq<TermV>, Error>(e),
        }),
{
    lemma_term_at(ts, i, fuel_for(ts, i));
}

} // verus!
