use vstd::prelude::*;

verus! {

/// Mathematical model of a term value: the same tree, over `int`,
/// sequences of characters, and sequences of terms.
pub enum TermV {
    Int(int),
    Flt(u64),
    Atm(Seq<char>),
    Bin(Seq<char>),
    Tup(Seq<TermV>),
    Lst(Seq<TermV>),
    Mp(Seq<(TermV, TermV)>),
}

/// A term value: the closed, recursive union of everything the term
/// grammar can denote. A quoted character string is a `List` of the
/// `Integer` code points of its characters; a float is carried as its
/// IEEE-754 bit pattern, since its numeric reading plays no part in the
/// grammar. A map is an ordered association list: keys are unbounded
/// recursive terms, so duplicates are preserved as given.
#[derive(Debug)]
pub enum Value {
    Integer(i64),
    Float(u64),
    Atom(String),
    Binary(String),
    Tuple(Vec<Value>),
    List(Vec<Value>),
    Mapping(Vec<(Value, Value)>),
}

pub open spec fn view_term(v: Value) -> TermV
    decreases v,
{
    match v {
        Value::Integer(n) => TermV::Int(n as int),
        Value::Float(b) => TermV::Flt(b),
        Value::Atom(a) => TermV::Atm(a@),
        Value::Binary(b) => TermV::Bin(b@),
        Value::Tuple(vs) => TermV::Tup(view_terms(vs@)),
        Value::List(vs) => TermV::Lst(view_terms(vs@)),
        Value::Mapping(ps) => TermV::Mp(view_pairs(ps@)),
    }
}

pub open spec fn view_terms(s: Seq<Value>) -> Seq<TermV>
    decreases s,
{
    if s.len() == 0 {
        Seq::empty()
    } else {
        seq![view_term(s[0])] + view_terms(s.subrange(1, s.len() as int))
    }
}

pub open spec fn view_pairs(s: Seq<(Value, Value)>) -> Seq<(TermV, TermV)>
    decreases s,
{
    if s.len() == 0 {
        Seq::empty()
    } else {
        seq![(view_term(s[0].0), view_term(s[0].1))] + view_pairs(s.subrange(1, s.len() as int))
    }
}

impl View for Value {
    type V = TermV;

    open spec fn view(&self) -> TermV {
        view_term(*self)
    }
}

/// Appending one value on the right appends its view on the right.
pub proof fn lemma_view_terms_push(s: Seq<Value>, v: Value)
    ensures
        view_terms(s.push(v)) == view_terms(s).push(view_term(v)),
    decreases s.len(),
{
    if s.len() == 0 {
        reveal_with_fuel(view_terms, 2);
        assert(s.push(v)[0] == v);
        assert(s.push(v).subrange(1, s.push(v).len() as int) =~= Seq::<Value>::empty());
        assert(view_terms(s.push(v)) =~= view_terms(s).push(view_term(v)));
    } else {
        let rest = s.subrange(1, s.len() as int);
        lemma_view_terms_push(rest, v);
        assert(s.push(v)[0] == s[0]);
        assert(s.push(v).subrange(1, s.push(v).len() as int) =~= rest.push(v));
        assert(view_terms(s.push(v)) == seq![view_term(s[0])] + view_terms(rest).push(view_term(v)));
        assert(seq![view_term(s[0])] + view_terms(rest).push(view_term(v))
            =~= (seq![view_term(s[0])] + view_terms(rest)).push(view_term(v)));
    }
}

pub proof fn lemma_view_pairs_push(s: Seq<(Value, Value)>, p: (Value, Value))
    ensures
        view_pairs(s.push(p)) == view_pairs(s).push((view_term(p.0), view_term(p.1))),
    decreases s.len(),
{
    if s.len() == 0 {
        reveal_with_fuel(view_pairs, 2);
        assert(s.push(p)[0] == p);
        assert(s.push(p).subrange(1, s.push(p).len() as int) =~= Seq::<(Value, Value)>::empty());
        assert(view_pairs(s.push(p)) =~= view_pairs(s).push((view_term(p.0), view_term(p.1))));
    } else {
        let rest = s.subrange(1, s.len() as int);
        lemma_view_pairs_push(rest, p);
        assert(s.push(p)[0] == s[0]);
        assert(s.push(p).subrange(1, s.push(p).len() as int) =~= rest.push(p));
        assert(view_pairs(s.push(p))
            == seq![(view_term(s[0].0), view_term(s[0].1))]
                + view_pairs(rest).push((view_term(p.0), view_term(p.1))));
        assert(seq![(view_term(s[0].0), view_term(s[0].1))]
                + view_pairs(rest).push((view_term(p.0), view_term(p.1)))
            =~= (seq![(view_term(s[0].0), view_term(s[0].1))] + view_pairs(rest))
                .push((view_term(p.0), view_term(p.1))));
    }
}

} // verus!
