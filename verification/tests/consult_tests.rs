use hex_ingest::consult::{Error, consult};
use hex_ingest::term::Value;
use hex_ingest::token::Sym;

#[test]
fn test_empty() {
    consult("[].").unwrap();
    consult("#{}.").unwrap();
    consult("{}.").unwrap();
    consult("<<>>.").unwrap();
}

#[test]
fn test_consult() {
    let res = consult(
        r#"
        {<<"app">>,<<"katana_code">>}.
        {<<"build_tools">>,[<<"rebar3">>]}.
        {<<"description">>,<<"Functions useful for processing Erlang code.">>}.
        {<<"files">>,
           [<<"LICENSE">>,<<"README.md">>,<<"rebar.config">>,<<"rebar.lock">>,
            <<"src/katana_code.app.src">>,<<"src/ktn_code.erl">>,
            <<"src/ktn_dodger.erl">>,<<"src/ktn_io_string.erl">>]}.
        {<<"licenses">>,[<<"Apache 2.0">>]}.
        {<<"links">>,[{<<"Github">>,<<"https://github.com/inaka/katana-code">>}]}.
        {<<"name">>,<<"katana_code">>}.
        {<<"requirements">>,[]}.
        {<<"version">>,<<"0.2.1">>}.
    "#,
    );

    res.unwrap();
}

#[test]
fn empty_collections_parse_to_empty_containers() {
    let forms = consult("[].").unwrap();
    assert_eq!(forms.len(), 1);
    assert!(matches!(&forms[0], Value::List(v) if v.is_empty()));

    let forms = consult("{}.").unwrap();
    assert!(matches!(&forms[0], Value::Tuple(v) if v.is_empty()));

    let forms = consult("#{}.").unwrap();
    assert!(matches!(&forms[0], Value::Mapping(v) if v.is_empty()));

    let forms = consult("<<>>.").unwrap();
    assert!(matches!(&forms[0], Value::Binary(s) if s.is_empty()));
}

#[test]
fn string_literal_is_list_of_code_points() {
    let forms = consult("\"abc\".").unwrap();
    assert_eq!(forms.len(), 1);
    match &forms[0] {
        Value::List(elems) => {
            assert_eq!(elems.len(), 3);
            let expected = [97i64, 98, 99];
            for (e, want) in elems.iter().zip(expected.iter()) {
                assert!(matches!(e, Value::Integer(n) if n == want));
            }
        }
        other => panic!("expected a list, got {:?}", other),
    }
}

#[test]
fn map_preserves_pair_order_and_duplicates() {
    let forms = consult("#{a => 1, b => 2, a => 3}.").unwrap();
    match &forms[0] {
        Value::Mapping(pairs) => {
            assert_eq!(pairs.len(), 3);
            assert!(matches!(&pairs[0].0, Value::Atom(s) if s == "a"));
            assert!(matches!(&pairs[0].1, Value::Integer(1)));
            assert!(matches!(&pairs[1].0, Value::Atom(s) if s == "b"));
            assert!(matches!(&pairs[1].1, Value::Integer(2)));
            assert!(matches!(&pairs[2].0, Value::Atom(s) if s == "a"));
            assert!(matches!(&pairs[2].1, Value::Integer(3)));
        }
        other => panic!("expected a map, got {:?}", other),
    }
}

#[test]
fn wrong_close_names_expected_symbol() {
    let err = consult("[1,2}.").unwrap_err();
    assert!(matches!(
        err,
        Error::WrongSymbol { expected: Sym::CloseSquare, got: Sym::CloseBrace }
    ));

    let err = consult("{1,2].").unwrap_err();
    assert!(matches!(
        err,
        Error::WrongSymbol { expected: Sym::CloseBrace, got: Sym::CloseSquare }
    ));
}

#[test]
fn oversized_integer_is_a_range_error() {
    let err = consult("99999999999999999999999999.").unwrap_err();
    assert!(matches!(err, Error::InvalidInteger));

    // Just past the 64-bit signed range, though still within unsigned range.
    let err = consult("9223372036854775808.").unwrap_err();
    assert!(matches!(err, Error::InvalidInteger));

    // The largest value in range still parses.
    let forms = consult("9223372036854775807.").unwrap();
    assert!(matches!(&forms[0], Value::Integer(9223372036854775807)));
}

#[test]
fn scalars_parse() {
    let forms = consult("foo.").unwrap();
    assert!(matches!(&forms[0], Value::Atom(s) if s == "foo"));

    let forms = consult("$a.").unwrap();
    assert!(matches!(&forms[0], Value::Integer(97)));

    let forms = consult("42.").unwrap();
    assert!(matches!(&forms[0], Value::Integer(42)));

    let forms = consult("1.5.").unwrap();
    match &forms[0] {
        Value::Float(bits) => assert_eq!(*bits, 1.5f64.to_bits()),
        other => panic!("expected a float, got {:?}", other),
    }
}

#[test]
fn comments_and_whitespace_are_insignificant() {
    let forms = consult("% a comment\n  foo . % trailing\n").unwrap();
    assert_eq!(forms.len(), 1);
    assert!(matches!(&forms[0], Value::Atom(s) if s == "foo"));
}

#[test]
fn nested_structures_parse() {
    let forms = consult("{a,[1,2],<<\"x\">>,[[]],#{[] => {}}}.").unwrap();
    match &forms[0] {
        Value::Tuple(items) => {
            assert_eq!(items.len(), 5);
            assert!(matches!(&items[0], Value::Atom(s) if s == "a"));
            match &items[1] {
                Value::List(v) => {
                    assert_eq!(v.len(), 2);
                    assert!(matches!(&v[0], Value::Integer(1)));
                    assert!(matches!(&v[1], Value::Integer(2)));
                }
                other => panic!("expected a list, got {:?}", other),
            }
            assert!(matches!(&items[2], Value::Binary(s) if s == "x"));
            assert!(matches!(&items[3], Value::List(v) if v.len() == 1));
            assert!(matches!(&items[4], Value::Mapping(ps) if ps.len() == 1));
        }
        other => panic!("expected a tuple, got {:?}", other),
    }
}

#[test]
fn empty_input_yields_no_forms() {
    let forms = consult("").unwrap();
    assert!(forms.is_empty());
    let forms = consult("   % only a comment\n").unwrap();
    assert!(forms.is_empty());
}

#[test]
fn missing_terminator_is_an_error() {
    let err = consult("foo").unwrap_err();
    assert!(matches!(err, Error::EndOfInput));

    let err = consult("foo bar.").unwrap_err();
    assert!(matches!(err, Error::InvalidToken(_)));
}

#[test]
fn keywords_and_variables_are_invalid_tokens() {
    let err = consult("case.").unwrap_err();
    assert!(matches!(err, Error::InvalidToken(_)));

    let err = consult("Var.").unwrap_err();
    assert!(matches!(err, Error::InvalidToken(_)));
}

#[test]
fn two_record_scenario() {
    let forms = consult("{<<\"name\">>,<<\"demo\">>}.\n{<<\"version\">>,<<\"1.0.0\">>}.").unwrap();
    assert_eq!(forms.len(), 2);
    match &forms[0] {
        Value::Tuple(items) => {
            assert_eq!(items.len(), 2);
            assert!(matches!(&items[0], Value::Binary(s) if s == "name"));
            assert!(matches!(&items[1], Value::Binary(s) if s == "demo"));
        }
        other => panic!("expected a tuple, got {:?}", other),
    }
    match &forms[1] {
        Value::Tuple(items) => {
            assert_eq!(items.len(), 2);
            assert!(matches!(&items[0], Value::Binary(s) if s == "version"));
            assert!(matches!(&items[1], Value::Binary(s) if s == "1.0.0"));
        }
        other => panic!("expected a tuple, got {:?}", other),
    }
}

#[test]
fn map_without_arrow_is_rejected() {
    let err = consult("#{a, 1}.").unwrap_err();
    assert!(matches!(
        err,
        Error::WrongSymbol { expected: Sym::DoubleRightArrow, got: Sym::Comma }
    ));
}

#[test]
fn sharp_without_brace_is_rejected() {
    let err = consult("#[].").unwrap_err();
    assert!(matches!(
        err,
        Error::WrongSymbol { expected: Sym::OpenBrace, got: Sym::OpenSquare }
    ));
}

#[test]
fn binary_must_close_with_double_angle() {
    let err = consult("<<\"x\">.").unwrap_err();
    assert!(matches!(
        err,
        Error::WrongSymbol { expected: Sym::DoubleRightAngle, got: Sym::Other(_) }
    ));

    let err = consult("<<1>>.").unwrap_err();
    assert!(matches!(err, Error::InvalidToken(_)));
}

#[test]
fn stray_symbol_is_an_invalid_token() {
    let err = consult("+.").unwrap_err();
    assert!(matches!(err, Error::InvalidToken(_)));
}

#[test]
fn deep_nesting_parses() {
    let src = "[[[[[[[[[[[[[[[[[[[[1]]]]]]]]]]]]]]]]]]]].";
    let forms = consult(src).unwrap();
    let mut v = &forms[0];
    let mut depth = 0;
    loop {
        match v {
            Value::List(items) => {
                assert_eq!(items.len(), 1);
                depth += 1;
                v = &items[0];
            }
            Value::Integer(1) => break,
            other => panic!("unexpected value {:?}", other),
        }
    }
    assert_eq!(depth, 20);
}
