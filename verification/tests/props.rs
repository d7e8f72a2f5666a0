use rule::rule::Rule;
use rule::error::Error;

fn pstr(s: &str) -> serde_json::Value {
    serde_json::Value::String(s.to_string())
}

fn pint(i: i64) -> serde_json::Value {
    serde_json::Value::Number(serde_json::Number::from(i))
}

fn pfloat(f: f64) -> serde_json::Value {
    serde_json::Value::Number(serde_json::Number::from_f64(f).unwrap())
}

fn pbool(b: bool) -> serde_json::Value {
    serde_json::Value::Bool(b)
}

fn parr(items: Vec<serde_json::Value>) -> serde_json::Value {
    serde_json::Value::Array(items)
}

fn pobj(pairs: Vec<(&str, serde_json::Value)>) -> serde_json::Value {
    let mut m = serde_json::Map::new();
    for (k, v) in pairs {
        m.insert(k.to_string(), v);
    }
    serde_json::Value::Object(m)
}

fn empty_ctx() -> serde_json::Value {
    pobj(vec![])
}

#[test]
fn construction_rejects_non_array() {
    let r = Rule::new(pstr("just a string"));
    assert!(matches!(r, Err(Error::ExprIsNotArrayError)));
    let r2 = Rule::new(pobj(vec![("a", pint(1))]));
    assert!(matches!(r2, Err(Error::ExprIsNotArrayError)));
}

#[test]
fn construction_rejects_non_string_operator() {
    let r = Rule::new(parr(vec![pint(7), pint(1)]));
    assert!(matches!(r, Err(Error::ExprOpIsNotStringError)));
}

#[test]
fn construction_rejects_unknown_operator() {
    let r = Rule::new(parr(vec![pstr("frobnicate"), pint(1)]));
    assert!(matches!(r, Err(Error::NoSuchOpError)));
}

#[test]
fn construction_rejects_empty_expression() {
    let r = Rule::new(parr(vec![]));
    assert!(matches!(r, Err(Error::EmptyExprError)));
}

#[test]
fn construction_rejects_bad_text() {
    let r = Rule::from_str("this is not json");
    assert!(matches!(r, Err(Error::JsonError(_))));
}

#[test]
fn chained_comparison() {
    let ctx = empty_ctx();
    assert!(Rule::new(parr(vec![pstr("<"), pint(1), pint(2), pint(3)])).unwrap().matches(
        &ctx,
    ).unwrap());
    assert_eq!(
        Rule::new(parr(vec![pstr("<"), pint(1), pint(3), pint(2)])).unwrap().matches(
            &ctx,
        ).unwrap(),
        false
    );
    assert!(Rule::new(parr(vec![pstr("="), pstr("a"), pstr("a"), pstr("a")])).unwrap().matches(
        &ctx,
    ).unwrap());
    assert_eq!(
        Rule::new(parr(vec![pstr("="), pint(1), pint(1), pint(2)])).unwrap().matches(
            &ctx,
        ).unwrap(),
        false
    );
}

#[test]
fn implicit_and_explicit_var_agree() {
    let ctx = pobj(vec![("a", pint(1)), ("world", pstr("hello"))]);
    let bare = Rule::new(parr(vec![pstr("="), pstr("a"), pint(1)])).unwrap();
    let wrapped = Rule::new(parr(vec![
        pstr("="),
        parr(vec![pstr("var"), pstr("a")]),
        pint(1),
    ])).unwrap();
    assert!(bare.matches(&ctx).unwrap());
    assert!(wrapped.matches(&ctx).unwrap());
    assert_eq!(bare.matches(&ctx).unwrap(), wrapped.matches(&ctx).unwrap());
}

#[test]
fn var_is_strict_but_implicit_is_not() {
    let ctx = pobj(vec![("a", pint(1))]);
    let strict = Rule::new(parr(vec![
        pstr("="),
        parr(vec![pstr("var"), pstr("missing")]),
        pint(1),
    ])).unwrap();
    assert!(matches!(strict.matches(&ctx), Err(Error::ContextNoSuchVarError)));
    let lenient = Rule::new(parr(vec![pstr("="), pstr("missing"), pint(1)])).unwrap();
    assert_eq!(lenient.matches(&ctx).unwrap(), false);
}

#[test]
fn var_argument_must_be_string() {
    let ctx = pobj(vec![("a", pint(1))]);
    let r = Rule::new(parr(vec![pstr("="), parr(vec![pstr("var"), pint(3)]), pint(1)])).unwrap();
    assert!(matches!(r.matches(&ctx), Err(Error::ExprVarArgNotStringError)));
}

#[test]
fn context_must_be_object() {
    let r = Rule::new(parr(vec![pstr("="), pint(1), pint(1)])).unwrap();
    assert!(matches!(r.matches(&pstr("nope")), Err(Error::ContextNotDictError)));
    assert!(matches!(r.matches(&pint(3)), Err(Error::ContextNotDictError)));
}

#[test]
fn verdict_must_be_boolean() {
    let r = Rule::new(parr(vec![pstr("+"), pint(1), pint(2)])).unwrap();
    assert!(matches!(r.matches(&empty_ctx()), Err(Error::FinalResultNotBoolError)));
}

#[test]
fn arithmetic_coercion_round_trip() {
    let ctx = pobj(vec![("a", pint(1))]);
    assert!(Rule::new(parr(vec![
        pstr("="),
        parr(vec![pstr("+"), pstr("a"), pint(100)]),
        pint(101),
    ])).unwrap().matches(&ctx).unwrap());
    assert!(Rule::new(parr(vec![
        pstr("="),
        parr(vec![pstr("-"), pstr("10"), pint(1)]),
        pint(9),
    ])).unwrap().matches(&ctx).unwrap());
    assert!(Rule::new(parr(vec![
        pstr("="),
        parr(vec![pstr("abs"), pint(-123)]),
        pint(123),
    ])).unwrap().matches(&ctx).unwrap());
}

#[test]
fn nonempty_string_coerces_to_false() {
    let ctx = empty_ctx();
    assert!(Rule::new(parr(vec![pstr("!"), pstr("any-non-empty-string")])).unwrap().matches(
        &ctx,
    ).unwrap());
    // and the empty string coerces to true, so the negation is false
    assert_eq!(
        Rule::new(parr(vec![pstr("!"), pstr("")])).unwrap().matches(&ctx).unwrap(),
        false
    );
}

#[test]
fn collection_operators() {
    let ctx = empty_ctx();
    assert!(Rule::new(parr(vec![pstr("in"), pint(1), pint(1), pint(2), pint(3)])).unwrap()
        .matches(&ctx).unwrap());
    assert_eq!(
        Rule::new(parr(vec![pstr("in"), pint(5), pint(1), pint(2)])).unwrap().matches(
            &ctx,
        ).unwrap(),
        false
    );
    let arr_ctx = pobj(vec![("arr", parr(vec![pstr("foo"), pstr("bar"), pstr("baz")]))]);
    assert!(Rule::new(parr(vec![pstr("startswith"), pstr("arr"), pstr("foo"), pstr("bar")]))
        .unwrap().matches(&arr_ctx).unwrap());
    assert!(Rule::new(parr(vec![
        pstr("startswith"),
        parr(vec![pstr("split"), pstr("apple,pear"), pstr(",")]),
        pstr("apple"),
    ])).unwrap().matches(&ctx).unwrap());
}

#[test]
fn split_with_empty_separator_cuts_everywhere() {
    // "ab" split on "" is ["", "a", "b", ""], whose first part is ""
    let ctx = empty_ctx();
    assert!(Rule::new(parr(vec![
        pstr("startswith"),
        parr(vec![pstr("split"), pstr("ab"), pstr("")]),
        pstr(""),
    ])).unwrap().matches(&ctx).unwrap());
}

#[test]
fn evaluation_is_idempotent() {
    let ctx = pobj(vec![("a", pint(1)), ("world", pstr("hello"))]);
    let r = Rule::new(parr(vec![
        pstr("&"),
        parr(vec![pstr("="), pstr("a"), pint(1)]),
        parr(vec![pstr("startswith"), pstr("world"), pstr("he")]),
    ])).unwrap();
    let first = r.matches(&ctx).unwrap();
    let second = r.matches(&ctx).unwrap();
    assert!(first);
    assert_eq!(first, second);
}

#[test]
fn division_by_zero_is_a_typed_error() {
    let ctx = empty_ctx();
    let r = Rule::new(parr(vec![pstr("/"), pint(1), pint(0)])).unwrap();
    assert!(matches!(r.matches(&ctx), Err(Error::DivisionByZeroError)));
    let r2 = Rule::new(parr(vec![pstr("%"), pint(1), pint(0)])).unwrap();
    assert!(matches!(r2.matches(&ctx), Err(Error::DivisionByZeroError)));
    // a divisor that merely coerces to zero errors the same way
    let r3 = Rule::new(parr(vec![pstr("/"), pint(1), pstr("zilch")])).unwrap();
    assert!(matches!(r3.matches(&ctx), Err(Error::DivisionByZeroError)));
}

#[test]
fn float_comparison_and_arithmetic() {
    let ctx = empty_ctx();
    assert!(Rule::new(parr(vec![pstr("lt"), pfloat(1.1), pfloat(1.23)])).unwrap().matches(
        &ctx,
    ).unwrap());
    assert_eq!(
        Rule::new(parr(vec![pstr("lt"), pfloat(1.23), pfloat(1.1)])).unwrap().matches(
            &ctx,
        ).unwrap(),
        false
    );
    assert!(Rule::new(parr(vec![
        pstr("="),
        parr(vec![pstr("+"), pfloat(1.5), pint(1)]),
        pfloat(2.5),
    ])).unwrap().matches(&ctx).unwrap());
    // a float truncates toward zero when coerced to an integer
    assert!(Rule::new(parr(vec![
        pstr("="),
        parr(vec![pstr("abs"), pfloat(-1.9)]),
        pint(1),
    ])).unwrap().matches(&ctx).unwrap());
}

#[test]
fn string_casts_print_canonically() {
    let ctx = empty_ctx();
    assert!(Rule::new(parr(vec![
        pstr("="),
        parr(vec![pstr("string"), pint(-42)]),
        pstr("-42"),
    ])).unwrap().matches(&ctx).unwrap());
    assert!(Rule::new(parr(vec![
        pstr("="),
        parr(vec![pstr("string"), pbool(true)]),
        pstr("true"),
    ])).unwrap().matches(&ctx).unwrap());
    assert!(Rule::new(parr(vec![
        pstr("="),
        parr(vec![pstr("string"), pfloat(1.5)]),
        pstr("1.5"),
    ])).unwrap().matches(&ctx).unwrap());
}

#[test]
fn numeric_casts_parse_signed_integers() {
    let ctx = empty_ctx();
    assert!(Rule::new(parr(vec![
        pstr("="),
        parr(vec![pstr("num"), pstr("-42")]),
        pint(-42),
    ])).unwrap().matches(&ctx).unwrap());
    assert!(Rule::new(parr(vec![
        pstr("="),
        parr(vec![pstr("num"), pstr("9223372036854775807")]),
        pint(9223372036854775807),
    ])).unwrap().matches(&ctx).unwrap());
    // a failed parse falls back to integer zero
    assert!(Rule::new(parr(vec![
        pstr("="),
        parr(vec![pstr("num"), pstr("pears")]),
        pint(0),
    ])).unwrap().matches(&ctx).unwrap());
}

#[test]
fn object_nodes_contribute_their_values_in_key_order() {
    // {"x": "=", "y": 1, "z": 1} reads as the expression ["=", 1, 1]
    let ctx = empty_ctx();
    let r = Rule::new(parr(vec![
        pstr("!"),
        pobj(vec![("x", pstr("=")), ("y", pint(1)), ("z", pint(2))]),
    ])).unwrap();
    // the inner comparison is false, which negates to true
    assert!(r.matches(&ctx).unwrap());
}

#[test]
fn alias_names_share_one_function() {
    let ctx = empty_ctx();
    for alias in ["+", "sum", "add"] {
        assert!(Rule::new(parr(vec![
            pstr("="),
            parr(vec![pstr(alias), pint(2), pint(3)]),
            pint(5),
        ])).unwrap().matches(&ctx).unwrap());
    }
    for alias in ["&", "&&", "all", "and"] {
        assert!(Rule::new(parr(vec![pstr(alias), pint(1), pbool(true)])).unwrap().matches(
            &ctx,
        ).unwrap());
    }
}

#[test]
fn glob_and_regex_reject_invalid_patterns_quietly() {
    let ctx = empty_ctx();
    assert_eq!(
        Rule::new(parr(vec![pstr("match"), pstr("hello"), pstr("[")])).unwrap().matches(
            &ctx,
        ).unwrap(),
        false
    );
    assert_eq!(
        Rule::new(parr(vec![pstr("regex"), pstr("hello"), pstr("(")])).unwrap().matches(
            &ctx,
        ).unwrap(),
        false
    );
}

#[test]
fn endswith_on_strings() {
    let ctx = empty_ctx();
    assert!(Rule::new(parr(vec![pstr("endswith"), pstr("hello"), pstr("lo")])).unwrap().matches(
        &ctx,
    ).unwrap());
    assert_eq!(
        Rule::new(parr(vec![pstr("endswith"), pstr("hello"), pstr("he")])).unwrap().matches(
            &ctx,
        ).unwrap(),
        false
    );
}

#[test]
fn chains_allow_equal_neighbours() {
    let ctx = empty_ctx();
    assert!(Rule::new(parr(vec![pstr("<="), pint(1), pint(1), pint(2)])).unwrap().matches(
        &ctx,
    ).unwrap());
    assert!(Rule::new(parr(vec![pstr(">="), pint(3), pint(3), pint(1)])).unwrap().matches(
        &ctx,
    ).unwrap());
}

#[test]
fn join_with_no_parts_is_empty() {
    let ctx = empty_ctx();
    assert!(Rule::new(parr(vec![
        pstr("="),
        parr(vec![pstr("join"), pstr(",")]),
        pstr(""),
    ])).unwrap().matches(&ctx).unwrap());
}

#[test]
fn negation_of_nothing_is_true() {
    // an absent argument counts as null, which coerces to false
    let ctx = empty_ctx();
    assert!(Rule::new(parr(vec![pstr("!")])).unwrap().matches(&ctx).unwrap());
}

#[test]
fn integer_addition_wraps_at_the_boundary() {
    let ctx = empty_ctx();
    assert!(Rule::new(parr(vec![
        pstr("="),
        parr(vec![pstr("+"), pint(9223372036854775807), pint(1)]),
        pint(-9223372036854775808),
    ])).unwrap().matches(&ctx).unwrap());
}

#[test]
fn float_division_by_zero_is_a_typed_error() {
    let ctx = empty_ctx();
    let r = Rule::new(parr(vec![pstr("/"), pfloat(1.5), pint(0)])).unwrap();
    assert!(matches!(r.matches(&ctx), Err(Error::DivisionByZeroError)));
}
