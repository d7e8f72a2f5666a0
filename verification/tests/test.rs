use rule::rule::Rule;

fn jstr(s: &str) -> serde_json::Value {
    serde_json::Value::String(s.to_string())
}

fn jint(i: i64) -> serde_json::Value {
    serde_json::Value::Number(serde_json::Number::from(i))
}

fn jfloat(f: f64) -> serde_json::Value {
    serde_json::Value::Number(serde_json::Number::from_f64(f).unwrap())
}

fn jbool(b: bool) -> serde_json::Value {
    serde_json::Value::Bool(b)
}

fn jarr(items: Vec<serde_json::Value>) -> serde_json::Value {
    serde_json::Value::Array(items)
}

fn jobj(pairs: Vec<(&str, serde_json::Value)>) -> serde_json::Value {
    let mut m = serde_json::Map::new();
    for (k, v) in pairs {
        m.insert(k.to_string(), v);
    }
    serde_json::Value::Object(m)
}

fn sample_context() -> serde_json::Value {
    jobj(vec![("a", jint(1)), ("world", jstr("hello"))])
}

#[test]
fn rule_new() {
    let _rule = Rule::new(jarr(vec![jstr("="), jstr("a"), jint(1)])).unwrap();
}

#[test]
fn rule_new_macro() {
    let _rule = Rule::new(jarr(vec![jstr("="), jstr("a"), jint(1)])).unwrap();
}

#[test]
fn rule_from_str() {
    let _rule = Rule::from_str(r#"["=", ["var", "a"], 1]"#).unwrap();
}

#[test]
fn rule_match() {
    let _rule = Rule::new(jarr(vec![jstr("="), jstr("a"), jint(1)])).unwrap();

    let context = sample_context();
    assert!(_rule.matches(&context).unwrap());
}

#[test]
fn rule_match_handle_error() {
    let context = sample_context();
    assert!(Rule::new(jarr(vec![jstr("="), jstr("a"), jint(1)])).unwrap().matches(
        &context,
    ).unwrap());
    assert!(Rule::new(jarr(vec![jstr("="), jstr("a"), jint(1)])).unwrap().matches(
        &context,
    ).unwrap());
}

#[test]
fn rule_recur_match() {
    let context = sample_context();
    assert!(Rule::new(jarr(vec![
        jstr("="),
        jarr(vec![jstr("var"), jstr("a")]),
        jint(1),
    ])).unwrap().matches(&context).unwrap());
}

#[test]
fn rule_match_from_str() {
    let context = sample_context();
    assert!(Rule::from_str(r#"["=", ["var", "a"], 1]"#).unwrap().matches(&context).unwrap());
}

#[test]
fn rule_match_context_struct() {
    // the original feeds a host struct with fields a = 1 and world =
    // "hello"; here the same mapping is built as a JSON object
    let context = jobj(vec![("a", jint(1)), ("world", jstr("hello"))]);
    assert!(Rule::new(jarr(vec![jstr("="), jstr("a"), jint(1)])).unwrap().matches(
        &context,
    ).unwrap());
    assert!(Rule::new(jarr(vec![jstr("="), jstr("world"), jstr("hello")])).unwrap().matches(
        &context,
    ).unwrap());
}

#[test]
fn rule_match_logic_op() {
    let context = sample_context();
    assert!(Rule::new(jarr(vec![jstr(">"), jstr("world"), jstr("hell")])).unwrap().matches(
        &context,
    ).unwrap());
    assert!(Rule::new(jarr(vec![jstr(">"), jstr("a"), jint(0)])).unwrap().matches(
        &context,
    ).unwrap());
    assert!(Rule::new(jarr(vec![
        jstr("!"),
        jarr(vec![jstr("<"), jint(1000), jint(234)]),
    ])).unwrap().matches(&context).unwrap());
    assert!(Rule::new(jarr(vec![jstr(">="), jint(1000), jint(234)])).unwrap().matches(
        &context,
    ).unwrap());
    assert!(Rule::new(jarr(vec![jstr("!="), jint(1000), jint(234)])).unwrap().matches(
        &context,
    ).unwrap());
    assert!(Rule::new(jarr(vec![jstr("all"), jint(1000), jint(234), jbool(true)])).unwrap()
        .matches(&context).unwrap());
    assert!(Rule::new(jarr(vec![jstr("any"), jint(1000), jint(0)])).unwrap().matches(
        &context,
    ).unwrap());
    assert_eq!(
        Rule::new(jarr(vec![jstr("any"), jbool(false), jint(0)])).unwrap().matches(
            &context,
        ).unwrap(),
        false
    );
}

#[test]
fn rule_match_arithmetic_op() {
    let context = sample_context();
    assert!(Rule::new(jarr(vec![
        jstr("="),
        jarr(vec![jstr("+"), jstr("world"), jstr(" world")]),
        jstr("hello world"),
    ])).unwrap().matches(&context).unwrap());
    assert!(Rule::new(jarr(vec![
        jstr("="),
        jarr(vec![jstr("+"), jstr("a"), jint(100)]),
        jint(101),
    ])).unwrap().matches(&context).unwrap());
    assert!(Rule::new(jarr(vec![
        jstr("="),
        jarr(vec![jstr("-"), jstr("a"), jint(100)]),
        jint(-99),
    ])).unwrap().matches(&context).unwrap());
    assert!(Rule::new(jarr(vec![
        jstr("="),
        jarr(vec![jstr("-"), jstr("10"), jint(1)]),
        jint(9),
    ])).unwrap().matches(&context).unwrap());
    assert!(Rule::new(jarr(vec![
        jstr("="),
        jarr(vec![jstr("neg"), jstr("10")]),
        jint(-10),
    ])).unwrap().matches(&context).unwrap());
    assert!(Rule::new(jarr(vec![
        jstr("="),
        jarr(vec![jstr("*"), jstr("a"), jint(10), jint(-2)]),
        jint(-20),
    ])).unwrap().matches(&context).unwrap());
    assert!(Rule::new(jarr(vec![
        jstr("="),
        jarr(vec![jstr("/"), jint(100), jarr(vec![jstr("var"), jstr("a")]), jint(5)]),
        jint(20),
    ])).unwrap().matches(&context).unwrap());
    assert!(Rule::new(jarr(vec![
        jstr("="),
        jarr(vec![jstr("%"), jint(100), jint(3)]),
        jint(1),
    ])).unwrap().matches(&context).unwrap());
    assert!(Rule::new(jarr(vec![
        jstr("="),
        jarr(vec![jstr("abs"), jint(-123)]),
        jint(123),
    ])).unwrap().matches(&jobj(vec![])).unwrap());
}

#[test]
fn rule_match_collection_op() {
    assert!(Rule::new(jarr(vec![jstr("in"), jint(1), jint(1), jint(2), jint(3)])).unwrap()
        .matches(&jobj(vec![])).unwrap());
    assert!(Rule::new(jarr(vec![jstr("startswith"), jstr("hello"), jstr("he")])).unwrap()
        .matches(&jobj(vec![])).unwrap());
    let arr_ctx = jobj(vec![("arr", jarr(vec![jstr("foo"), jstr("bar"), jstr("baz")]))]);
    assert!(Rule::new(jarr(vec![jstr("startswith"), jstr("arr"), jstr("foo"), jstr("bar")]))
        .unwrap().matches(&arr_ctx).unwrap());
    assert!(Rule::new(jarr(vec![jstr("endswith"), jstr("arr"), jstr("bar"), jstr("baz")]))
        .unwrap().matches(&arr_ctx).unwrap());
    assert!(Rule::new(jarr(vec![
        jstr("startswith"),
        jarr(vec![jstr("split"), jstr("apple,pear"), jstr(",")]),
        jstr("apple"),
    ])).unwrap().matches(&jobj(vec![])).unwrap());
    assert!(Rule::new(jarr(vec![
        jstr("="),
        jarr(vec![jstr("join"), jstr(" "), jstr("hello"), jstr("world")]),
        jstr("hello world"),
    ])).unwrap().matches(&jobj(vec![])).unwrap());
}

#[test]
fn rule_match_string_op() {
    assert!(Rule::new(jarr(vec![
        jstr("="),
        jarr(vec![jstr("lower"), jstr("Hi")]),
        jstr("hi"),
    ])).unwrap().matches(&jobj(vec![])).unwrap());
    assert!(Rule::new(jarr(vec![
        jstr("="),
        jarr(vec![jstr("upper"), jstr("Hi")]),
        jstr("HI"),
    ])).unwrap().matches(&jobj(vec![])).unwrap());
    assert!(Rule::new(jarr(vec![jstr("match"), jstr("hello"), jstr("he*")])).unwrap().matches(
        &jobj(vec![]),
    ).unwrap());
    assert!(Rule::new(jarr(vec![jstr("regex"), jstr("hello"), jstr("^he[l-o]{3}$")])).unwrap()
        .matches(&jobj(vec![])).unwrap());
}

#[test]
fn rule_match_casting_op() {
    assert!(Rule::new(jarr(vec![
        jstr("="),
        jarr(vec![jstr("num"), jstr("100")]),
        jint(100),
    ])).unwrap().matches(&jobj(vec![])).unwrap());
    assert!(Rule::new(jarr(vec![
        jstr("="),
        jarr(vec![jstr("num"), jstr("1.23")]),
        jfloat(1.23),
    ])).unwrap().matches(&jobj(vec![])).unwrap());
    assert_eq!(
        Rule::new(jarr(vec![jstr("="), jstr("100"), jint(100)])).unwrap().matches(
            &jobj(vec![]),
        ).unwrap(),
        false
    );
    assert!(Rule::new(jarr(vec![
        jstr("="),
        jarr(vec![jstr("string"), jint(100)]),
        jstr("100"),
    ])).unwrap().matches(&jobj(vec![])).unwrap());
}
