use rule::arg::Arg;
use rule::error::Error;
use rule::op::{self, Op, OpKind};

#[test]
fn registry_knows_every_alias() {
    for name in [
        "var", "=", "eq", "<", "lt", "<=", "le", "!=", "ne", ">=", "ge", ">", "gt", "&", "&&",
        "all", "and", "|", "||", "any", "or", "!", "not", "+", "sum", "add", "-", "minus", "sub",
        "neg", "*", "mul", "/", "div", "%", "mod", "rem", "abs", "in", "startswith", "endswith",
        "split", "join", "lower", "upper", "match", "regex", "num", "string",
    ] {
        let op = Op::get(name).unwrap();
        assert_eq!(op.name, name);
    }
    assert!(Op::get("frobnicate").is_none());
    assert!(Op::get("VAR").is_none());
}

#[test]
fn aliases_share_one_function() {
    let plus = Op::get("+").unwrap();
    let sum = Op::get("sum").unwrap();
    assert!(plus.kind == OpKind::OpAdd);
    assert!(sum.kind == OpKind::OpAdd);
}

#[test]
fn chained_comparison_functions() {
    let r = op::eq(vec![Arg::Int(1), Arg::Int(1), Arg::Int(1)]);
    assert!(matches!(r, Arg::Bool(true)));
    let r = op::lt(vec![Arg::Int(1), Arg::Int(2), Arg::Int(3)]);
    assert!(matches!(r, Arg::Bool(true)));
    let r = op::lt(vec![Arg::Int(1), Arg::Int(3), Arg::Int(2)]);
    assert!(matches!(r, Arg::Bool(false)));
    let r = op::ge(vec![Arg::Int(3), Arg::Int(3), Arg::Int(1)]);
    assert!(matches!(r, Arg::Bool(true)));
    // fewer than two arguments satisfy any chain vacuously
    let r = op::ne(vec![Arg::Int(1)]);
    assert!(matches!(r, Arg::Bool(true)));
}

#[test]
fn strings_order_lexicographically() {
    let r = op::gt(vec![
        Arg::String("hello".to_string()),
        Arg::String("hell".to_string()),
    ]);
    assert!(matches!(r, Arg::Bool(true)));
    let r = op::lt(vec![Arg::String("10".to_string()), Arg::String("2".to_string())]);
    assert!(matches!(r, Arg::Bool(true)));
}

#[test]
fn arithmetic_functions_fold() {
    let r = op::add(vec![Arg::Int(1), Arg::Int(2), Arg::Int(3)]);
    assert!(matches!(r, Arg::Int(6)));
    let r = op::sub(vec![Arg::Null, Arg::Int(5)]);
    assert!(matches!(r, Arg::Int(-5)));
    let r = op::mul(vec![Arg::Int(7), Arg::String("3".to_string())]);
    assert!(matches!(r, Arg::Int(21)));
    let r = op::add(vec![]);
    assert!(matches!(r, Arg::Null));
    let r = op::neg(vec![Arg::String("10".to_string())]);
    assert!(matches!(r, Arg::Int(-10)));
    let r = op::abs(vec![Arg::Int(-123)]);
    assert!(matches!(r, Arg::Int(123)));
}

#[test]
fn division_functions_error_on_zero() {
    let r = op::div(vec![Arg::Int(1), Arg::Int(0)]);
    assert!(matches!(r, Err(Error::DivisionByZeroError)));
    let r = op::rem(vec![Arg::Int(1), Arg::Int(0)]);
    assert!(matches!(r, Err(Error::DivisionByZeroError)));
    let r = op::div(vec![Arg::Int(100), Arg::Int(5)]);
    assert!(matches!(r, Ok(Arg::Int(20))));
    // a null dividend short-circuits to zero without reading the divisor
    let r = op::div(vec![Arg::Null, Arg::Int(0)]);
    assert!(matches!(r, Ok(Arg::Int(0))));
}

#[test]
fn membership_function() {
    let r = op::in_op(vec![Arg::Int(1), Arg::Int(1), Arg::Int(2)]);
    assert!(matches!(r, Arg::Bool(true)));
    let r = op::in_op(vec![Arg::Int(5), Arg::Int(1), Arg::Int(2)]);
    assert!(matches!(r, Arg::Bool(false)));
}

#[test]
fn glob_function() {
    let r = op::match_op(vec![
        Arg::String("hello".to_string()),
        Arg::String("he*".to_string()),
    ]);
    assert!(matches!(r, Arg::Bool(true)));
    let r = op::match_op(vec![
        Arg::String("goodbye".to_string()),
        Arg::String("he*".to_string()),
    ]);
    assert!(matches!(r, Arg::Bool(false)));
}

#[test]
fn case_functions_change_text() {
    let r = op::lower(vec![Arg::String("Hi".to_string())]);
    match r {
        Arg::String(s) => assert_eq!(s, "hi"),
        _ => panic!("expected a string"),
    }
    let r = op::upper(vec![Arg::String("Hi".to_string())]);
    match r {
        Arg::String(s) => assert_eq!(s, "HI"),
        _ => panic!("expected a string"),
    }
}

#[test]
fn string_concatenation_and_split() {
    let r = op::add(vec![
        Arg::String("hello".to_string()),
        Arg::String(" world".to_string()),
    ]);
    match r {
        Arg::String(s) => assert_eq!(s, "hello world"),
        _ => panic!("expected a string"),
    }
    let r = op::split(vec![
        Arg::String("apple,pear".to_string()),
        Arg::String(",".to_string()),
    ]);
    match r {
        Arg::Array(parts) => {
            assert_eq!(parts.len(), 2);
            assert!(matches!(&parts[0], Arg::String(s) if s == "apple"));
            assert!(matches!(&parts[1], Arg::String(s) if s == "pear"));
        },
        _ => panic!("expected an array"),
    }
}

#[test]
fn casting_functions() {
    let r = op::num(vec![Arg::String("100".to_string())]);
    assert!(matches!(r, Arg::Int(100)));
    let r = op::string(vec![Arg::Int(100)]);
    match r {
        Arg::String(s) => assert_eq!(s, "100"),
        _ => panic!("expected a string"),
    }
    let r = op::string(vec![Arg::Null]);
    match r {
        Arg::String(s) => assert_eq!(s, ""),
        _ => panic!("expected a string"),
    }
}

#[test]
fn accessors_read_only_their_variant() {
    assert_eq!(Arg::Bool(true).as_bool(), Some(true));
    assert_eq!(Arg::Int(1).as_bool(), None);
    assert_eq!(Arg::String("x".to_string()).as_str(), Some("x"));
    assert_eq!(Arg::Null.as_str(), None);
}
