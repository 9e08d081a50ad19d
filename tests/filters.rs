use scrapelect::builtins::{
    attrs, dbg, entries, from_entries, id, keys, nth, strip, take, tee, to_int, values,
};
use scrapelect::args::{deserialize_args, Param};
use scrapelect::context::Context;
use scrapelect::filter::{dispatch_filter, FilterDyn, Nth, Strip, Take};
use scrapelect::numeric::truncate_float;
use scrapelect::value::{int_source, float_source, DocNode, FilterError, Kind, Or, Value};

fn text(s: &str) -> Value {
    Value::String(s.to_string())
}

fn abc() -> Vec<Value> {
    vec![text("a"), text("b"), text("c")]
}

fn as_text(v: &Value) -> &str {
    match v {
        Value::String(s) => s.as_str(),
        other => panic!("not a string: {other:?}"),
    }
}

fn arg(k: &str, v: Value) -> (String, Value) {
    (k.to_string(), v)
}

#[test]
fn nth_minus_one_is_last() {
    let r = nth(abc(), -1).unwrap();
    assert_eq!(as_text(&r), "c");
}

#[test]
fn nth_zero_is_first() {
    let r = nth(abc(), 0).unwrap();
    assert_eq!(as_text(&r), "a");
}

#[test]
fn nth_past_end_is_out_of_range() {
    let r = nth(abc(), 3);
    assert!(matches!(r, Err(FilterError::IndexOutOfRange { index: 3, len: 3 })));
}

#[test]
fn nth_before_start_is_out_of_range() {
    assert!(matches!(nth(abc(), -3), Ok(Value::String(ref s)) if s == "a"));
    let r = nth(abc(), -4);
    assert!(matches!(r, Err(FilterError::IndexOutOfRange { index: -4, len: 3 })));
    assert!(matches!(nth(abc(), i64::MIN), Err(FilterError::IndexOutOfRange { .. })));
    assert!(matches!(nth(Vec::new(), 0), Err(FilterError::IndexOutOfRange { index: 0, len: 0 })));
}

#[test]
fn entries_then_from_entries_round_trip() {
    let s = vec![arg("x", Value::Int(1)), arg("y", text("two")), arg("z", Value::Null)];
    let e = entries(s).unwrap();
    let list = match e {
        Value::List(l) => l,
        other => panic!("{other:?}"),
    };
    assert_eq!(list.len(), 3);
    let back = from_entries(list).unwrap();
    match back {
        Value::Structure(t) => {
            assert_eq!(t.len(), 3);
            assert_eq!(t[0].0, "x");
            assert!(matches!(t[0].1, Value::Int(1)));
            assert_eq!(t[1].0, "y");
            assert_eq!(as_text(&t[1].1), "two");
            assert_eq!(t[2].0, "z");
            assert!(matches!(t[2].1, Value::Null));
        }
        other => panic!("{other:?}"),
    }
}

#[test]
fn entries_round_trip_of_empty_structure() {
    let e = entries(Vec::new()).unwrap();
    let list = match e {
        Value::List(l) => l,
        other => panic!("{other:?}"),
    };
    assert!(list.is_empty());
    assert!(matches!(from_entries(list), Ok(Value::Structure(t)) if t.is_empty()));
}

#[test]
fn from_entries_keeps_last_value_of_repeated_key() {
    let list = vec![
        Value::List(vec![text("k"), Value::Int(1)]),
        Value::List(vec![text("j"), Value::Int(2)]),
        Value::List(vec![text("k"), Value::Int(3)]),
    ];
    match from_entries(list).unwrap() {
        Value::Structure(t) => {
            assert_eq!(t.len(), 2);
            assert_eq!(t[0].0, "k");
            assert!(matches!(t[0].1, Value::Int(3)));
            assert_eq!(t[1].0, "j");
        }
        other => panic!("{other:?}"),
    }
}

#[test]
fn from_entries_rejects_malformed_entries() {
    let wrong_arity = vec![Value::List(vec![text("k")])];
    assert!(matches!(from_entries(wrong_arity), Err(FilterError::MalformedEntry)));
    let wrong_key = vec![Value::List(vec![Value::Int(1), Value::Int(2)])];
    assert!(matches!(from_entries(wrong_key), Err(FilterError::MalformedEntry)));
    let not_list = vec![text("k")];
    assert!(matches!(from_entries(not_list), Err(FilterError::MalformedEntry)));
}

#[test]
fn int_parses_text() {
    assert!(matches!(to_int(Or::B(Or::B("42".to_string()))), Ok(Value::Int(42))));
    assert!(matches!(to_int(Or::B(Or::B("-17".to_string()))), Ok(Value::Int(-17))));
    assert!(matches!(to_int(Or::B(Or::B("+5".to_string()))), Ok(Value::Int(5))));
}

#[test]
fn int_truncates_float() {
    assert!(matches!(to_int(Or::B(Or::A(3.9f64.to_bits()))), Ok(Value::Int(3))));
    assert!(matches!(to_int(Or::B(Or::A((-3.9f64).to_bits()))), Ok(Value::Int(-3))));
}

#[test]
fn int_rejects_text_that_is_no_integer() {
    match to_int(Or::B(Or::B("abc".to_string()))) {
        Err(FilterError::ParseFailure { text, target }) => {
            assert_eq!(text, "abc");
            assert_eq!(target, Kind::Int);
        }
        other => panic!("{other:?}"),
    }
    assert!(matches!(
        to_int(Or::B(Or::B("99999999999999999999".to_string()))),
        Err(FilterError::ParseFailure { .. })
    ));
    assert!(matches!(to_int(Or::B(Or::B(" 1".to_string()))), Err(FilterError::ParseFailure { .. })));
    assert!(matches!(to_int(Or::B(Or::B(String::new()))), Err(FilterError::ParseFailure { .. })));
}

#[test]
fn float_truncation_matches_the_cast() {
    let samples = [
        0.0f64, -0.0, 0.5, -0.5, 1.0, 1.5, -1.5, 3.9, 1e10, -1e10, 4503599627370497.0,
        9.2e18, -9.2e18, 1e19, -1e19, 1e300, -1e300, 5e-324, f64::INFINITY,
        f64::NEG_INFINITY, f64::NAN, 9223372036854775807.0, -9223372036854775808.0,
    ];
    for x in samples {
        assert_eq!(truncate_float(x.to_bits()), x as i64, "{x}");
    }
}

#[test]
fn strip_trims_both_ends() {
    let r = strip("  hi  ".to_string()).unwrap();
    assert_eq!(as_text(&r), "hi");
    let r = strip("\t a b \n".to_string()).unwrap();
    assert_eq!(as_text(&r), "a b");
}

#[test]
fn take_present_and_absent_keys() {
    let s = || vec![arg("a", Value::Int(1))];
    assert!(matches!(take(s(), "a".to_string()), Ok(Value::Int(1))));
    assert!(matches!(take(s(), "b".to_string()), Ok(Value::Null)));
}

#[test]
fn attrs_gives_structure_of_attributes() {
    let node = DocNode {
        attributes: vec![("id".to_string(), "x".to_string()), ("class".to_string(), "y".to_string())],
    };
    match attrs(node).unwrap() {
        Value::Structure(s) => {
            assert_eq!(s.len(), 2);
            assert_eq!(s[0].0, "id");
            assert_eq!(as_text(&s[0].1), "x");
            assert_eq!(s[1].0, "class");
            assert_eq!(as_text(&s[1].1), "y");
        }
        other => panic!("{other:?}"),
    }
}

#[test]
fn coercion_order_prefers_native_numbers() {
    assert!(matches!(int_source(Value::Int(7)), Ok(Or::A(7))));
    assert!(matches!(int_source(Value::Float(2.5f64.to_bits())), Ok(Or::B(Or::A(_)))));
    assert!(matches!(int_source(text("7")), Ok(Or::B(Or::B(_)))));
    assert!(matches!(
        int_source(Value::Null),
        Err(FilterError::TypeMismatch { expected: Kind::String, actual: Kind::Null })
    ));
    assert!(matches!(float_source(Value::Float(1)), Ok(Or::A(1))));
    assert!(matches!(float_source(Value::Int(7)), Ok(Or::B(Or::A(7)))));
    let mut ctx = Context::new();
    let r = dispatch_filter("int", Value::Int(i64::MAX), Vec::new(), &mut ctx);
    assert!(matches!(r, Ok(Value::Int(i64::MAX))));
    let r = dispatch_filter("int", Value::Float(3.9f64.to_bits()), Vec::new(), &mut ctx);
    assert!(matches!(r, Ok(Value::Int(3))));
}

#[test]
fn dispatch_unknown_filter() {
    let mut ctx = Context::new();
    match dispatch_filter("nope", Value::Null, Vec::new(), &mut ctx) {
        Err(FilterError::UnknownFilter(n)) => assert_eq!(n, "nope"),
        other => panic!("{other:?}"),
    }
    assert!(matches!(
        dispatch_filter("id", Value::Null, Vec::new(), &mut ctx),
        Err(FilterError::UnknownFilter(_))
    ));
}

#[test]
fn dispatch_every_registered_filter() {
    let mut ctx = Context::new();
    let st = || Value::Structure(vec![arg("a", Value::Int(1))]);
    let node = Value::Node(DocNode { attributes: vec![("id".to_string(), "x".to_string())] });
    let cases: Vec<(&str, Value, Vec<(String, Value)>)> = vec![
        ("dbg", Value::Int(1), Vec::new()),
        ("dbg", Value::Int(1), vec![arg("msg", text("here"))]),
        ("tee", Value::Int(1), vec![arg("into", text("v"))]),
        ("strip", text(" x "), Vec::new()),
        ("take", st(), vec![arg("key", text("a"))]),
        ("attrs", node, Vec::new()),
        ("int", text("12"), Vec::new()),
        ("nth", Value::List(abc()), vec![arg("i", Value::Int(1))]),
        ("keys", st(), Vec::new()),
        ("values", st(), Vec::new()),
        ("entries", st(), Vec::new()),
        ("from_entries", Value::List(vec![Value::List(vec![text("a"), Value::Null])]), Vec::new()),
    ];
    for (name, value, args) in cases {
        let r = dispatch_filter(name, value, args, &mut ctx);
        assert!(r.is_ok(), "{name}: {r:?}");
    }
}

#[test]
fn dispatch_reports_missing_argument() {
    let mut ctx = Context::new();
    let st = Value::Structure(vec![arg("a", Value::Int(1))]);
    match dispatch_filter("take", st, Vec::new(), &mut ctx) {
        Err(FilterError::MissingArgument(n)) => assert_eq!(n, "key"),
        other => panic!("{other:?}"),
    }
    match dispatch_filter("nth", Value::List(abc()), Vec::new(), &mut ctx) {
        Err(FilterError::MissingArgument(n)) => assert_eq!(n, "i"),
        other => panic!("{other:?}"),
    }
    match dispatch_filter("tee", Value::Null, Vec::new(), &mut ctx) {
        Err(FilterError::MissingArgument(n)) => assert_eq!(n, "into"),
        other => panic!("{other:?}"),
    }
}

#[test]
fn dispatch_reports_every_unexpected_argument() {
    let mut ctx = Context::new();
    let st = Value::Structure(vec![arg("a", Value::Int(1))]);
    let args = vec![arg("b", Value::Null), arg("key", text("a")), arg("c", Value::Null)];
    match dispatch_filter("take", st, args, &mut ctx) {
        Err(FilterError::UnexpectedArguments(ns)) => assert_eq!(ns, vec!["b", "c"]),
        other => panic!("{other:?}"),
    }
    match dispatch_filter("keys", Value::Structure(Vec::new()), vec![arg("x", Value::Null)], &mut ctx) {
        Err(FilterError::UnexpectedArguments(ns)) => assert_eq!(ns, vec!["x"]),
        other => panic!("{other:?}"),
    }
}

#[test]
fn dispatch_checks_value_before_arguments() {
    let mut ctx = Context::new();
    let r = dispatch_filter("strip", Value::Int(3), vec![arg("x", Value::Null)], &mut ctx);
    assert!(matches!(
        r,
        Err(FilterError::TypeMismatch { expected: Kind::String, actual: Kind::Int })
    ));
    let r = dispatch_filter("nth", Value::List(abc()), vec![arg("i", text("1"))], &mut ctx);
    assert!(matches!(r, Err(FilterError::TypeMismatch { expected: Kind::Int, actual: Kind::String })));
}

#[test]
fn tee_binds_once() {
    let mut ctx = Context::new();
    assert!(matches!(tee(Value::Int(4), "v".to_string(), &mut ctx), Ok(Value::Int(4))));
    assert_eq!(ctx.vars.len(), 1);
    assert_eq!(ctx.vars[0].0, "v");
    assert!(matches!(ctx.vars[0].1, Value::Int(4)));
    match tee(Value::Int(5), "v".to_string(), &mut ctx) {
        Err(FilterError::ContextBindingFailure(n)) => assert_eq!(n, "v"),
        other => panic!("{other:?}"),
    }
    assert_eq!(ctx.vars.len(), 1);
}

#[test]
fn dbg_records_value_and_message() {
    let mut ctx = Context::new();
    assert!(matches!(dbg(Value::Int(1), None, &mut ctx), Ok(Value::Int(1))));
    assert!(matches!(dbg(text("v"), Some("note".to_string()), &mut ctx), Ok(_)));
    assert_eq!(ctx.diagnostics.len(), 2);
    assert_eq!(ctx.diagnostics[0].1, "dbg message");
    assert!(matches!(ctx.diagnostics[0].0, Value::Int(1)));
    assert_eq!(ctx.diagnostics[1].1, "note");
    assert_eq!(as_text(&ctx.diagnostics[1].0), "v");
}

#[test]
fn keys_values_and_entries() {
    let s = || vec![arg("a", Value::Int(1)), arg("b", Value::Int(2))];
    match keys(s()).unwrap() {
        Value::List(l) => {
            assert_eq!(l.len(), 2);
            assert_eq!(as_text(&l[0]), "a");
            assert_eq!(as_text(&l[1]), "b");
        }
        other => panic!("{other:?}"),
    }
    match values(s()).unwrap() {
        Value::List(l) => {
            assert!(matches!(l[..], [Value::Int(1), Value::Int(2)]));
        }
        other => panic!("{other:?}"),
    }
    match entries(s()).unwrap() {
        Value::List(l) => match &l[1] {
            Value::List(p) => {
                assert_eq!(as_text(&p[0]), "b");
                assert!(matches!(p[1], Value::Int(2)));
            }
            other => panic!("{other:?}"),
        },
        other => panic!("{other:?}"),
    }
}

#[test]
fn id_passes_value_through() {
    assert!(matches!(id(Value::Bool(true)), Ok(Value::Bool(true))));
}

#[test]
fn copy_keeps_nested_content() {
    let v = Value::List(vec![Value::Structure(vec![arg("k", text("x"))]), Value::Float(9)]);
    let c = v.copy();
    assert_eq!(format!("{v:?}"), format!("{c:?}"));
}

#[test]
fn filters_apply_through_the_uniform_interface() {
    let mut ctx = Context::new();
    let r = Strip.apply_dyn(text(" a "), Vec::new(), &mut ctx);
    assert_eq!(as_text(&r.unwrap()), "a");
    let r = Nth.apply_dyn(Value::List(abc()), vec![arg("i", Value::Int(-2))], &mut ctx);
    assert_eq!(as_text(&r.unwrap()), "b");
    let r = Take.apply_dyn(Value::List(abc()), vec![arg("key", text("a"))], &mut ctx);
    assert!(matches!(
        r,
        Err(FilterError::TypeMismatch { expected: Kind::Structure, actual: Kind::List })
    ));
}

fn decl(name: &str, kind: Kind, optional: bool) -> Param {
    Param { name: name.to_string(), kind, optional }
}

#[test]
fn omitting_each_required_parameter_names_it() {
    let params = vec![
        decl("a", Kind::Int, false),
        decl("b", Kind::String, false),
        decl("c", Kind::String, true),
    ];
    let full = || vec![arg("a", Value::Int(1)), arg("b", text("x"))];
    for omitted in ["a", "b"] {
        let args: Vec<_> = full().into_iter().filter(|(k, _)| k != omitted).collect();
        match deserialize_args(&params, args) {
            Err(FilterError::MissingArgument(n)) => assert_eq!(n, omitted),
            other => panic!("{other:?}"),
        }
    }
    match deserialize_args(&params, full()) {
        Ok(vals) => {
            assert_eq!(vals.len(), 3);
            assert!(matches!(vals[0], Some(Value::Int(1))));
            assert!(vals[2].is_none());
        }
        Err(e) => panic!("{e:?}"),
    }
}

#[test]
fn every_surplus_argument_is_reported() {
    let params = vec![decl("a", Kind::Int, false)];
    let args = vec![arg("z", Value::Null), arg("a", Value::Int(1)), arg("y", Value::Null)];
    match deserialize_args(&params, args) {
        Err(FilterError::UnexpectedArguments(ns)) => assert_eq!(ns, vec!["z", "y"]),
        other => panic!("{other:?}"),
    }
    match deserialize_args(&Vec::new(), vec![arg("q", Value::Null)]) {
        Err(FilterError::UnexpectedArguments(ns)) => assert_eq!(ns, vec!["q"]),
        other => panic!("{other:?}"),
    }
    assert!(matches!(deserialize_args(&Vec::new(), Vec::new()), Ok(v) if v.is_empty()));
}

#[test]
fn wrongly_typed_argument_is_a_type_mismatch() {
    let params = vec![decl("a", Kind::Int, false), decl("b", Kind::String, false)];
    let args = vec![arg("a", text("1"))];
    assert!(matches!(
        deserialize_args(&params, args),
        Err(FilterError::TypeMismatch { expected: Kind::Int, actual: Kind::String })
    ));
}
