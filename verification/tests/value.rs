use ssa_parser::error::{Error, FloatErrorKind};
use ssa_parser::events::effect::Effect;
use ssa_parser::events::text::Text;
use ssa_parser::float_text::FloatText;
use ssa_parser::parser::Parser;
use ssa_parser::value::Value;
use ssa_parser::Duration;

fn float(s: &str) -> FloatText {
    FloatText::parse(s).unwrap()
}

#[test]
fn value_text_of_each_variant() {
    assert_eq!(Value::Str("abc".to_string()).to_string(), "abc");
    assert_eq!(Value::Int(0).to_string(), "0");
    assert_eq!(Value::Int(-42).to_string(), "-42");
    assert_eq!(Value::Int(i64::MIN).to_string(), "-9223372036854775808");
    assert_eq!(Value::Int(i64::MAX).to_string(), "9223372036854775807");
    assert_eq!(Value::Float(float("0.10")).to_string(), "0.10");
    assert_eq!(Value::Boolean(true).to_string(), "true");
    assert_eq!(Value::Boolean(false).to_string(), "false");
    assert_eq!(
        Value::Duration(Duration::from_millis(47_240)).to_string(),
        "0:00:47.240"
    );
    assert_eq!(Value::Effect(Effect::Karaoke).to_string(), "Karaoke");
    assert_eq!(
        Value::Text(Text("Hello, World!".to_string())).to_string(),
        "Hello, World!"
    );
}

#[test]
fn value_text_of_lists() {
    assert_eq!(Value::List(vec![]).to_string(), "[]");
    assert_eq!(Value::List(vec![Value::Int(1)]).to_string(), "[1]");
    assert_eq!(
        Value::List(vec![
            Value::Int(1),
            Value::Str("a".to_string()),
            Value::List(vec![Value::Boolean(true), Value::Int(-2)]),
        ])
        .to_string(),
        "[1, a, [true, -2]]"
    );
}

#[test]
fn values_of_different_variants_are_unequal() {
    assert_ne!(Value::Str("1".to_string()), Value::Int(1));
    assert_ne!(
        Value::Str("a".to_string()),
        Value::Text(Text("a".to_string()))
    );
    assert_ne!(Value::Int(1), Value::Boolean(true));
    assert_ne!(Value::Int(0), Value::Duration(Duration::from_millis(0)));
    assert_ne!(Value::List(vec![]), Value::Str("[]".to_string()));
    assert_eq!(Value::Int(7), Value::Int(7));
    assert_eq!(
        Value::List(vec![Value::Int(1)]),
        Value::List(vec![Value::Int(1)])
    );
}

#[test]
fn value_clone_is_equal() {
    let v = Value::List(vec![
        Value::Str("a".to_string()),
        Value::Float(float("1.5")),
        Value::Effect(Effect::Unknown("x;y".to_string())),
        Value::List(vec![Value::Text(Text("t".to_string()))]),
    ]);
    assert_eq!(v.clone(), v);
}

#[test]
fn value_accessors() {
    let mut s = Value::Str("a".to_string());
    assert_eq!(s.as_str(), Some("a"));
    assert_eq!(s.as_int(), None);
    s.as_str_mut().unwrap().push('b');
    assert_eq!(s, Value::Str("ab".to_string()));
    assert!(s.as_int_mut().is_none());

    let mut i = Value::Int(3);
    assert_eq!(i.as_int(), Some(3));
    *i.as_int_mut().unwrap() = 4;
    assert_eq!(i, Value::Int(4));
    assert!(i.as_str().is_none());

    let mut b = Value::Boolean(false);
    assert_eq!(b.as_bool(), Some(false));
    *b.as_bool_mut().unwrap() = true;
    assert_eq!(b.as_bool(), Some(true));

    let mut l = Value::List(vec![Value::Int(1)]);
    assert_eq!(l.as_list().unwrap().len(), 1);
    l.as_list_mut().unwrap().push(Value::Int(2));
    assert_eq!(l, Value::List(vec![Value::Int(1), Value::Int(2)]));

    let mut d = Value::Duration(Duration::from_millis(5));
    assert_eq!(d.as_duration(), Some(Duration::from_millis(5)));
    *d.as_duration_mut().unwrap() = Duration::from_millis(6);
    assert_eq!(d.as_duration().unwrap().as_millis(), 6);

    let mut e = Value::Effect(Effect::Karaoke);
    assert_eq!(e.as_effect(), Some(&Effect::Karaoke));
    *e.as_effect_mut().unwrap() = Effect::NoEffect;
    assert_eq!(e, Value::Effect(Effect::NoEffect));

    let mut f = Value::Float(float("2.5"));
    assert_eq!(f.as_float().unwrap().as_str(), "2.5");
    *f.as_float_mut().unwrap() = float("3");
    assert_eq!(f.to_string(), "3");
    assert!(f.as_bool().is_none());
    assert!(f.as_list().is_none());
    assert!(f.as_duration().is_none());
    assert!(f.as_effect().is_none());
}

#[test]
fn float_text_is_a_number() {
    for ok in [
        "0", "1", "100", "0.1", "2.5", "-1", "+1", ".5", "5.", "-.5", "1e5", "1E5", "1e+5",
        "1.5e-3", "inf", "-inf", "+Infinity", "NaN", "nan", "0.10", "007",
    ] {
        let f = FloatText::parse(ok).unwrap();
        assert_eq!(f.as_str(), ok);
        assert_eq!(f.to_string(), ok);
        assert!(ok.parse::<f64>().is_ok());
    }
}

#[test]
fn float_text_rejects_what_is_no_number() {
    assert_eq!(
        FloatText::parse("").unwrap_err(),
        Error::ParseFloatError {
            error: FloatErrorKind::Empty,
            msg: "".to_string()
        }
    );
    for bad in [
        "+", "-", ".", "e5", "1e", "1e+", "1.2.3", "1e5e5", "abc", "1 ", " 1", "0x10", "1,5",
        "--1", "infinit", "1e5.5", "１",
    ] {
        assert_eq!(
            FloatText::parse(bad).unwrap_err(),
            Error::ParseFloatError {
                error: FloatErrorKind::Invalid,
                msg: bad.to_string()
            }
        );
        assert!(bad.parse::<f64>().is_err());
    }
}

#[test]
fn float_text_of_a_whole_number() {
    assert_eq!(FloatText::whole(0).as_str(), "0");
    assert_eq!(FloatText::whole(100).as_str(), "100");
    assert_eq!(FloatText::whole(100).as_str().parse::<f64>().unwrap(), 100.0);
    assert_eq!(FloatText::whole(u64::MAX).as_str(), "18446744073709551615");
}

#[test]
fn values_are_made_from_what_they_hold() {
    assert_eq!(Value::from("a".to_string()), Value::Str("a".to_string()));
    assert_eq!(Value::from(-3i64), Value::Int(-3));
    assert_eq!(Value::from(true), Value::Boolean(true));
    assert_eq!(Value::from(float("1.5")), Value::Float(float("1.5")));
    assert_eq!(
        Value::from(vec![Value::Int(1)]),
        Value::List(vec![Value::Int(1)])
    );
    assert_eq!(
        Value::from(Duration::from_millis(7)),
        Value::Duration(Duration::from_millis(7))
    );
    assert_eq!(Value::from(Effect::Karaoke), Value::Effect(Effect::Karaoke));
    assert_eq!(
        Value::from(Text("t".to_string())),
        Value::Text(Text("t".to_string()))
    );
    let v: Value = 5i64.into();
    assert_eq!(v, Value::Int(5));
}

#[test]
fn numbers_are_equal_where_they_are_written_alike() {
    assert_eq!(Value::Float(float("0.1")), Value::Float(float("0.1")));
    assert_ne!(Value::Float(float("0.1")), Value::Float(float("0.10")));
    assert_ne!(Value::Float(float("1")), Value::Int(1));
}
