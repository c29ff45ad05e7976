use copper_core::text::Fragment;
use copper_core::value::{FromValue, Number, Value, ValueError, ValueKind};

#[test]
fn integer_is_read_with_truncation() {
    let v = Value::Number(Number::U64(0x1_0000_0005));
    assert_eq!(i32::from_value(&v), Ok(5));
    assert_eq!(u8::from_value(&Value::Number(Number::U64(300))), Ok(44));
    assert_eq!(i8::from_value(&Value::Number(Number::U16(65535))), Ok(-1));
    assert_eq!(u64::from_value(&Value::Number(Number::I8(-1))), Ok(u64::MAX));
}

#[test]
fn text_is_no_integer() {
    let v = Value::Text(String::from("abc"));
    assert_eq!(
        i32::from_value(&v),
        Err(ValueError::KindMismatch {
            expected: ValueKind::Integer,
            found: ValueKind::Text
        })
    );
}

#[test]
fn host_scalars_become_numbers() {
    assert_eq!(Value::from(-5i32), Value::Number(Number::I32(-5)));
    assert_eq!(Value::from(5u32), Value::Number(Number::U64(5)));
    assert_eq!(Value::from(5u16), Value::Number(Number::U64(5)));
    assert_eq!(Value::from(5u8), Value::Number(Number::U64(5)));
    assert_eq!(Value::from(5u64), Value::Number(Number::U64(5)));
    assert_eq!(Value::from(-5i8), Value::Number(Number::I8(-5)));
    assert_eq!(Value::from(-5i16), Value::Number(Number::I16(-5)));
    assert_eq!(Value::from(-5i64), Value::Number(Number::I64(-5)));
    assert_eq!(Value::from(true), Value::Bool(true));
    assert_eq!(Value::from(String::from("s")), Value::Text(String::from("s")));
}

#[test]
fn kinds_do_not_cross() {
    let float = Value::Number(Number::F64(0x3FF8_0000_0000_0000));
    assert_eq!(
        i64::from_value(&float),
        Err(ValueError::KindMismatch {
            expected: ValueKind::Integer,
            found: ValueKind::Float
        })
    );
    assert_eq!(
        bool::from_value(&Value::Number(Number::U8(1))),
        Err(ValueError::KindMismatch {
            expected: ValueKind::Bool,
            found: ValueKind::Integer
        })
    );
    assert_eq!(
        String::from_value(&Value::Bool(true)),
        Err(ValueError::KindMismatch {
            expected: ValueKind::Text,
            found: ValueKind::Bool
        })
    );
    assert_eq!(bool::from_value(&Value::Bool(false)), Ok(false));
    assert_eq!(
        String::from_value(&Value::Text("abc".to_string())),
        Ok("abc".to_string())
    );
    assert_eq!(u16::from_value(&Value::Number(Number::I32(-1))), Ok(65535));
    assert_eq!(i16::from_value(&Value::Number(Number::I64(40000))), Ok(-25536));
    assert_eq!(u32::from_value(&Value::Number(Number::I16(-2))), Ok(u32::MAX - 1));
    assert_eq!(Value::Unit.kind(), ValueKind::Unit);
    assert_eq!(Value::Bytes(vec![1]).kind(), ValueKind::Bytes);
}

#[test]
fn values_are_written_out() {
    let text = |v: &Value| v.to_text().to_plain_string().unwrap();
    assert_eq!(text(&Value::from(-42i32)), "-42");
    assert_eq!(text(&Value::from(0u8)), "0");
    assert_eq!(text(&Value::Number(Number::U64(u64::MAX))), "18446744073709551615");
    assert_eq!(text(&Value::Number(Number::I64(i64::MIN))), "-9223372036854775808");
    assert_eq!(text(&Value::Bool(true)), "true");
    assert_eq!(text(&Value::Bool(false)), "false");
    assert_eq!(text(&Value::Text("a b".to_string())), "a b");
    assert_eq!(text(&Value::Char('x')), "'x'");
    assert_eq!(text(&Value::Char('\n')), "'\\n'");
    assert_eq!(text(&Value::Unit), "unit");
    assert_eq!(text(&Value::Optional(None)), "None");
    assert_eq!(
        text(&Value::Optional(Some(Box::new(Value::from(3u8))))),
        "Some(3)"
    );
    assert_eq!(text(&Value::Bytes(vec![1, 20, 255])), "[1, 20, 255]");
    assert_eq!(text(&Value::Bytes(vec![])), "[]");
    assert_eq!(
        text(&Value::Sequence(vec![
            Value::from(1u8),
            Value::Text("x".to_string()),
            Value::Sequence(vec![])
        ])),
        "[1, x, []]"
    );
    assert_eq!(
        text(&Value::Mapping(vec![
            (Value::Text("k".to_string()), Value::from(1u8)),
            (Value::from(2u8), Value::Bool(false))
        ])),
        "{k: 1, 2: false}"
    );
}

#[test]
fn floats_are_left_to_the_printer() {
    let bits = 1.5f64.to_bits();
    let v = Value::Sequence(vec![Value::Number(Number::F64(bits)), Value::from(2u8)]);
    let out = v.to_text();
    assert_eq!(out.to_plain_string(), None);
    let mut printed = String::new();
    for fragment in &out.fragments {
        match fragment {
            Fragment::Text(s) => printed.push_str(s),
            Fragment::F32(b) => printed.push_str(&f32::from_bits(*b).to_string()),
            Fragment::F64(b) => printed.push_str(&f64::from_bits(*b).to_string()),
        }
    }
    assert_eq!(printed, "[1.5, 2]");
    let single = Value::Number(Number::F32(0.25f32.to_bits())).to_text();
    assert_eq!(single.fragments, vec![Fragment::F32(0.25f32.to_bits())]);
    assert_eq!(v.clone(), v);
}
