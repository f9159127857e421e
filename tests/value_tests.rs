use std::rc::Rc;

use lua_value::ieee::{float_equal, float_to_int};
use lua_value::table::{Table, Tables};
use lua_value::value::{Value, ValueError, MID_STR_MAX};

fn integer(i: i64) -> Value {
    Value::Integer(i)
}

fn float(f: f64) -> Value {
    Value::Float(f.to_bits())
}

fn bytes_of_len(n: usize) -> Vec<u8> {
    (0..n).map(|i| (i % 251) as u8 + 1).collect()
}

#[test]
fn integer_float_cross_equality() {
    assert!(integer(1).equals(&float(1.0)));
    assert!(float(1.0).equals(&integer(1)));
    assert!(!integer(1).same(&float(1.0)));
    assert!(!integer(1).equals(&float(1.5)));
    assert!(integer(1).same(&integer(1)));
    assert!(integer(-7).equals(&float(-7.0)));
    assert!(integer(0).equals(&float(-0.0)));
}

#[test]
fn integer_float_rejects_nan_infinity_and_out_of_range() {
    assert!(!integer(0).equals(&float(f64::NAN)));
    assert!(!integer(i64::MAX).equals(&float(f64::INFINITY)));
    assert!(!integer(i64::MIN).equals(&float(f64::NEG_INFINITY)));
    assert!(!integer(i64::MAX).equals(&float(18446744073709551616.0)));
    assert!(!integer(i64::MIN).equals(&float(-18446744073709551616.0)));
    assert!(integer(i64::MIN).equals(&float(-9223372036854775808.0)));
    assert!(!integer(i64::MAX).equals(&float(9223372036854775808.0)));
    assert!(!float(9223372036854775808.0).equals(&integer(i64::MAX)));
    assert!(integer(i64::MAX) != float(9223372036854775808.0));
}

#[test]
fn integer_float_equality_is_exact_value_equality() {
    let ints = [0i64, 1, -1, 3, 1 << 53, (1 << 53) + 1, i64::MAX, i64::MAX - 1, i64::MIN, i64::MIN + 1];
    let floats = [
        0.0f64, -0.0, 1.0, -1.0, 0.5, 3.0, 9007199254740992.0, 9007199254740994.0,
        9223372036854775808.0, -9223372036854775808.0, 1e300, 5e-324, f64::NAN, f64::INFINITY,
    ];
    for &i in ints.iter() {
        for &f in floats.iter() {
            // the float is finite, whole, and of the integer's value (i128 holds
            // every i64 exactly and saturates only far beyond it)
            let expected = f.is_finite() && f.fract() == 0.0 && (f as i128) == (i as i128);
            assert_eq!(integer(i).equals(&float(f)), expected, "{} vs {}", i, f);
            assert_eq!(float_to_int(f.to_bits()) == Some(i), expected, "{} vs {}", i, f);
        }
    }
}

#[test]
fn float_float_equality_is_ieee() {
    assert!(float(2.5).equals(&float(2.5)));
    assert!(float(0.0).equals(&float(-0.0)));
    assert!(!float(f64::NAN).equals(&float(f64::NAN)));
    assert!(!float(1.0).equals(&float(2.0)));
    assert!(float_equal(f64::INFINITY.to_bits(), f64::INFINITY.to_bits()));
    assert!(!float_equal(f64::NAN.to_bits(), 1.0f64.to_bits()));
}

#[test]
fn float_to_int_values() {
    assert_eq!(float_to_int(3.0f64.to_bits()), Some(3));
    assert_eq!(float_to_int((-4096.0f64).to_bits()), Some(-4096));
    assert_eq!(float_to_int(0.25f64.to_bits()), None);
    assert_eq!(float_to_int(9223372036854775808.0f64.to_bits()), None);
    assert_eq!(float_to_int((-9223372036854775808.0f64).to_bits()), Some(i64::MIN));
    assert_eq!(float_to_int(f64::NAN.to_bits()), None);
    assert_eq!(float_to_int(4503599627370497.0f64.to_bits()), Some(4503599627370497));
}

#[test]
fn equal_values_hash_equal() {
    assert_eq!(integer(1).hash(), float(1.0).hash());
    assert_eq!(float(0.0).hash(), float(-0.0).hash());
    assert_eq!(integer(0).hash(), float(-0.0).hash());
    assert_eq!(Value::from_str("abc").hash(), Value::from_bytes(b"abc").hash());
    assert_eq!(Value::Nil.hash(), Value::Nil.hash());
    assert_eq!(float(2.5).hash(), float(2.5).hash());
    assert_ne!(integer(1).hash(), integer(2).hash());
}

#[test]
fn round_trip_at_size_class_boundaries() {
    for &n in [0usize, 13, 14, 15, 47, 48, 49].iter() {
        let bytes = bytes_of_len(n);
        let v = Value::from_bytes(&bytes);
        assert_eq!(v.as_bytes(), Ok(&bytes[..]));
        let w = Value::from_vec(bytes.clone());
        assert_eq!(w.as_bytes(), Ok(&bytes[..]));
        match (&v, &w) {
            (Value::ShortStr(_, _), Value::ShortStr(_, _)) => assert!(n <= 14),
            (Value::MidStr(_), Value::MidStr(_)) => assert!(n >= 15 && n <= 47),
            (Value::LongStr(_), Value::LongStr(_)) => assert!(n >= 48),
            _ => panic!("unexpected size class for length {}", n),
        }
    }
}

#[test]
fn size_class_does_not_affect_equality_or_hash() {
    let bytes = bytes_of_len(10);
    let short = Value::from_bytes(&bytes);
    assert!(matches!(short, Value::ShortStr(_, _)));
    let mut buf = [0u8; MID_STR_MAX];
    buf[..10].copy_from_slice(&bytes);
    let mid = Value::MidStr(Rc::new((10, buf)));
    let long = Value::LongStr(Rc::new(bytes.clone()));
    assert!(short.equals(&mid));
    assert!(mid.equals(&long));
    assert!(long.equals(&short));
    assert_eq!(short.hash(), mid.hash());
    assert_eq!(short.hash(), long.hash());
    assert!(!short.same(&mid));
}

#[test]
fn tables_compare_by_identity() {
    let mut tables = Tables::new();
    let a = tables.new_table(0, 0);
    let b = tables.new_table(0, 0);
    assert!(!a.equals(&b));
    let c = a.clone();
    assert!(a.equals(&c));
    assert!(a.same(&c));
    assert!(tables.get(&a).is_some());
    assert!(tables.get(&integer(0)).is_none());
}

#[test]
fn nil_is_not_false() {
    assert!(!Value::Nil.equals(&Value::Boolean(false)));
    assert!(Value::Nil.equals(&Value::Nil));
    assert!(!Value::Boolean(true).equals(&Value::Boolean(false)));
}

#[test]
fn decoding_a_non_string_fails() {
    assert_eq!(integer(5).as_bytes(), Err(ValueError::InvalidStringAccess));
    assert_eq!(integer(5).as_text(), Err(ValueError::InvalidStringAccess));
    assert_eq!(Value::Nil.as_bytes(), Err(ValueError::InvalidStringAccess));
}

#[test]
fn text_decoding_is_strict() {
    assert_eq!(Value::from_str("héllo").as_text(), Ok("héllo".to_string()));
    assert_eq!(Value::from_bytes(&[0x66, 0xff, 0x6f]).as_text(), Err(ValueError::InvalidEncoding));
}

#[test]
fn clone_keeps_contents() {
    let long = Value::from_bytes(&bytes_of_len(60));
    let copy = long.clone();
    assert!(copy.equals(&long));
    assert_eq!(copy.as_bytes(), long.as_bytes());
    let short = Value::from_str("x");
    assert_eq!(short.clone().as_bytes(), Ok(&b"x"[..]));
}

#[test]
fn display_rendering() {
    assert_eq!(Value::Nil.display_bytes(b""), b"nil".to_vec());
    assert_eq!(Value::Boolean(true).display_bytes(b""), b"true".to_vec());
    assert_eq!(Value::Boolean(false).display_bytes(b""), b"false".to_vec());
    assert_eq!(integer(-120).display_bytes(b""), b"-120".to_vec());
    assert_eq!(integer(i64::MIN).display_bytes(b""), b"-9223372036854775808".to_vec());
    assert_eq!(integer(0).display_bytes(b""), b"0".to_vec());
    assert_eq!(float(1.5).display_bytes(b"1.5"), b"1.5".to_vec());
    assert_eq!(Value::from_str("hi").display_bytes(b""), b"hi".to_vec());
    assert_eq!(Value::Table(3).display_bytes(b""), b"table: 3".to_vec());
    assert_eq!(Value::Function(9).display_bytes(b""), b"function".to_vec());
}

#[test]
fn debug_rendering() {
    let mut tables = Tables::new();
    let t = tables.new_table(4, 2);
    assert_eq!(t.debug_bytes(&tables, b""), b"table:0:0".to_vec());
    assert_eq!(Value::from_str("ab").debug_bytes(&tables, b""), b"'ab'".to_vec());
    let mid = Value::from_bytes(&[b'm'; 20]);
    let mut expected = vec![b'"'];
    expected.extend_from_slice(&[b'm'; 20]);
    expected.push(b'"');
    assert_eq!(mid.debug_bytes(&tables, b""), expected);
    let long = Value::from_bytes(&[b'l'; 50]);
    let mut expected = b"'''".to_vec();
    expected.extend_from_slice(&[b'l'; 50]);
    expected.extend_from_slice(b"'''");
    assert_eq!(long.debug_bytes(&tables, b""), expected);
    assert_eq!(integer(42).debug_bytes(&tables, b""), b"42".to_vec());
}

#[test]
fn new_table_is_empty() {
    let t = Table::new(8, 8);
    assert!(t.array.is_empty());
    assert!(t.map.is_empty());
}

#[test]
fn table_keys_are_unique_under_value_equality() {
    let mut t = Table::new(0, 4);
    t.set(integer(1), Value::from_str("one"));
    t.set(float(1.0), Value::from_str("uno"));
    assert_eq!(t.map.len(), 1);
    assert_eq!(t.get(&integer(1)).unwrap().as_bytes(), Ok(&b"uno"[..]));
    t.set(Value::from_str("k"), Value::Boolean(true));
    assert_eq!(t.map.len(), 2);
    assert!(t.get(&Value::from_bytes(b"k")).unwrap().equals(&Value::Boolean(true)));
    assert!(t.get(&integer(2)).is_none());
    assert_eq!(t.find(&Value::from_str("k")), Some(1));
}

#[test]
fn arena_set_touches_only_its_table() {
    let mut tables = Tables::new();
    let a = tables.new_table(0, 0);
    let b = tables.new_table(0, 0);
    tables.set(&a, Value::from_str("x"), integer(10));
    assert_eq!(tables.get(&a).unwrap().map.len(), 1);
    assert_eq!(tables.get(&b).unwrap().map.len(), 0);
    assert_eq!(a.debug_bytes(&tables, b""), b"table:0:1".to_vec());
}

#[test]
fn conversions_from_primitives() {
    assert!(matches!(Value::from(true), Value::Boolean(true)));
    assert!(matches!(Value::from(-3i64), Value::Integer(-3)));
    assert!(matches!(Value::from(()), Value::Nil));
    assert!(matches!(Value::from_str("a long identifier, forty chars or so!!"), Value::MidStr(_)));
}

#[test]
fn equality_operator_follows_value_equality() {
    assert!(integer(1) == float(1.0));
    assert!(float(1.0) == integer(1));
    assert!(integer(1) != float(1.5));
    assert!(integer(9007199254740993) != float(9007199254740992.0));
    assert!(Value::Nil != Value::Boolean(false));
    assert!(float(f64::NAN) != float(f64::NAN));
    assert!(Value::from_str("1") != integer(1));
    assert!(Value::Function(4) == Value::Function(4).clone());
    let mut tables = Tables::new();
    let a = tables.new_table(0, 0);
    let b = tables.new_table(0, 0);
    assert!(a != b);
    assert!(a == a.clone());
}

#[test]
fn string_buffers_are_zero_padded() {
    match Value::from_bytes(b"abc") {
        Value::ShortStr(len, buf) => {
            assert_eq!(len, 3);
            assert!(buf[3..].iter().all(|&b| b == 0));
        }
        _ => panic!("expected a short string"),
    }
    match Value::from_bytes(&[7u8; 20]) {
        Value::MidStr(s) => {
            assert_eq!(s.0, 20);
            assert!(s.1[20..].iter().all(|&b| b == 0));
        }
        _ => panic!("expected a mid string"),
    }
}

#[test]
fn lossy_text_replaces_invalid_sequences() {
    assert_eq!(Value::from_bytes(&[0x66, 0xff, 0x6f]).as_lossy_text(), Ok("f\u{fffd}o".to_string()));
    assert_eq!(Value::from_str("plain").as_lossy_text(), Ok("plain".to_string()));
    assert_eq!(integer(5).as_lossy_text(), Err(ValueError::InvalidStringAccess));
}

#[test]
fn table_remove_takes_out_matching_entry() {
    let mut t = Table::new(0, 0);
    t.set(integer(2), Value::from_str("two"));
    t.set(Value::from_str("k"), integer(9));
    let removed = t.remove(&float(2.0));
    assert_eq!(removed.unwrap().as_bytes(), Ok(&b"two"[..]));
    assert_eq!(t.map.len(), 1);
    assert!(t.get(&integer(2)).is_none());
    assert!(t.remove(&integer(2)).is_none());
    assert_eq!(t.map.len(), 1);
    assert!(t.get(&Value::from_str("k")).unwrap().equals(&integer(9)));
}
