use std::hash::Hasher;

use irvm::error::Error;
use irvm::ops::Ops;
use irvm::value::{Primitive, Value};

fn integer(i: i64) -> Value {
    Value::Integer(i)
}

fn text(s: &str) -> Value {
    Value::String(s.to_string())
}

#[test]
fn add_integers_and_strings() {
    assert_eq!(integer(2).add(integer(3)).unwrap(), integer(5));
    assert_eq!(text("ab").add(text("cd")).unwrap(), text("abcd"));
    assert!(matches!(integer(2).add(text("x")), Err(Error::OpUnimplemented)));
    assert!(matches!(Value::Bool(true).add(Value::Bool(false)), Err(Error::OpUnimplemented)));
}

#[test]
fn sub_and_mul_integers() {
    assert_eq!(integer(10).sub(integer(15)).unwrap(), integer(-5));
    assert_eq!(integer(-6).mul(integer(7)).unwrap(), integer(-42));
    assert!(matches!(text("a").sub(text("b")), Err(Error::OpUnimplemented)));
    assert!(matches!(text("a").mul(integer(2)), Err(Error::OpUnimplemented)));
}

#[test]
fn div_and_mod_round_toward_zero() {
    assert_eq!(integer(7).div(integer(2)).unwrap(), integer(3));
    assert_eq!(integer(-7).div(integer(2)).unwrap(), integer(-3));
    assert_eq!(integer(7).div(integer(-2)).unwrap(), integer(-3));
    assert_eq!(integer(-7).div(integer(-2)).unwrap(), integer(3));
    assert_eq!(integer(-7).mod_(integer(2)).unwrap(), integer(-1));
    assert_eq!(integer(7).mod_(integer(-2)).unwrap(), integer(1));
    assert_eq!(integer(i64::MIN).div(integer(2)).unwrap(), integer(i64::MIN / 2));
    assert!(matches!(Value::Null.div(integer(2)), Err(Error::OpUnimplemented)));
    assert!(matches!(integer(1).mod_(Value::Null), Err(Error::OpUnimplemented)));
}

#[test]
fn div_mod_rebuild_dividend() {
    for a in [-17i64, -5, 0, 5, 17, i64::MIN + 1, i64::MAX] {
        for b in [-3i64, -1, 1, 4, 7] {
            let q = match integer(a).div(integer(b)).unwrap() {
                Value::Integer(q) => q,
                other => panic!("{:?}", other),
            };
            let r = match integer(a).mod_(integer(b)).unwrap() {
                Value::Integer(r) => r,
                other => panic!("{:?}", other),
            };
            assert_eq!((b as i128) * (q as i128) + r as i128, a as i128);
        }
    }
}

#[test]
fn pow_of_integers() {
    assert_eq!(integer(2).pow(integer(10)).unwrap(), integer(1024));
    assert_eq!(integer(-2).pow(integer(63)).unwrap(), integer(i64::MIN));
    assert_eq!(integer(3).pow(integer(0)).unwrap(), integer(1));
    assert_eq!(integer(0).pow(integer(0)).unwrap(), integer(1));
    assert_eq!(integer(0).pow(integer(9)).unwrap(), integer(0));
    assert_eq!(integer(-1).pow(integer(5)).unwrap(), integer(-1));
    assert_eq!(integer(-1).pow(integer(6)).unwrap(), integer(1));
    // The exponent is taken modulo 2^32, as a cast to u32 does.
    assert_eq!(integer(1).pow(integer(-1)).unwrap(), integer(1));
    assert_eq!(integer(2).pow(integer((1i64 << 32) + 3)).unwrap(), integer(8));
    assert!(matches!(integer(2).pow(text("3")), Err(Error::OpUnimplemented)));
}

#[test]
fn comparisons() {
    assert_eq!(Ops::eq(integer(3), integer(3)).unwrap(), Value::Bool(true));
    assert_eq!(Ops::ne(integer(3), integer(3)).unwrap(), Value::Bool(false));
    assert_eq!(Ops::eq(text("a"), text("a")).unwrap(), Value::Bool(true));
    assert_eq!(Ops::ne(text("a"), text("b")).unwrap(), Value::Bool(true));
    assert!(matches!(Ops::eq(Value::Bool(true), Value::Bool(true)), Err(Error::OpUnimplemented)));
    assert_eq!(integer(1).gt(integer(0)).unwrap(), Value::Bool(true));
    assert_eq!(integer(1).gte(integer(1)).unwrap(), Value::Bool(true));
    assert_eq!(integer(1).lt(integer(1)).unwrap(), Value::Bool(false));
    assert_eq!(integer(0).lte(integer(1)).unwrap(), Value::Bool(true));
    assert_eq!(Value::Bool(true).gt(Value::Bool(false)).unwrap(), Value::Bool(false));
    assert_eq!(Value::Bool(false).gte(Value::Bool(true)).unwrap(), Value::Bool(true));
    assert_eq!(Value::Bool(true).lt(Value::Bool(false)).unwrap(), Value::Bool(false));
    assert_eq!(Value::Bool(false).lte(Value::Bool(true)).unwrap(), Value::Bool(true));
    assert!(matches!(text("a").lt(text("b")), Err(Error::OpUnimplemented)));
}

#[test]
fn ne_negates_eq_on_examples() {
    let pairs = [(integer(1), integer(1)), (integer(1), integer(2)), (text("x"), text("x")), (text("x"), text("y"))];
    for (a, b) in pairs.iter() {
        let e = Ops::eq(a.duplicate(), b.duplicate()).unwrap();
        let n = Ops::ne(a.duplicate(), b.duplicate()).unwrap();
        match (e, n) {
            (Value::Bool(e), Value::Bool(n)) => assert_eq!(e, !n),
            other => panic!("{:?}", other),
        }
    }
}

#[test]
fn order_complements_on_examples() {
    for a in [-2i64, 0, 3] {
        for b in [-2i64, 0, 3] {
            assert_eq!(integer(a).lt(integer(b)).unwrap(), Value::Bool(!(a >= b)));
            assert_eq!(integer(a).gte(integer(b)).unwrap(), Value::Bool(a >= b));
            assert_eq!(integer(a).gt(integer(b)).unwrap(), Value::Bool(!(a <= b)));
        }
    }
}

#[test]
fn boolean_operations() {
    assert_eq!(Value::Bool(true).and(Value::Bool(false)).unwrap(), Value::Bool(false));
    assert_eq!(Value::Bool(true).or(Value::Bool(false)).unwrap(), Value::Bool(true));
    assert_eq!(Value::Bool(true).not().unwrap(), Value::Bool(false));
    assert!(matches!(integer(1).and(integer(1)), Err(Error::OpUnimplemented)));
    assert!(matches!(integer(1).not(), Err(Error::OpUnimplemented)));
}

#[test]
fn negation() {
    assert_eq!(integer(5).neg().unwrap(), integer(-5));
    assert_eq!(integer(-5).neg().unwrap().neg().unwrap(), integer(-5));
    assert!(matches!(Value::Bool(true).neg(), Err(Error::OpUnimplemented)));
}

#[test]
fn sub_undoes_add_on_examples() {
    for (a, b) in [(3i64, 4i64), (-10, 7), (i64::MAX - 1, 1)] {
        let sum = integer(a).add(integer(b)).unwrap();
        assert_eq!(sum.sub(integer(b)).unwrap(), integer(a));
    }
}

fn sample_array() -> Value {
    Value::Array(vec![integer(1), text("two"), Value::Array(vec![Value::Null])])
}

fn sample_dictionary() -> Value {
    Value::Dictionary(vec![("a".to_string(), integer(1)), ("b".to_string(), text("bee"))])
}

#[test]
fn membership() {
    assert_eq!(sample_array().in_(text("two")).unwrap(), Value::Bool(true));
    assert_eq!(sample_array().in_(Value::Array(vec![Value::Null])).unwrap(), Value::Bool(true));
    assert_eq!(sample_array().in_(integer(2)).unwrap(), Value::Bool(false));
    assert_eq!(sample_dictionary().in_(text("b")).unwrap(), Value::Bool(true));
    assert_eq!(sample_dictionary().in_(text("c")).unwrap(), Value::Bool(false));
    assert!(matches!(sample_dictionary().in_(integer(1)), Err(Error::OpUnimplemented)));
    assert!(matches!(integer(1).in_(integer(1)), Err(Error::OpUnimplemented)));
}

#[test]
fn indexing() {
    assert_eq!(sample_array().index(integer(1)).unwrap(), text("two"));
    assert!(matches!(sample_array().index(integer(3)), Err(Error::IndexOutOfBounds(3, 3))));
    assert!(matches!(
        sample_array().index(integer(-1)),
        Err(Error::IndexOutOfBounds(i, 3)) if i == usize::MAX
    ));
    assert_eq!(sample_dictionary().index(text("b")).unwrap(), text("bee"));
    match sample_dictionary().index(text("z")) {
        Err(Error::EntryNotFound(key)) => assert_eq!(key, "z"),
        other => panic!("{:?}", other),
    }
    assert!(matches!(sample_array().index(text("a")), Err(Error::OpUnimplemented)));
}

#[test]
fn dictionary_in_matches_index() {
    for key in ["a", "b", "c"] {
        let held = sample_dictionary().in_(text(key)).unwrap();
        let found = sample_dictionary().index(text(key)).is_ok();
        assert_eq!(held, Value::Bool(found));
    }
}

#[test]
fn call_is_not_defined_for_values() {
    assert!(matches!(integer(1).call(&[]), Err(Error::OpUnimplemented)));
}

#[test]
fn equality_and_copies() {
    let v = sample_array();
    assert!(v.equals(&v.duplicate()));
    assert_eq!(v.clone(), v);
    assert_eq!(sample_dictionary().duplicate(), sample_dictionary());
    assert_ne!(sample_array(), sample_dictionary());
    assert_ne!(Value::Array(vec![integer(1)]), Value::Array(vec![integer(1), integer(2)]));
    assert_ne!(text("a"), text("b"));
}

#[test]
fn primitives_convert_to_values() {
    assert_eq!(Value::from(Primitive::Undefined), Value::Null);
    assert_eq!(Value::from(Primitive::Boolean(true)), Value::Bool(true));
    assert_eq!(Value::from(Primitive::Byte(7)), Value::Byte(7));
    assert_eq!(Value::from(Primitive::Integer(-3)), integer(-3));
    assert_eq!(Value::from(Primitive::Char('q')), Value::Char('q'));
    assert_eq!(Value::from(Primitive::String("s".to_string())), text("s"));
    assert_eq!(Primitive::default(), Primitive::Undefined);
}

#[test]
fn primitives_display() {
    assert_eq!(Primitive::Integer(-123).to_display_string(), "-123");
    assert_eq!(Primitive::Integer(0).to_display_string(), "0");
    assert_eq!(Primitive::Integer(i64::MIN).to_display_string(), i64::MIN.to_string());
    assert_eq!(Primitive::Integer(i64::MAX).to_display_string(), i64::MAX.to_string());
    assert_eq!(Primitive::Byte(255).to_display_string(), "255");
    assert_eq!(Primitive::Boolean(true).to_display_string(), "true");
    assert_eq!(Primitive::Boolean(false).to_display_string(), "false");
    assert_eq!(Primitive::Char('x').to_display_string(), "x");
    assert_eq!(Primitive::String("hi".to_string()).to_display_string(), "hi");
    assert_eq!(Primitive::Undefined.to_display_string(), "Undefined");
}

fn hash_of<T: std::hash::Hash + ?Sized>(t: &T) -> u64 {
    let mut h = std::collections::hash_map::DefaultHasher::new();
    t.hash(&mut h);
    h.finish()
}

#[test]
fn primitives_hash_their_contents_alone() {
    assert_eq!(hash_of(&Primitive::Integer(5)), hash_of(&5i64));
    assert_eq!(hash_of(&Primitive::Boolean(true)), hash_of(&true));
    assert_eq!(hash_of(&Primitive::Byte(9)), hash_of(&9u8));
    assert_eq!(hash_of(&Primitive::Char('c')), hash_of(&'c'));
    assert_eq!(hash_of(&Primitive::String("s".to_string())), hash_of(&"s".to_string()));
    assert_eq!(hash_of(&Primitive::Undefined), hash_of(&1i32));
}

fn pairs(entries: &[(&str, i64)]) -> Value {
    Value::Dictionary(entries.iter().map(|(k, v)| (k.to_string(), integer(*v))).collect())
}

#[test]
fn dictionaries_compare_as_maps() {
    assert_eq!(pairs(&[("a", 1), ("b", 2)]), pairs(&[("b", 2), ("a", 1)]));
    assert_ne!(pairs(&[("a", 1), ("b", 2)]), pairs(&[("a", 1), ("b", 3)]));
    assert_ne!(pairs(&[("a", 1)]), pairs(&[("a", 1), ("b", 2)]));
    assert_ne!(pairs(&[("a", 1), ("b", 2)]), pairs(&[("a", 1)]));
    // A later entry under the same key is shadowed by the first one.
    assert_eq!(pairs(&[("a", 1), ("a", 5)]), pairs(&[("a", 1)]));
    let array = Value::Array(vec![pairs(&[("a", 1), ("b", 2)])]);
    assert_eq!(array.in_(pairs(&[("b", 2), ("a", 1)])).unwrap(), Value::Bool(true));
}

#[test]
fn dictionary_reads_the_first_entry_under_a_key() {
    assert_eq!(pairs(&[("a", 1), ("a", 5)]).index(text("a")).unwrap(), integer(1));
    assert_eq!(pairs(&[("a", 1), ("a", 5)]).in_(text("a")).unwrap(), Value::Bool(true));
}
