//! Facts that relate equality, identity and hashing across the value kinds.
use vstd::prelude::*;
use crate::ieee::{
    exact_int, exp_field, float_as_exact_int, float_eq, float_to_i64_cast, frac_field, int_to_float_value,
    is_infinite, is_nan, is_zero, two_pow_63, lemma_int_float_eq_excludes, lemma_int_float_eq_is_cast_round_trip,
};
use crate::value::{equals, hash_input, hash_of, same, Value};

verus! {

proof fn lemma_zero_fields(b: u64)
    requires
        is_zero(b),
    ensures
        exp_field(b) == 0,
        frac_field(b) == 0,
        exact_int(b) == Some(0int),
{
    assert(((b >> 52u64) & 0x7ffu64) == 0 && (b & 0xf_ffff_ffff_ffffu64) == 0) by (bit_vector)
        requires
            b & 0x7fff_ffff_ffff_ffffu64 == 0,
    ;
}

/// An Integer and a Float are equal exactly when the float is the integer's
/// value, in either order. Equivalently, when the float's value is that of
/// `i as f64` and `f as i64` gives back `i`, the float `2^63` aside; so never
/// for NaN, an infinity or a float out of reach of `i64`.
pub proof fn lemma_integer_float_equality(i: i64, f: u64)
    ensures
        equals(Value::Integer(i), Value::Float(f)) <==> exact_int(f) == Some(i as int),
        equals(Value::Integer(i), Value::Float(f)) <==> (exact_int(f) == Some(
            int_to_float_value(i as int),
        ) && float_to_i64_cast(f) == i && exact_int(f) != Some(two_pow_63())),
        equals(Value::Float(f), Value::Integer(i)) == equals(Value::Integer(i), Value::Float(f)),
        is_nan(f) || is_infinite(f) || (exact_int(f) matches Some(v) && (v < i64::MIN || v
            > i64::MAX)) ==> !equals(Value::Integer(i), Value::Float(f)),
{
    lemma_int_float_eq_is_cast_round_trip(i, f);
    if is_nan(f) || is_infinite(f) || (exact_int(f) matches Some(v) && (v < i64::MIN || v
        > i64::MAX)) {
        lemma_int_float_eq_excludes(i, f);
    }
}

/// Equal floats have the same canonical integer, if any.
proof fn lemma_float_eq_canonical(x: u64, y: u64)
    requires
        float_eq(x, y),
    ensures
        float_as_exact_int(x) == float_as_exact_int(y),
        float_as_exact_int(x) is None ==> x == y,
{
    if x != y {
        lemma_zero_fields(x);
        lemma_zero_fields(y);
    }
}

/// Value equality is symmetric.
pub proof fn lemma_equals_symmetric(a: Value, b: Value)
    ensures
        equals(a, b) == equals(b, a),
{
}

/// Values that compare equal have equal hashes.
pub proof fn lemma_equal_values_hash_equal(a: Value, b: Value)
    requires
        equals(a, b),
    ensures
        hash_of(a) == hash_of(b),
{
    match (a, b) {
        (Value::Float(x), Value::Float(y)) => {
            lemma_float_eq_canonical(x, y);
        },
        _ => {},
    }
    assert(hash_input(a) =~= hash_input(b));
}

/// Two strings with the same bytes are equal and hash alike, whatever size
/// class each is stored in.
pub proof fn lemma_size_class_irrelevant(a: Value, b: Value)
    requires
        a.is_string(),
        b.is_string(),
        a.str_bytes() == b.str_bytes(),
    ensures
        equals(a, b),
        hash_of(a) == hash_of(b),
{
    lemma_equal_values_hash_equal(a, b);
}

/// Table values are equal exactly when they refer to the same table, so a
/// copy of a table value is equal to it and tables built apart are not.
pub proof fn lemma_tables_by_identity(a: Value, b: Value)
    requires
        a is Table,
        b is Table,
    ensures
        equals(a, b) <==> a->Table_0 == b->Table_0,
        a == b ==> equals(a, b),
{
}

/// Strict identity implies equality, and differs from it only between an
/// Integer and a Float or between strings of different size classes.
pub proof fn lemma_same_is_narrower(a: Value, b: Value)
    ensures
        same(a, b) ==> equals(a, b),
        equals(a, b) && !same(a, b) ==> ((a is Integer && b is Float) || (a is Float && b is Integer)
            || (a.is_string() && b.is_string())),
{
}

} // verus!
