//! The three-valued logic of Cypher and the operators that test values without computing
//! with them: `AND`, `OR`, `XOR`, `NOT`, `IS NULL`, `IS NOT NULL`, `STARTS WITH`,
//! `ENDS WITH` and `CONTAINS`. A value that is neither a boolean nor `null` counts as unknown.
use crate::query::value::{Value, ValueView};
use crate::text::{contains, ends_with, seq_contains, seq_ends_with, seq_starts_with, starts_with};
use vstd::prelude::*;

verus! {

/// `a AND b`: false when either side is false, true when both are true, otherwise `null`.
pub open spec fn and_value(a: ValueView, b: ValueView) -> ValueView {
    if a == ValueView::Bool(false) || b == ValueView::Bool(false) {
        ValueView::Bool(false)
    } else if a == ValueView::Bool(true) && b == ValueView::Bool(true) {
        ValueView::Bool(true)
    } else {
        ValueView::Null
    }
}

/// `a OR b`: true when either side is true, false when both are false, otherwise `null`.
pub open spec fn or_value(a: ValueView, b: ValueView) -> ValueView {
    if a == ValueView::Bool(true) || b == ValueView::Bool(true) {
        ValueView::Bool(true)
    } else if a == ValueView::Bool(false) && b == ValueView::Bool(false) {
        ValueView::Bool(false)
    } else {
        ValueView::Null
    }
}

/// `a XOR b`: defined on two booleans, otherwise `null`.
pub open spec fn xor_value(a: ValueView, b: ValueView) -> ValueView {
    match (a, b) {
        (ValueView::Bool(x), ValueView::Bool(y)) => ValueView::Bool(x != y),
        _ => ValueView::Null,
    }
}

/// `NOT a`: defined on a boolean, otherwise `null`.
pub open spec fn not_value(a: ValueView) -> ValueView {
    match a {
        ValueView::Bool(x) => ValueView::Bool(!x),
        _ => ValueView::Null,
    }
}

/// The string operators: `STARTS WITH`, `ENDS WITH` and `CONTAINS`.
pub enum StringOperator {
    StartsWith,
    EndsWith,
    Contains,
}

/// A string operator on two strings; `null` when either side is not a string.
pub open spec fn string_op_value(op: StringOperator, a: ValueView, b: ValueView) -> ValueView {
    match (a, b) {
        (ValueView::String(l), ValueView::String(r)) => ValueView::Bool(
            match op {
                StringOperator::StartsWith => seq_starts_with(l, r),
                StringOperator::EndsWith => seq_ends_with(l, r),
                StringOperator::Contains => seq_contains(l, r),
            },
        ),
        _ => ValueView::Null,
    }
}

/// `a AND b`.
pub fn and_values(a: &Value, b: &Value) -> (r: Value)
    ensures
        r@ == and_value(a@, b@),
{
    match (a, b) {
        (Value::Bool(false), _) | (_, Value::Bool(false)) => Value::Bool(false),
        (Value::Bool(true), Value::Bool(true)) => Value::Bool(true),
        _ => Value::Null,
    }
}

/// `a OR b`.
pub fn or_values(a: &Value, b: &Value) -> (r: Value)
    ensures
        r@ == or_value(a@, b@),
{
    match (a, b) {
        (Value::Bool(true), _) | (_, Value::Bool(true)) => Value::Bool(true),
        (Value::Bool(false), Value::Bool(false)) => Value::Bool(false),
        _ => Value::Null,
    }
}

/// `a XOR b`.
pub fn xor_values(a: &Value, b: &Value) -> (r: Value)
    ensures
        r@ == xor_value(a@, b@),
{
    match (a, b) {
        (Value::Bool(x), Value::Bool(y)) => Value::Bool(*x != *y),
        _ => Value::Null,
    }
}

/// `NOT a`.
pub fn not_values(a: &Value) -> (r: Value)
    ensures
        r@ == not_value(a@),
{
    match a {
        Value::Bool(x) => Value::Bool(!*x),
        _ => Value::Null,
    }
}

/// `a IS NULL` (`negated`: `a IS NOT NULL`).
pub fn is_null_values(a: &Value, negated: bool) -> (r: Value)
    ensures
        r@ == ValueView::Bool((a@ is Null) != negated),
{
    let null = match a {
        Value::Null => true,
        _ => false,
    };
    Value::Bool(null != negated)
}

/// A string operator on two values.
pub fn string_op_values(op: StringOperator, a: &Value, b: &Value) -> (r: Value)
    ensures
        r@ == string_op_value(op, a@, b@),
{
    match (a, b) {
        (Value::String(l), Value::String(r)) => Value::Bool(
            match op {
                StringOperator::StartsWith => starts_with(l.as_str(), r.as_str()),
                StringOperator::EndsWith => ends_with(l.as_str(), r.as_str()),
                StringOperator::Contains => contains(l.as_str(), r.as_str()),
            },
        ),
        _ => Value::Null,
    }
}

/// `AND`, `OR` and `XOR` give the same value with their sides swapped.
pub proof fn law_connectives_commute(a: ValueView, b: ValueView)
    ensures
        and_value(a, b) == and_value(b, a),
        or_value(a, b) == or_value(b, a),
        xor_value(a, b) == xor_value(b, a),
{
}

/// De Morgan's laws hold in the three-valued logic, for every pair of values.
pub proof fn law_de_morgan(a: ValueView, b: ValueView)
    ensures
        not_value(and_value(a, b)) == or_value(not_value(a), not_value(b)),
        not_value(or_value(a, b)) == and_value(not_value(a), not_value(b)),
{
}

/// `false` decides an `AND` and `true` an `OR`, whatever the other side is, `null` included;
/// `true` leaves an `AND` and `false` an `OR` to the other side when it is a boolean or
/// `null`; `NOT NOT` gives a boolean back.
pub proof fn law_connectives_short_circuit(a: ValueView, b: bool)
    ensures
        and_value(ValueView::Bool(false), a) == ValueView::Bool(false),
        or_value(ValueView::Bool(true), a) == ValueView::Bool(true),
        and_value(ValueView::Bool(true), ValueView::Bool(b)) == ValueView::Bool(b),
        or_value(ValueView::Bool(false), ValueView::Bool(b)) == ValueView::Bool(b),
        and_value(ValueView::Bool(true), ValueView::Null) == ValueView::Null,
        or_value(ValueView::Bool(false), ValueView::Null) == ValueView::Null,
        not_value(not_value(ValueView::Bool(b))) == ValueView::Bool(b),
        not_value(ValueView::Bool(true)) == ValueView::Bool(false),
{
}

/// On two booleans, XOR is true exactly when they differ: it is `(a OR b) AND NOT (a AND b)`,
/// a value XOR itself is false, and XOR with false gives the other side back.
pub proof fn law_xor_is_true_when_sides_differ(a: bool, b: bool)
    ensures
        xor_value(ValueView::Bool(a), ValueView::Bool(b)) == and_value(
            or_value(ValueView::Bool(a), ValueView::Bool(b)),
            not_value(and_value(ValueView::Bool(a), ValueView::Bool(b))),
        ),
        xor_value(ValueView::Bool(a), ValueView::Bool(a)) == ValueView::Bool(false),
        xor_value(ValueView::Bool(a), ValueView::Bool(false)) == ValueView::Bool(a),
        xor_value(ValueView::Bool(a), ValueView::Bool(true)) == not_value(ValueView::Bool(a)),
{
}

} // verus!
