use super::expr::{BinaryOp, Expr, ExprReference};
use super::value::{value_eq, values_equal, Value};
use crate::error::{Error, ErrorKind};
use vstd::prelude::*;

verus! {

/// The error that evaluating an expression that cannot be evaluated gives.
pub open spec fn is_evaluation_error(e: Error) -> bool {
    e.spec_kind() matches ErrorKind::ExpressionEvaluationFailed(m) && m@ == "cannot evaluate expression"@
}

/// The value of an operand of a comparison over `record`: a constant, or
/// the referenced column of the record.
pub open spec fn spec_eval_value(e: Expr, record: Seq<Value>) -> Option<Value> {
    match e {
        Expr::Value(v) => Some(v),
        Expr::Reference(ExprReference::Column { column, .. }) => if column < record.len() {
            Some(record[column as int])
        } else {
            None
        },
        _ => None,
    }
}

/// The truth value of `e` over `record`, or `None` when it cannot be
/// evaluated. Conjunctions and disjunctions go left to right and stop at the
/// first operand that decides them.
pub open spec fn spec_eval_bool(e: Expr, record: Seq<Value>) -> Option<bool>
    decreases e, 1nat,
{
    match e {
        Expr::Value(_) => match spec_eval_value(e, record) {
            Some(Value::Bool(b)) => Some(b),
            _ => None,
        },
        Expr::Reference(_) => match spec_eval_value(e, record) {
            Some(Value::Bool(b)) => Some(b),
            _ => None,
        },
        Expr::Not(b) => match spec_eval_bool(*b, record) {
            Some(x) => Some(!x),
            None => None,
        },
        Expr::And(v) => spec_eval_all(v@, record, true),
        Expr::Or(v) => spec_eval_all(v@, record, false),
        Expr::BinaryOp { lhs, op, rhs } => match (spec_eval_value(*lhs, record), spec_eval_value(*rhs, record)) {
            (Some(a), Some(b)) => Some(
                match op {
                    BinaryOp::Eq => values_equal(a, b),
                    BinaryOp::Ne => !values_equal(a, b),
                },
            ),
            _ => None,
        },
        _ => None,
    }
}

/// The conjunction (`unit == true`) or disjunction (`unit == false`) of `s`,
/// evaluated left to right, stopping at the first operand that is not
/// `unit`.
pub open spec fn spec_eval_all(s: Seq<Expr>, record: Seq<Value>, unit: bool) -> Option<bool>
    decreases s, 0nat,
{
    if s.len() == 0 {
        Some(unit)
    } else {
        match spec_eval_bool(s[0], record) {
            None => None,
            Some(b) => if b == unit {
                spec_eval_all(s.drop_first(), record, unit)
            } else {
                Some(b)
            },
        }
    }
}

fn eval_error() -> (r: Error)
    ensures
        is_evaluation_error(r),
{
    Error::expression_evaluation_failed("cannot evaluate expression")
}

/// Evaluates an operand of a comparison.
pub fn eval_value<'a>(e: &'a Expr, record: &'a Vec<Value>) -> (r: Result<&'a Value, Error>)
    ensures
        match spec_eval_value(*e, record@) {
            Some(v) => r matches Ok(x) && *x == v,
            None => r matches Err(err) && is_evaluation_error(err),
        },
{
    match e {
        Expr::Value(v) => Ok(v),
        Expr::Reference(ExprReference::Column { column, .. }) => {
            if *column < record.len() {
                Ok(&record[*column])
            } else {
                Err(eval_error())
            }
        },
        _ => Err(eval_error()),
    }
}

/// Evaluates `e` over `record` to a truth value.
pub fn eval_bool(e: &Expr, record: &Vec<Value>) -> (r: Result<bool, Error>)
    ensures
        match spec_eval_bool(*e, record@) {
            Some(b) => r == Ok::<bool, Error>(b),
            None => r matches Err(err) && is_evaluation_error(err),
        },
    decreases e,
{
    match e {
        Expr::Value(_) | Expr::Reference(_) => match eval_value(e, record) {
            Ok(Value::Bool(b)) => Ok(*b),
            Ok(_) => Err(eval_error()),
            Err(err) => Err(err),
        },
        Expr::Not(b) => match eval_bool(b, record) {
            Ok(x) => Ok(!x),
            Err(err) => Err(err),
        },
        Expr::And(v) => eval_all(v, record, true),
        Expr::Or(v) => eval_all(v, record, false),
        Expr::BinaryOp { lhs, op, rhs } => {
            let a = match eval_value(lhs, record) {
                Ok(a) => a,
                Err(err) => return Err(err),
            };
            let b = match eval_value(rhs, record) {
                Ok(b) => b,
                Err(err) => return Err(err),
            };
            let eq = value_eq(a, b);
            match op {
                BinaryOp::Eq => Ok(eq),
                BinaryOp::Ne => Ok(!eq),
            }
        },
        _ => Err(eval_error()),
    }
}

fn eval_all(v: &Vec<Expr>, record: &Vec<Value>, unit: bool) -> (r: Result<bool, Error>)
    ensures
        match spec_eval_all(v@, record@, unit) {
            Some(b) => r == Ok::<bool, Error>(b),
            None => r matches Err(err) && is_evaluation_error(err),
        },
    decreases v,
{
    let mut i: usize = 0;
    assert(v@.skip(0) =~= v@);
    while i < v.len()
        invariant
            i <= v@.len(),
            spec_eval_all(v@, record@, unit) == spec_eval_all(v@.skip(i as int), record@, unit),
        decreases v@.len() - i,
    {
        proof {
            assert(decreases_to!(v => v@[i as int]));
        }
        assert(v@.skip(i as int)[0] == v@[i as int]);
        assert(v@.skip(i as int).drop_first() =~= v@.skip(i + 1));
        match eval_bool(&v[i], record) {
            Err(err) => return Err(err),
            Ok(b) => {
                if b != unit {
                    return Ok(b);
                }
            },
        }
        i = i + 1;
    }
    assert(v@.skip(i as int).len() == 0);
    Ok(unit)
}

proof fn lemma_eval_all_operands(s: Seq<Expr>, record: Seq<Value>, unit: bool)
    ensures
        spec_eval_all(s, record, unit) == Some(unit) <==> forall|i: int|
            0 <= i < s.len() ==> spec_eval_bool(#[trigger] s[i], record) == Some(unit),
        (forall|i: int| 0 <= i < s.len() ==> (#[trigger] spec_eval_bool(s[i], record)) is Some) && (exists|i: int|
            0 <= i < s.len() && spec_eval_bool(#[trigger] s[i], record) == Some(!unit)) ==> spec_eval_all(
            s,
            record,
            unit,
        ) == Some(!unit),
    decreases s.len(),
{
    if s.len() > 0 {
        let t = s.drop_first();
        lemma_eval_all_operands(t, record, unit);
        assert forall|i: int| 0 <= i < t.len() implies #[trigger] t[i] == s[i + 1] by {}
        if forall|i: int| 0 <= i < s.len() ==> spec_eval_bool(#[trigger] s[i], record) == Some(unit) {
            assert(spec_eval_bool(s[0], record) == Some(unit));
            assert forall|i: int| 0 <= i < t.len() implies spec_eval_bool(#[trigger] t[i], record) == Some(unit) by {
                assert(spec_eval_bool(s[i + 1], record) == Some(unit));
            }
        }
        if spec_eval_all(s, record, unit) == Some(unit) {
            assert(spec_eval_bool(s[0], record) == Some(unit));
            assert forall|i: int| 0 <= i < s.len() implies spec_eval_bool(#[trigger] s[i], record) == Some(unit) by {
                if i > 0 {
                    assert(t[i - 1] == s[i]);
                }
            }
        }
        if (forall|i: int| 0 <= i < s.len() ==> (#[trigger] spec_eval_bool(s[i], record)) is Some) && (exists|i: int|
            0 <= i < s.len() && spec_eval_bool(#[trigger] s[i], record) == Some(!unit)) {
            assert((spec_eval_bool(s[0], record)) is Some);
            if spec_eval_bool(s[0], record) == Some(unit) {
                let k = choose|i: int| 0 <= i < s.len() && spec_eval_bool(#[trigger] s[i], record) == Some(!unit);
                assert(k > 0);
                assert(t[k - 1] == s[k]);
                assert forall|i: int| 0 <= i < t.len() implies (#[trigger] spec_eval_bool(t[i], record)) is Some by {
                    assert(t[i] == s[i + 1]);
                    assert(spec_eval_bool(s[i + 1], record) is Some);
                }
            }
        }
    }
}

/// A conjunction holds exactly when every operand holds, and fails when
/// every operand can be evaluated and some operand, wherever it stands,
/// fails; a disjunction fails exactly when every operand fails, and holds
/// when every operand can be evaluated and some operand holds.
pub proof fn law_and_or_over_all_operands(v: Vec<Expr>, record: Seq<Value>)
    ensures
        spec_eval_bool(Expr::And(v), record) == Some(true) <==> forall|i: int|
            0 <= i < v@.len() ==> spec_eval_bool(#[trigger] v@[i], record) == Some(true),
        spec_eval_bool(Expr::Or(v), record) == Some(false) <==> forall|i: int|
            0 <= i < v@.len() ==> spec_eval_bool(#[trigger] v@[i], record) == Some(false),
        (forall|i: int| 0 <= i < v@.len() ==> (#[trigger] spec_eval_bool(v@[i], record)) is Some) ==> {
            &&& (exists|i: int| 0 <= i < v@.len() && spec_eval_bool(#[trigger] v@[i], record) == Some(false))
                ==> spec_eval_bool(Expr::And(v), record) == Some(false)
            &&& (exists|i: int| 0 <= i < v@.len() && spec_eval_bool(#[trigger] v@[i], record) == Some(true))
                ==> spec_eval_bool(Expr::Or(v), record) == Some(true)
        },
{
    lemma_eval_all_operands(v@, record, true);
    lemma_eval_all_operands(v@, record, false);
}

} // verus!
