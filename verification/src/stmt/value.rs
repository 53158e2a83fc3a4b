use vstd::prelude::*;

verus! {

/// A value that statements read and write.
#[derive(Debug)]
pub enum Value {
    Null,
    Bool(bool),
    I64(i64),
    U64(u64),
    String(String),
    List(Vec<Value>),
    Record(Vec<Value>),
}

/// Whether two values are equal, elementwise for lists and records.
pub open spec fn values_equal(a: Value, b: Value) -> bool
    decreases a, 1nat,
{
    match a {
        Value::Null => b is Null,
        Value::Bool(x) => b matches Value::Bool(y) && x == y,
        Value::I64(x) => b matches Value::I64(y) && x == y,
        Value::U64(x) => b matches Value::U64(y) && x == y,
        Value::String(x) => b matches Value::String(y) && x@ == y@,
        Value::List(xs) => b matches Value::List(ys) && seqs_equal(xs@, ys@),
        Value::Record(xs) => b matches Value::Record(ys) && seqs_equal(xs@, ys@),
    }
}

/// Whether two sequences of values are equal elementwise.
pub open spec fn seqs_equal(xs: Seq<Value>, ys: Seq<Value>) -> bool
    decreases xs, 0nat,
{
    if xs.len() != ys.len() {
        false
    } else if xs.len() == 0 {
        true
    } else {
        seqs_equal(xs.drop_last(), ys.drop_last()) && values_equal(xs.last(), ys.last())
    }
}

/// Whether two values are equal, elementwise for lists and records.
pub fn value_eq(a: &Value, b: &Value) -> (r: bool)
    ensures
        r == values_equal(*a, *b),
    decreases a,
{
    match a {
        Value::Null => matches!(b, Value::Null),
        Value::Bool(x) => match b {
            Value::Bool(y) => *x == *y,
            _ => false,
        },
        Value::I64(x) => match b {
            Value::I64(y) => *x == *y,
            _ => false,
        },
        Value::U64(x) => match b {
            Value::U64(y) => *x == *y,
            _ => false,
        },
        Value::String(x) => match b {
            Value::String(y) => x.eq(y),
            _ => false,
        },
        Value::List(xs) => match b {
            Value::List(ys) => values_eq(xs, ys),
            _ => false,
        },
        Value::Record(xs) => match b {
            Value::Record(ys) => values_eq(xs, ys),
            _ => false,
        },
    }
}

fn values_eq(xs: &Vec<Value>, ys: &Vec<Value>) -> (r: bool)
    ensures
        r == seqs_equal(xs@, ys@),
    decreases xs,
{
    if xs.len() != ys.len() {
        return false;
    }
    let mut i: usize = 0;
    while i < xs.len()
        invariant
            xs@.len() == ys@.len(),
            i <= xs@.len(),
            seqs_equal(xs@.take(i as int), ys@.take(i as int)),
        decreases xs@.len() - i,
    {
        proof {
            assert(decreases_to!(xs => xs@[i as int]));
        }
        let e = value_eq(&xs[i], &ys[i]);
        assert(xs@.take(i + 1).drop_last() =~= xs@.take(i as int));
        assert(ys@.take(i + 1).drop_last() =~= ys@.take(i as int));
        if !e {
            proof {
                if seqs_equal(xs@, ys@) {
                    lemma_seqs_equal_prefix(xs@, ys@, i + 1);
                }
            }
            return false;
        }
        i = i + 1;
    }
    assert(xs@.take(xs@.len() as int) =~= xs@);
    assert(ys@.take(ys@.len() as int) =~= ys@);
    true
}

/// Sequences that are equal have equal prefixes.
proof fn lemma_seqs_equal_prefix(xs: Seq<Value>, ys: Seq<Value>, n: int)
    requires
        0 <= n <= xs.len(),
        seqs_equal(xs, ys),
    ensures
        seqs_equal(xs.take(n), ys.take(n)),
    decreases xs.len(),
{
    if n < xs.len() {
        lemma_seqs_equal_prefix(xs.drop_last(), ys.drop_last(), n);
        assert(xs.drop_last().take(n) =~= xs.take(n));
        assert(ys.drop_last().take(n) =~= ys.take(n));
    } else {
        assert(xs.take(n) =~= xs);
        assert(ys.take(n) =~= ys);
    }
}

proof fn lemma_seqs_equal_elementwise(xs: Seq<Value>, ys: Seq<Value>)
    ensures
        seqs_equal(xs, ys) <==> (xs.len() == ys.len() && forall|i: int|
            0 <= i < xs.len() ==> values_equal(#[trigger] xs[i], ys[i])),
    decreases xs.len(),
{
    if xs.len() == ys.len() && xs.len() > 0 {
        lemma_seqs_equal_elementwise(xs.drop_last(), ys.drop_last());
        if forall|i: int| 0 <= i < xs.len() ==> values_equal(#[trigger] xs[i], ys[i]) {
            assert forall|i: int| 0 <= i < xs.drop_last().len() implies values_equal(
                #[trigger] xs.drop_last()[i],
                ys.drop_last()[i],
            ) by {
                assert(values_equal(xs[i], ys[i]));
            }
            assert(values_equal(xs[xs.len() - 1], ys[ys.len() - 1]));
        }
        if seqs_equal(xs, ys) {
            assert forall|i: int| 0 <= i < xs.len() implies values_equal(#[trigger] xs[i], ys[i]) by {
                if i < xs.len() - 1 {
                    assert(xs.drop_last()[i] == xs[i] && ys.drop_last()[i] == ys[i]);
                }
            }
        }
    }
}

/// Two lists, and two records, are equal exactly when they have the same
/// length and are equal at every position.
pub proof fn law_values_equal_elementwise(xs: Vec<Value>, ys: Vec<Value>)
    ensures
        values_equal(Value::List(xs), Value::List(ys)) <==> (xs@.len() == ys@.len() && forall|i: int|
            0 <= i < xs@.len() ==> values_equal(#[trigger] xs@[i], ys@[i])),
        values_equal(Value::Record(xs), Value::Record(ys)) <==> (xs@.len() == ys@.len() && forall|i: int|
            0 <= i < xs@.len() ==> values_equal(#[trigger] xs@[i], ys@[i])),
{
    lemma_seqs_equal_elementwise(xs@, ys@);
}

/// Every value equals itself.
pub proof fn law_values_equal_reflexive(a: Value)
    ensures
        values_equal(a, a),
    decreases a,
{
    match a {
        Value::List(xs) => {
            assert forall|i: int| 0 <= i < xs@.len() implies values_equal(#[trigger] xs@[i], xs@[i]) by {
                law_values_equal_reflexive(xs@[i]);
            }
            lemma_seqs_equal_elementwise(xs@, xs@);
        },
        Value::Record(xs) => {
            assert forall|i: int| 0 <= i < xs@.len() implies values_equal(#[trigger] xs@[i], xs@[i]) by {
                law_values_equal_reflexive(xs@[i]);
            }
            lemma_seqs_equal_elementwise(xs@, xs@);
        },
        _ => {},
    }
}

} // verus!
