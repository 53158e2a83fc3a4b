use super::expr_mutation::ExprMutation;
use super::expr_row::ExprRow;
use super::value::Value;
use vstd::prelude::*;

verus! {

/// A comparison between two expressions.
#[derive(Clone, Copy, Debug, PartialEq, Eq, Structural)]
pub enum BinaryOp {
    Eq,
    Ne,
}

/// A reference to a column or model of the statement's source.
#[derive(Clone, Copy, Debug, PartialEq, Eq, Structural)]
pub enum ExprReference {
    /// A column of a table in scope, `nesting` scopes out.
    Column { nesting: usize, table: usize, column: usize },
    /// The model in scope, `nesting` scopes out.
    Model { nesting: usize },
}

/// An expression.
#[derive(Debug)]
pub enum Expr {
    /// A constant.
    Value(Value),
    /// A record of expressions.
    Record(Vec<Expr>),
    /// All of the operands hold.
    And(Vec<Expr>),
    /// Any of the operands holds.
    Or(Vec<Expr>),
    /// The operand does not hold.
    Not(Box<Expr>),
    /// A comparison.
    BinaryOp { lhs: Box<Expr>, op: BinaryOp, rhs: Box<Expr> },
    /// A field of a record-valued expression.
    Project { base: Box<Expr>, field: usize },
    /// A reference to the statement's source.
    Reference(ExprReference),
    /// A qualified row such as the pre-update row.
    Row(ExprRow),
    /// A row image of an update.
    Mutation(ExprMutation),
}

/// What a search through an expression looks for.
#[derive(Clone, Copy, Debug, PartialEq, Eq, Structural)]
pub enum Leaf {
    /// A pre-update row, [`ExprRow::Old`].
    OldRow,
    /// A reference to the statement's source.
    Reference,
}

/// Whether `e` itself is what `leaf` looks for.
pub open spec fn is_leaf(e: Expr, leaf: Leaf) -> bool {
    match leaf {
        Leaf::OldRow => e matches Expr::Row(ExprRow::Old(_)),
        Leaf::Reference => e is Reference,
    }
}

/// Whether `e` or one of its sub-expressions is what `leaf` looks for.
pub open spec fn expr_contains(e: Expr, leaf: Leaf) -> bool
    decreases e, 1nat,
{
    is_leaf(e, leaf) || match e {
        Expr::Record(v) => exprs_contain(v@, leaf),
        Expr::And(v) => exprs_contain(v@, leaf),
        Expr::Or(v) => exprs_contain(v@, leaf),
        Expr::Not(b) => expr_contains(*b, leaf),
        Expr::BinaryOp { lhs, rhs, .. } => expr_contains(*lhs, leaf) || expr_contains(*rhs, leaf),
        Expr::Project { base, .. } => expr_contains(*base, leaf),
        _ => false,
    }
}

/// Whether one of `s` contains what `leaf` looks for.
pub open spec fn exprs_contain(s: Seq<Expr>, leaf: Leaf) -> bool
    decreases s, 0nat,
{
    if s.len() == 0 {
        false
    } else {
        exprs_contain(s.drop_last(), leaf) || expr_contains(s.last(), leaf)
    }
}

/// Searches `e` for what `leaf` looks for.
pub fn contains(e: &Expr, leaf: Leaf) -> (r: bool)
    ensures
        r == expr_contains(*e, leaf),
    decreases e,
{
    let here = match leaf {
        Leaf::OldRow => matches!(e, Expr::Row(ExprRow::Old(_))),
        Leaf::Reference => matches!(e, Expr::Reference(_)),
    };
    if here {
        return true;
    }
    match e {
        Expr::Record(v) => contains_any(v, leaf),
        Expr::And(v) => contains_any(v, leaf),
        Expr::Or(v) => contains_any(v, leaf),
        Expr::Not(b) => contains(b, leaf),
        Expr::BinaryOp { lhs, rhs, .. } => contains(lhs, leaf) || contains(rhs, leaf),
        Expr::Project { base, .. } => contains(base, leaf),
        _ => false,
    }
}

fn contains_any(v: &Vec<Expr>, leaf: Leaf) -> (r: bool)
    ensures
        r == exprs_contain(v@, leaf),
    decreases v,
{
    let mut i: usize = 0;
    while i < v.len()
        invariant
            i <= v@.len(),
            !exprs_contain(v@.take(i as int), leaf),
        decreases v@.len() - i,
    {
        proof {
            assert(decreases_to!(v => v@[i as int]));
        }
        assert(v@.take(i + 1).drop_last() =~= v@.take(i as int));
        if contains(&v[i], leaf) {
            proof {
                lemma_contains_prefix(v@, leaf, i + 1);
            }
            return true;
        }
        i = i + 1;
    }
    assert(v@.take(v@.len() as int) =~= v@);
    false
}

/// A prefix that contains `leaf` makes the whole sequence contain it.
proof fn lemma_contains_prefix(s: Seq<Expr>, leaf: Leaf, n: int)
    requires
        0 <= n <= s.len(),
        exprs_contain(s.take(n), leaf),
    ensures
        exprs_contain(s, leaf),
    decreases s.len(),
{
    if n < s.len() {
        assert(s.drop_last().take(n) =~= s.take(n));
        lemma_contains_prefix(s.drop_last(), leaf, n);
    } else {
        assert(s.take(n) =~= s);
    }
}

impl Expr {
    /// The null constant.
    pub fn null() -> (r: Expr)
        ensures
            r matches Expr::Value(Value::Null),
    {
        Expr::Value(Value::Null)
    }

    /// A record of the given expressions.
    pub fn record(items: Vec<Expr>) -> (r: Expr)
        ensures
            r == Expr::Record(items),
    {
        Expr::Record(items)
    }
}

proof fn lemma_exprs_contain_any(s: Seq<Expr>, leaf: Leaf)
    ensures
        exprs_contain(s, leaf) <==> exists|i: int| 0 <= i < s.len() && expr_contains(#[trigger] s[i], leaf),
    decreases s.len(),
{
    if s.len() > 0 {
        lemma_exprs_contain_any(s.drop_last(), leaf);
        if exists|i: int| 0 <= i < s.len() && expr_contains(#[trigger] s[i], leaf) {
            let i = choose|i: int| 0 <= i < s.len() && expr_contains(#[trigger] s[i], leaf);
            if i < s.len() - 1 {
                assert(s.drop_last()[i] == s[i]);
            }
        }
        if exprs_contain(s.drop_last(), leaf) {
            let i = choose|i: int| 0 <= i < s.drop_last().len() && expr_contains(#[trigger] s.drop_last()[i], leaf);
            assert(s[i] == s.drop_last()[i]);
        }
        if expr_contains(s.last(), leaf) {
            assert(expr_contains(s[s.len() - 1], leaf));
        }
    }
}

/// A record, a conjunction or a disjunction contains what `leaf` looks for
/// exactly when one of its operands does, wherever it stands.
pub proof fn law_contains_any_operand(v: Vec<Expr>, leaf: Leaf)
    ensures
        expr_contains(Expr::Record(v), leaf) <==> exists|i: int|
            0 <= i < v@.len() && expr_contains(#[trigger] v@[i], leaf),
        expr_contains(Expr::And(v), leaf) <==> exists|i: int|
            0 <= i < v@.len() && expr_contains(#[trigger] v@[i], leaf),
        expr_contains(Expr::Or(v), leaf) <==> exists|i: int|
            0 <= i < v@.len() && expr_contains(#[trigger] v@[i], leaf),
{
    lemma_exprs_contain_any(v@, leaf);
}

} // verus!
