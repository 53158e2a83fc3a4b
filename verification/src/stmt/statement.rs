use super::expr::{expr_contains, Expr, Leaf};
use super::returning::{spec_uses_new, spec_uses_old, Returning, ReturningExpr};
use super::value::Value;
use vstd::prelude::*;

verus! {

/// A `DELETE` statement.
#[derive(Debug)]
pub struct Delete {
    /// Which rows to delete.
    pub filter: Expr,
    /// What the statement returns, if anything.
    pub returning: Option<Returning>,
}

/// An `INSERT` statement.
#[derive(Debug)]
pub struct Insert {
    /// The rows to insert.
    pub values: Values,
    /// What the statement returns, if anything.
    pub returning: Option<Returning>,
}

/// An `UPDATE` statement.
#[derive(Debug)]
pub struct Update {
    /// Which rows to update.
    pub filter: Expr,
    /// What the statement returns, if anything.
    pub returning: Option<Returning>,
}

/// A `SELECT` body.
#[derive(Debug)]
pub struct Select {
    /// Which rows to select.
    pub filter: Expr,
    /// The projection.
    pub returning: Returning,
}

/// A `VALUES` body: literal rows.
#[derive(Debug)]
pub struct Values {
    pub rows: Vec<Expr>,
}

/// The body of a query.
#[derive(Debug)]
pub enum ExprSet {
    Select(Box<Select>),
    Values(Values),
    /// A set operation (such as `UNION`) over queries.
    SetOp(Vec<Query>),
}

/// A query.
#[derive(Debug)]
pub struct Query {
    pub body: ExprSet,
}

/// A statement.
#[derive(Debug)]
pub enum Statement {
    Delete(Delete),
    Insert(Insert),
    Query(Query),
    Update(Update),
}

impl Query {
    /// The query's returning clause: the projection of a `SELECT`.
    pub open spec fn spec_returning(&self) -> Option<Returning> {
        match self.body {
            ExprSet::Select(select) => Some(select.returning),
            _ => None,
        }
    }

    /// This query with the projection of its `SELECT` body replaced by `r`.
    pub open spec fn with_returning(self, r: Returning) -> Query {
        match self.body {
            ExprSet::Select(select) => Query {
                body: ExprSet::Select(Box::new(Select { filter: select.filter, returning: r })),
            },
            _ => self,
        }
    }

    /// Returns a reference to this query's `RETURNING` clause, if present.
    ///
    /// Returns `Some` only for `SELECT` queries.
    pub fn returning(&self) -> (r: Option<&Returning>)
        ensures
            match self.spec_returning() {
                Some(x) => r == Some(&x),
                None => r is None,
            },
    {
        match &self.body {
            ExprSet::Select(select) => Some(&select.returning),
            _ => None,
        }
    }

    /// Returns a reference to this query's `RETURNING` clause.
    pub fn returning_unwrap(&self) -> (r: &Returning)
        requires
            self.spec_returning() is Some,
        ensures
            self.spec_returning() == Some(*r),
    {
        match &self.body {
            ExprSet::Select(select) => &select.returning,
            _ => vstd::pervasive::unreached(),
        }
    }

    /// Returns a mutable reference to this query's `RETURNING` clause, if
    /// present.
    pub fn returning_mut(&mut self) -> (r: Option<&mut Returning>)
        ensures
            match old(self).spec_returning() {
                Some(x) => r matches Some(m) && *m == x && *final(self) == old(self).with_returning(*final(m)),
                None => r is None && *final(self) == *old(self),
            },
    {
        match &mut self.body {
            ExprSet::Select(select) => Some(&mut select.returning),
            _ => None,
        }
    }

    /// Returns a mutable reference to this query's `RETURNING` clause.
    pub fn returning_mut_unwrap(&mut self) -> (r: &mut Returning)
        requires
            old(self).spec_returning() is Some,
        ensures
            old(self).spec_returning() == Some(*r),
            *final(self) == old(self).with_returning(*final(r)),
    {
        match &mut self.body {
            ExprSet::Select(select) => &mut select.returning,
            _ => vstd::pervasive::unreached(),
        }
    }
}

impl Statement {
    /// The statement's returning clause, if any.
    pub open spec fn spec_returning(&self) -> Option<Returning> {
        match *self {
            Statement::Delete(d) => d.returning,
            Statement::Insert(i) => i.returning,
            Statement::Query(q) => q.spec_returning(),
            Statement::Update(u) => u.returning,
        }
    }

    /// This statement with its returning clause set to `r` (for a query,
    /// only a `SELECT` has one to set).
    pub open spec fn with_returning(self, r: Option<Returning>) -> Statement {
        match self {
            Statement::Delete(d) => Statement::Delete(Delete { filter: d.filter, returning: r }),
            Statement::Insert(i) => Statement::Insert(Insert { values: i.values, returning: r }),
            Statement::Query(q) => match r {
                Some(x) => Statement::Query(q.with_returning(x)),
                None => Statement::Query(q),
            },
            Statement::Update(u) => Statement::Update(Update { filter: u.filter, returning: r }),
        }
    }

    /// Returns a reference to this statement's `RETURNING` clause, if present.
    pub fn returning(&self) -> (r: Option<&Returning>)
        ensures
            match self.spec_returning() {
                Some(x) => r == Some(&x),
                None => r is None,
            },
    {
        match self {
            Statement::Delete(delete) => delete.returning.as_ref(),
            Statement::Insert(insert) => insert.returning.as_ref(),
            Statement::Query(query) => query.returning(),
            Statement::Update(update) => update.returning.as_ref(),
        }
    }

    /// Takes the `RETURNING` clause. A `SELECT` keeps a null projection with
    /// the same cardinality in its place; a `VALUES` query has none to take.
    pub fn take_returning(&mut self) -> (r: Option<Returning>)
        requires
            !(*old(self) matches Statement::Query(q) && q.body is SetOp),
        ensures
            r == old(self).spec_returning(),
            match *old(self) {
                Statement::Query(q) => match q.spec_returning() {
                    Some(x) => *final(self) == Statement::Query(q.with_returning(Returning {
                        expr: ReturningExpr::Project(Expr::Value(Value::Null)),
                        cardinality: x.cardinality,
                    })),
                    None => *final(self) == *old(self),
                },
                _ => *final(self) == old(self).with_returning(None),
            },
    {
        match self {
            Statement::Delete(delete) => delete.returning.take(),
            Statement::Insert(insert) => insert.returning.take(),
            Statement::Query(query) => match &mut query.body {
                ExprSet::Select(select) => Some(select.returning.take()),
                ExprSet::Values(..) => None,
                ExprSet::SetOp(..) => vstd::pervasive::unreached(),
            },
            Statement::Update(update) => update.returning.take(),
        }
    }

    /// Sets the `RETURNING` clause.
    pub fn set_returning(&mut self, returning: Returning)
        requires
            *old(self) matches Statement::Query(q) ==> q.spec_returning() is Some,
        ensures
            *final(self) == old(self).with_returning(Some(returning)),
    {
        match self {
            Statement::Delete(delete) => delete.returning = Some(returning),
            Statement::Insert(insert) => insert.returning = Some(returning),
            Statement::Query(query) => *query.returning_mut_unwrap() = returning,
            Statement::Update(update) => update.returning = Some(returning),
        }
    }

    /// Sets the `RETURNING` clause to a projection of `expr`.
    pub fn set_returning_project(&mut self, expr: Expr)
        requires
            *old(self) matches Statement::Query(q) ==> q.spec_returning() is Some,
        ensures
            *final(self) == old(self).with_returning(Some(Returning {
                expr: ReturningExpr::Project(expr),
                cardinality: super::returning::ReturningCardinality::List,
            })),
    {
        self.set_returning(Returning::project(expr));
    }

    /// Sets the `RETURNING` clause to a fixed expression.
    pub fn set_returning_expr(&mut self, expr: Expr)
        requires
            *old(self) matches Statement::Query(q) ==> q.spec_returning() is Some,
        ensures
            *final(self) == old(self).with_returning(Some(Returning {
                expr: ReturningExpr::Expr(expr),
                cardinality: super::returning::ReturningCardinality::List,
            })),
    {
        self.set_returning(Returning::expression(expr));
    }

    /// Returns a reference to this statement's `RETURNING` clause.
    pub fn returning_unwrap(&self) -> (r: &Returning)
        requires
            self.spec_returning() is Some,
        ensures
            self.spec_returning() == Some(*r),
    {
        match self.returning() {
            Some(r) => r,
            None => vstd::pervasive::unreached(),
        }
    }

    /// Returns a mutable reference to this statement's `RETURNING` clause,
    /// if present.
    pub fn returning_mut(&mut self) -> (r: Option<&mut Returning>)
        ensures
            match old(self).spec_returning() {
                Some(x) => r matches Some(m) && *m == x && *final(self) == old(self).with_returning(Some(*final(m))),
                None => r is None && *final(self) == *old(self),
            },
    {
        match self {
            Statement::Delete(delete) => delete.returning.as_mut(),
            Statement::Insert(insert) => insert.returning.as_mut(),
            Statement::Query(query) => query.returning_mut(),
            Statement::Update(update) => update.returning.as_mut(),
        }
    }

    /// Returns a mutable reference to this statement's `RETURNING` clause.
    pub fn returning_mut_unwrap(&mut self) -> (r: &mut Returning)
        requires
            old(self).spec_returning() is Some,
        ensures
            old(self).spec_returning() == Some(*r),
            *final(self) == old(self).with_returning(Some(*final(r))),
    {
        match self {
            Statement::Delete(delete) => delete.returning.as_mut().unwrap(),
            Statement::Insert(insert) => insert.returning.as_mut().unwrap(),
            Statement::Query(query) => query.returning_mut_unwrap(),
            Statement::Update(update) => update.returning.as_mut().unwrap(),
        }
    }
}

/// A returning clause that was set is the one read back, for every statement
/// that can hold one.
pub proof fn law_returning_read_after_set(s: Statement, r: Returning)
    requires
        s matches Statement::Query(q) ==> q.spec_returning() is Some,
    ensures
        s.with_returning(Some(r)).spec_returning() == Some(r),
{
}

/// After its returning clause is taken, a `DELETE`, `INSERT` or `UPDATE`
/// returns nothing, and a `SELECT` projects a null that reads neither the old
/// nor the new row, with the cardinality it had.
pub proof fn law_taken_returning_reads_no_row(s: Statement, cardinality: super::returning::ReturningCardinality)
    ensures
        !(s is Query) ==> s.with_returning(None).spec_returning() is None,
        ({
            let null = Returning { expr: ReturningExpr::Project(Expr::Value(Value::Null)), cardinality };
            &&& !spec_uses_old(null)
            &&& !spec_uses_new(null)
            &&& s matches Statement::Query(q) ==> (q.spec_returning() is Some ==> Statement::Query(
                q.with_returning(null),
            ).spec_returning() == Some(null))
        }),
{
    let null = Returning { expr: ReturningExpr::Project(Expr::Value(Value::Null)), cardinality };
    assert(!expr_contains(Expr::Value(Value::Null), Leaf::OldRow));
    assert(!expr_contains(Expr::Value(Value::Null), Leaf::Reference));
}

} // verus!
