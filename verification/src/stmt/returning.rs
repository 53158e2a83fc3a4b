use super::expr::{contains, expr_contains, law_contains_any_operand, Expr, Leaf};
use super::value::Value;
use vstd::prelude::*;

verus! {

/// An association to load eagerly with a returned model.
#[derive(Debug)]
pub struct Include {
    /// The field of the model that holds the association.
    pub field: usize,
    /// An optional filter on the associated records.
    pub filter: Option<Expr>,
}

/// Selects values before or after a mutation.
#[derive(Clone, Copy, Debug, PartialEq, Eq, Structural)]
pub enum RowImage {
    /// Values before the mutation.
    Old,
    /// Values after the mutation.
    New,
}

/// Controls the number of values produced by a returning clause.
#[derive(Clone, Copy, Debug, PartialEq, Eq, Structural)]
pub enum ReturningCardinality {
    /// Return every projected value in a list.
    List,
    /// Return at most one projected value.
    Single,
}

impl Default for ReturningCardinality {
    fn default() -> (r: Self)
        ensures
            r == ReturningCardinality::List,
    {
        ReturningCardinality::List
    }
}

/// The value produced by a returning clause.
#[derive(Debug)]
pub enum ReturningExpr {
    /// Return the full model with the specified association includes.
    Model {
        /// Which mutation row image supplies the model fields.
        image: RowImage,
        /// Associations that should be eagerly loaded.
        includes: Vec<Include>,
    },
    /// Return whether the operation changed any rows.
    Changed,
    /// Return the number of rows affected by a mutation.
    Count,
    /// Return the result of evaluating an expression against the source rows.
    Project(Expr),
    /// Return a fixed expression, independent of the statement source.
    Expr(Expr),
}

/// Specifies what data a statement returns.
///
/// Used both as the projection in `SELECT` queries and as the `RETURNING`
/// clause in `INSERT`, `UPDATE`, and `DELETE` statements.
#[derive(Debug)]
pub struct Returning {
    /// The value returned for each affected row.
    pub expr: ReturningExpr,
    /// Whether the statement returns a list or at most one value.
    pub cardinality: ReturningCardinality,
}

/// Whether a returning clause reads pre-mutation values: it returns the old
/// model, or it projects an expression that refers to the pre-update row.
pub open spec fn spec_uses_old(r: Returning) -> bool {
    match r.expr {
        ReturningExpr::Model { image, .. } => image == RowImage::Old,
        ReturningExpr::Project(e) => expr_contains(e, Leaf::OldRow),
        _ => false,
    }
}

/// Whether a returning clause reads post-mutation values: it returns the
/// current model, or it projects an expression that refers to the source.
pub open spec fn spec_uses_new(r: Returning) -> bool {
    match r.expr {
        ReturningExpr::Model { image, .. } => image == RowImage::New,
        ReturningExpr::Project(e) => expr_contains(e, Leaf::Reference),
        _ => false,
    }
}

impl Returning {
    /// Creates a returning clause with list cardinality.
    pub fn new(expr: ReturningExpr) -> (r: Self)
        ensures
            r == (Returning { expr, cardinality: ReturningCardinality::List }),
    {
        Returning { expr, cardinality: ReturningCardinality::List }
    }

    /// Returns the current model without association includes.
    pub fn model() -> (r: Self)
        ensures
            r.expr matches ReturningExpr::Model { image, includes } && image == RowImage::New
                && includes@.len() == 0,
            r.cardinality == ReturningCardinality::List,
    {
        Self::new(ReturningExpr::Model { image: RowImage::New, includes: Vec::new() })
    }

    /// Returns the model's pre-mutation values without association includes.
    pub fn old_model() -> (r: Self)
        ensures
            r.expr matches ReturningExpr::Model { image, includes } && image == RowImage::Old
                && includes@.len() == 0,
            r.cardinality == ReturningCardinality::List,
    {
        Self::new(ReturningExpr::Model { image: RowImage::Old, includes: Vec::new() })
    }

    /// Changes the output cardinality to at most one value.
    pub fn single(self) -> (r: Self)
        ensures
            r == (Returning { expr: self.expr, cardinality: ReturningCardinality::Single }),
    {
        let mut s = self;
        s.cardinality = ReturningCardinality::Single;
        s
    }

    /// Returns `true` when this clause produces at most one value.
    pub fn is_single(&self) -> (r: bool)
        ensures
            r == (self.cardinality == ReturningCardinality::Single),
    {
        self.cardinality == ReturningCardinality::Single
    }

    /// Returns a projection evaluated against each source row.
    pub fn project(expr: Expr) -> (r: Self)
        ensures
            r == (Returning { expr: ReturningExpr::Project(expr), cardinality: ReturningCardinality::List }),
    {
        Self::new(ReturningExpr::Project(expr))
    }

    /// Returns an expression independent of the statement source.
    pub fn expression(expr: Expr) -> (r: Self)
        ensures
            r == (Returning { expr: ReturningExpr::Expr(expr), cardinality: ReturningCardinality::List }),
    {
        Self::new(ReturningExpr::Expr(expr))
    }

    /// Returns whether the mutation changed any rows.
    pub fn changed() -> (r: Self)
        ensures
            r == (Returning { expr: ReturningExpr::Changed, cardinality: ReturningCardinality::List }),
    {
        Self::new(ReturningExpr::Changed)
    }

    /// Returns the number of rows affected by the mutation.
    pub fn count() -> (r: Self)
        ensures
            r == (Returning { expr: ReturningExpr::Count, cardinality: ReturningCardinality::List }),
    {
        Self::new(ReturningExpr::Count)
    }

    /// Creates a projection of a record of the given expressions.
    pub fn from_project_iter(items: Vec<Expr>) -> (r: Self)
        ensures
            r == (Returning {
                expr: ReturningExpr::Project(Expr::Record(items)),
                cardinality: ReturningCardinality::List,
            }),
    {
        Returning::project(Expr::record(items))
    }

    /// Returns `true` if this returns a current or pre-update model.
    pub fn is_model(&self) -> (r: bool)
        ensures
            r == (self.expr is Model),
    {
        matches!(self.expr, ReturningExpr::Model { .. })
    }

    /// Returns the association includes for current or old models.
    pub fn model_includes(&self) -> (r: &[Include])
        ensures
            match self.expr {
                ReturningExpr::Model { includes, .. } => r@ == includes@,
                _ => r@.len() == 0,
            },
    {
        match &self.expr {
            ReturningExpr::Model { includes, .. } => includes.as_slice(),
            _ => &[],
        }
    }

    /// Returns `true` if this is the `Changed` variant.
    pub fn is_changed(&self) -> (r: bool)
        ensures
            r == (self.expr is Changed),
    {
        matches!(self.expr, ReturningExpr::Changed)
    }

    /// Returns `true` if this is the `Count` variant.
    pub fn is_count(&self) -> (r: bool)
        ensures
            r == (self.expr is Count),
    {
        matches!(self.expr, ReturningExpr::Count)
    }

    /// Returns `true` if this is the `Project` variant.
    pub fn is_project(&self) -> (r: bool)
        ensures
            r == (self.expr is Project),
    {
        matches!(self.expr, ReturningExpr::Project(_))
    }

    /// Returns `true` if this is the `Expr` variant.
    pub fn is_expr(&self) -> (r: bool)
        ensures
            r == (self.expr is Expr),
    {
        matches!(self.expr, ReturningExpr::Expr(..))
    }

    /// Returns a reference to the inner expression if this is the `Project`
    /// variant.
    pub fn as_project(&self) -> (r: Option<&Expr>)
        ensures
            match self.expr {
                ReturningExpr::Project(e) => r == Some(&e),
                _ => r is None,
            },
    {
        match &self.expr {
            ReturningExpr::Project(expr) => Some(expr),
            _ => None,
        }
    }

    /// Returns a reference to the inner expression of a `Project` clause.
    pub fn as_project_unwrap(&self) -> (r: &Expr)
        requires
            self.expr is Project,
        ensures
            self.expr == ReturningExpr::Project(*r),
    {
        match &self.expr {
            ReturningExpr::Project(expr) => expr,
            _ => vstd::pervasive::unreached(),
        }
    }

    /// Returns `true` when this clause reads pre-mutation values.
    pub fn uses_old(&self) -> (r: bool)
        ensures
            r == spec_uses_old(*self),
    {
        match &self.expr {
            ReturningExpr::Model { image, .. } => *image == RowImage::Old,
            ReturningExpr::Project(expr) => contains(expr, Leaf::OldRow),
            _ => false,
        }
    }

    /// Returns `true` when this clause reads post-mutation values.
    pub fn uses_new(&self) -> (r: bool)
        ensures
            r == spec_uses_new(*self),
    {
        match &self.expr {
            ReturningExpr::Model { image, .. } => *image == RowImage::New,
            ReturningExpr::Project(expr) => contains(expr, Leaf::Reference),
            _ => false,
        }
    }

    /// Replaces this clause with a projection of `expr`, keeping its
    /// cardinality.
    pub fn set_project(&mut self, expr: Expr)
        ensures
            *final(self) == (Returning {
                expr: ReturningExpr::Project(expr),
                cardinality: old(self).cardinality,
            }),
    {
        let cardinality = self.cardinality;
        *self = Returning::project(expr);
        self.cardinality = cardinality;
    }

    /// Takes this returning clause, replaces it with a null projection with
    /// the same cardinality, and returns the original value.
    pub fn take(&mut self) -> (r: Returning)
        ensures
            r == *old(self),
            final(self).expr matches ReturningExpr::Project(e) && e matches Expr::Value(Value::Null),
            final(self).cardinality == old(self).cardinality,
    {
        let cardinality = self.cardinality;
        let mut other = Returning { expr: ReturningExpr::Project(Expr::null()), cardinality };
        std::mem::swap(self, &mut other);
        other
    }

    /// Returns a mutable reference to a model clause's includes.
    pub fn model_includes_mut_unwrap(&mut self) -> (r: &mut Vec<Include>)
        requires
            old(self).expr is Model,
        ensures
            old(self).expr matches ReturningExpr::Model { image, includes } && *r == includes
                && *final(self) == (Returning {
                expr: ReturningExpr::Model { image, includes: *final(r) },
                cardinality: old(self).cardinality,
            }),
    {
        match &mut self.expr {
            ReturningExpr::Model { includes, .. } => includes,
            _ => vstd::pervasive::unreached(),
        }
    }

    /// Returns a mutable reference to the inner expression if this is the
    /// `Project` variant.
    pub fn as_project_mut(&mut self) -> (r: Option<&mut Expr>)
        ensures
            match old(self).expr {
                ReturningExpr::Project(e) => r matches Some(x) && *x == e && *final(self) == (Returning {
                    expr: ReturningExpr::Project(*final(x)),
                    cardinality: old(self).cardinality,
                }),
                _ => r is None && *final(self) == *old(self),
            },
    {
        match &mut self.expr {
            ReturningExpr::Project(expr) => Some(expr),
            _ => None,
        }
    }

    /// Returns a mutable reference to the inner expression of a `Project`
    /// clause.
    pub fn as_project_mut_unwrap(&mut self) -> (r: &mut Expr)
        requires
            old(self).expr is Project,
        ensures
            old(self).expr == ReturningExpr::Project(*r),
            *final(self) == (Returning {
                expr: ReturningExpr::Project(*final(r)),
                cardinality: old(self).cardinality,
            }),
    {
        match &mut self.expr {
            ReturningExpr::Project(expr) => expr,
            _ => vstd::pervasive::unreached(),
        }
    }
}

/// A clause that projects a record reads the old row exactly when one of
/// the record's fields refers to it, and the new row exactly when one of
/// them refers to the statement's source, whatever the field's position.
pub proof fn law_record_projection_uses(fields: Vec<Expr>, cardinality: ReturningCardinality)
    ensures
        spec_uses_old(Returning { expr: ReturningExpr::Project(Expr::Record(fields)), cardinality })
            <==> exists|i: int| 0 <= i < fields@.len() && expr_contains(#[trigger] fields@[i], Leaf::OldRow),
        spec_uses_new(Returning { expr: ReturningExpr::Project(Expr::Record(fields)), cardinality })
            <==> exists|i: int| 0 <= i < fields@.len() && expr_contains(#[trigger] fields@[i], Leaf::Reference),
{
    law_contains_any_operand(fields, Leaf::OldRow);
    law_contains_any_operand(fields, Leaf::Reference);
}

} // verus!
