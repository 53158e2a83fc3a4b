//! The decisions of the DynamoDB driver's delete-by-key operation: whether a
//! failed conditional delete is a filtered-out row or a real condition
//! failure, which write path to take, and the condition expressions it sends.

use crate::error::{Error, ErrorKind};
use crate::schema::db::{Index, Schema, Table};
use crate::stmt::eval::{eval_bool, is_evaluation_error, spec_eval_bool};
use crate::stmt::{Expr, Value};
use vstd::prelude::*;

verus! {

/// The response of a write: how many rows it affected.
#[derive(Debug, Clone, Copy, PartialEq, Eq, Structural)]
pub enum ExecResponse {
    Count(u64),
}

impl ExecResponse {
    /// A response counting `n` affected rows.
    pub fn count(n: u64) -> (r: ExecResponse)
        ensures
            r == ExecResponse::Count(n),
    {
        ExecResponse::Count(n)
    }
}

/// Whether a conditional write failed because of its filter: there is a
/// filter and either no row or a row (as a record, in column order) that the
/// filter rejects. `None` when the filter cannot be evaluated on the row.
pub open spec fn spec_filter_failed(old_item: Option<Seq<Value>>, filter: Option<Expr>) -> Option<bool> {
    match filter {
        None => Some(false),
        Some(f) => match old_item {
            None => Some(true),
            Some(rec) => match spec_eval_bool(f, rec) {
                Some(b) => Some(!b),
                None => None,
            },
        },
    }
}

/// Decides whether a conditional write failed because of its filter.
pub fn filter_failed(old_item: Option<&Vec<Value>>, filter: Option<&Expr>) -> (r: Result<bool, Error>)
    ensures
        match spec_filter_failed(
            match old_item {
                Some(v) => Some(v@),
                None => None,
            },
            match filter {
                Some(f) => Some(*f),
                None => None,
            },
        ) {
            Some(b) => r == Ok::<bool, Error>(b),
            None => r matches Err(e) && is_evaluation_error(e),
        },
{
    let filter = match filter {
        None => return Ok(false),
        Some(f) => f,
    };
    let record = match old_item {
        None => return Ok(true),
        Some(r) => r,
    };
    match eval_bool(filter, record) {
        Ok(matched) => Ok(!matched),
        Err(e) => Err(e),
    }
}

/// What a delete whose condition check failed reports: no row deleted when
/// the failure came from the filter, else a condition failure.
pub fn on_delete_item_condition_failed(item: Option<&Vec<Value>>, filter: Option<&Expr>) -> (r: Result<ExecResponse, Error>)
    ensures
        match spec_filter_failed(
            match item {
                Some(v) => Some(v@),
                None => None,
            },
            match filter {
                Some(f) => Some(*f),
                None => None,
            },
        ) {
            Some(true) => r == Ok::<ExecResponse, Error>(ExecResponse::Count(0)),
            Some(false) => r matches Err(e) && e.spec_kind() matches ErrorKind::ConditionFailed(m)
                && m@ == "DynamoDB conditional check failed"@,
            None => r matches Err(e) && is_evaluation_error(e),
        },
{
    match filter_failed(item, filter) {
        Err(e) => Err(e),
        Ok(true) => Ok(ExecResponse::count(0)),
        Ok(false) => Err(Error::condition_failed("DynamoDB conditional check failed")),
    }
}

/// The condition expression of a delete: the filter's and the condition's
/// expressions, joined by `AND` when both are present.
pub open spec fn spec_delete_condition(filter: Option<Seq<char>>, condition: Option<Seq<char>>) -> Option<Seq<char>> {
    match (filter, condition) {
        (Some(f), None) => Some(f),
        (None, Some(c)) => Some(c),
        (Some(f), Some(c)) => Some("("@ + f + ") AND ("@ + c + ")"@),
        (None, None) => None,
    }
}

pub open spec fn opt_view(s: Option<String>) -> Option<Seq<char>> {
    match s {
        Some(x) => Some(x@),
        None => None,
    }
}

/// Combines the rendered filter and condition into the condition
/// expression sent with the delete.
pub fn delete_condition(filter: Option<String>, condition: Option<String>) -> (r: Option<String>)
    ensures
        opt_view(r) == spec_delete_condition(opt_view(filter), opt_view(condition)),
{
    match (filter, condition) {
        (Some(f), None) => Some(f),
        (None, Some(c)) => Some(c),
        (Some(f), Some(c)) => {
            let mut s = "(".to_owned();
            s.append(f.as_str());
            s.append(") AND (");
            s.append(c.as_str());
            s.append(")");
            Some(s)
        },
        (None, None) => None,
    }
}

/// The unique secondary indices of a table (unique and not the primary key).
pub open spec fn unique_indices(indices: Seq<Index>) -> Seq<int>
    decreases indices.len(),
{
    if indices.len() == 0 {
        seq![]
    } else {
        let rest = unique_indices(indices.drop_last());
        let x = indices.last();
        if !x.primary_key && x.unique {
            rest.push(indices.len() - 1)
        } else {
            rest
        }
    }
}

/// How a delete by key is carried out.
#[derive(Debug, Clone, Copy, PartialEq, Eq, Structural)]
pub enum DeletePlan {
    /// A single conditional delete of the item.
    ByKey,
    /// Read the unique attributes, then delete the item and its entry in the
    /// unique index at this position of the table's indices, in one
    /// transaction.
    WithUniqueIndex(usize),
}

/// Chooses how to delete from `table`: by key when it has no unique
/// secondary index, through the one it has otherwise. The driver supports at
/// most one such index and exactly one key.
pub fn plan_delete(table: &Table, num_keys: usize) -> (r: DeletePlan)
    requires
        unique_indices(table.indices@).len() <= 1,
        num_keys == 1,
    ensures
        unique_indices(table.indices@).len() == 0 ==> r == DeletePlan::ByKey,
        unique_indices(table.indices@).len() == 1 ==> r == DeletePlan::WithUniqueIndex(
            unique_indices(table.indices@)[0] as usize,
        ),
{
    let mut found: Option<usize> = None;
    let mut i: usize = 0;
    while i < table.indices.len()
        invariant
            i <= table.indices@.len(),
            unique_indices(table.indices@).len() <= 1,
            match found {
                None => unique_indices(table.indices@.take(i as int)).len() == 0,
                Some(j) => unique_indices(table.indices@.take(i as int)) == seq![j as int],
            },
        decreases table.indices@.len() - i,
    {
        assert(table.indices@.take(i + 1).drop_last() =~= table.indices@.take(i as int));
        let idx = &table.indices[i];
        if !idx.primary_key && idx.unique {
            proof {
                lemma_unique_indices_prefix(table.indices@, i + 1);
            }
            found = Some(i);
        }
        i = i + 1;
    }
    assert(table.indices@.take(table.indices@.len() as int) =~= table.indices@);
    match found {
        None => DeletePlan::ByKey,
        Some(j) => DeletePlan::WithUniqueIndex(j),
    }
}

/// A prefix has no more unique indices than the whole list.
proof fn lemma_unique_indices_prefix(s: Seq<Index>, n: int)
    requires
        0 <= n <= s.len(),
    ensures
        unique_indices(s.take(n)).len() <= unique_indices(s).len(),
    decreases s.len(),
{
    if n < s.len() {
        assert(s.drop_last().take(n) =~= s.take(n));
        lemma_unique_indices_prefix(s.drop_last(), n);
    } else {
        assert(s.take(n) =~= s);
    }
}

/// The condition that guards the transactional delete: an equality on the
/// last of the unique attributes read (each one overwrites the previous),
/// joined by `AND` with the delete's own condition when it has one.
pub open spec fn spec_unique_condition(names: Seq<String>, condition: Option<Seq<char>>) -> Seq<char> {
    let eq = if names.len() == 0 {
        Seq::<char>::empty()
    } else {
        "#"@ + names.last()@ + " = :"@ + names.last()@
    };
    match condition {
        None => eq,
        Some(c) => if eq.len() == 0 {
            c
        } else {
            "("@ + eq + ") AND ("@ + c + ")"@
        },
    }
}

/// Builds the condition of the transactional delete from the names of the
/// unique attributes read and the delete's own condition.
pub fn unique_condition(names: &Vec<String>, condition: Option<&String>) -> (r: String)
    ensures
        r@ == spec_unique_condition(
            names@,
            match condition {
                Some(c) => Some(c@),
                None => None,
            },
        ),
{
    let mut eq = String::new();
    let mut i: usize = 0;
    while i < names.len()
        invariant
            i <= names@.len(),
            i == 0 ==> eq@ == Seq::<char>::empty(),
            i > 0 ==> eq@ == "#"@ + names@[i - 1]@ + " = :"@ + names@[i - 1]@,
        decreases names@.len() - i,
    {
        let mut s = "#".to_owned();
        s.append(names[i].as_str());
        s.append(" = :");
        s.append(names[i].as_str());
        eq = s;
        i = i + 1;
    }
    proof {
        if names@.len() == 0 {
            assert(eq@.len() == 0);
        }
    }
    match condition {
        None => eq,
        Some(c) => {
            if eq.as_str().unicode_len() == 0 {
                c.clone()
            } else {
                let mut s = "(".to_owned();
                s.append(eq.as_str());
                s.append(") AND (");
                s.append(c.as_str());
                s.append(")");
                s
            }
        },
    }
}

/// How DynamoDB answered a single conditional delete.
pub enum DeleteItemResponse {
    /// The delete went through.
    Deleted,
    /// The condition check failed; the item's values before the delete, as
    /// a record in column order, when DynamoDB returned them.
    ConditionCheckFailed(Option<Vec<Value>>),
    /// Any other failure, as the driver describes it.
    Failed(String),
}

/// What a single conditional delete reports: one row deleted; for a failed
/// condition check, what [`on_delete_item_condition_failed`] decides; any
/// other failure as a driver error.
pub fn delete_item_result(response: DeleteItemResponse, filter: Option<&Expr>) -> (r: Result<ExecResponse, Error>)
    ensures
        match response {
            DeleteItemResponse::Deleted => r == Ok::<ExecResponse, Error>(ExecResponse::Count(1)),
            DeleteItemResponse::ConditionCheckFailed(item) => match spec_filter_failed(
                match item {
                    Some(v) => Some(v@),
                    None => None,
                },
                match filter {
                    Some(f) => Some(*f),
                    None => None,
                },
            ) {
                Some(true) => r == Ok::<ExecResponse, Error>(ExecResponse::Count(0)),
                Some(false) => r matches Err(e) && e.spec_kind() matches ErrorKind::ConditionFailed(m)
                    && m@ == "DynamoDB conditional check failed"@,
                None => r matches Err(e) && is_evaluation_error(e),
            },
            DeleteItemResponse::Failed(m) => r matches Err(e) && e.spec_kind()
                == ErrorKind::DriverOperationFailed(m),
        },
{
    match response {
        DeleteItemResponse::Deleted => Ok(ExecResponse::count(1)),
        DeleteItemResponse::ConditionCheckFailed(item) => {
            match item {
                Some(v) => on_delete_item_condition_failed(Some(&v), filter),
                None => on_delete_item_condition_failed(None, filter),
            }
        },
        DeleteItemResponse::Failed(m) => Err(Error::driver_operation_failed(m)),
    }
}

/// What the transactional delete through a unique index reports: one row
/// deleted when the transaction went through; when it failed, a condition
/// failure if the delete carried a condition, else the driver's error.
pub fn transaction_result(outcome: Result<(), String>, has_condition: bool) -> (r: Result<ExecResponse, Error>)
    ensures
        match outcome {
            Ok(()) => r == Ok::<ExecResponse, Error>(ExecResponse::Count(1)),
            Err(m) => if has_condition {
                r matches Err(e) && e.spec_kind() matches ErrorKind::ConditionFailed(c)
                    && c@ == "DynamoDB conditional check failed"@
            } else {
                r matches Err(e) && e.spec_kind() == ErrorKind::DriverOperationFailed(m)
            },
        },
{
    match outcome {
        Ok(()) => Ok(ExecResponse::count(1)),
        Err(m) => if has_condition {
            Err(Error::condition_failed("DynamoDB conditional check failed"))
        } else {
            Err(Error::driver_operation_failed(m))
        },
    }
}

/// The columns of `schema` that index `index` covers, which must all exist.
pub open spec fn index_columns_exist(schema: Schema, index: Index) -> bool {
    forall|k: int|
        0 <= k < index.columns@.len() ==> {
            let c = (#[trigger] index.columns@[k]).column;
            &&& c.table.0 < schema.tables@.len()
            &&& c.index < schema.tables@[c.table.0 as int].columns@.len()
        }
}

/// The name of the column that `id` identifies in `schema`.
pub open spec fn column_name(schema: Schema, id: crate::schema::db::ColumnId) -> Seq<char> {
    schema.tables@[id.table.0 as int].columns@[id.index as int].name@
}

/// The attributes to read before a delete through a unique index: the
/// names of the index's columns, in order.
pub fn unique_attribute_names(schema: &Schema, index: &Index) -> (r: Vec<String>)
    requires
        index_columns_exist(*schema, *index),
    ensures
        r@.len() == index.columns@.len(),
        forall|k: int| 0 <= k < r@.len() ==> (#[trigger] r@[k])@ == column_name(*schema, index.columns@[k].column),
{
    let mut names: Vec<String> = Vec::new();
    let mut i: usize = 0;
    while i < index.columns.len()
        invariant
            i <= index.columns@.len(),
            index_columns_exist(*schema, *index),
            names@.len() == i,
            forall|k: int| 0 <= k < i ==> (#[trigger] names@[k])@ == column_name(*schema, index.columns@[k].column),
        decreases index.columns@.len() - i,
    {
        let c = index.columns[i].column;
        assert(c == index.columns@[i as int].column);
        let name = schema.tables[c.table.0].columns[c.index].name.clone();
        names.push(name);
        i = i + 1;
    }
    names
}

} // verus!
