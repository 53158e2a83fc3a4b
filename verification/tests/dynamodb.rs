use toasty::stmt::eval::eval_bool;
use toasty::dynamodb::{filter_failed, on_delete_item_condition_failed, ExecResponse};
use toasty::stmt::{BinaryOp, Expr, ExprReference, Value};

#[test]
fn invalid_filter_returns_error() {
    let item = vec![Value::String("inactive".to_string())];
    let filter = Expr::Value(Value::String("not a bool".to_string()));

    let error = on_delete_item_condition_failed(Some(&item), Some(&filter)).unwrap_err();

    assert!(error.is_expression_evaluation_failed());
}

fn status_is(s: &str) -> Expr {
    Expr::BinaryOp {
        lhs: Box::new(Expr::Reference(ExprReference::Column { nesting: 0, table: 0, column: 0 })),
        op: BinaryOp::Eq,
        rhs: Box::new(Expr::Value(Value::String(s.to_string()))),
    }
}

#[test]
fn filtered_out_row_counts_zero() {
    let item = vec![Value::String("inactive".to_string())];
    let filter = status_is("active");
    assert_eq!(filter_failed(Some(&item), Some(&filter)).unwrap(), true);
    assert_eq!(
        on_delete_item_condition_failed(Some(&item), Some(&filter)).unwrap(),
        ExecResponse::Count(0)
    );
}

#[test]
fn matching_row_is_condition_failure() {
    let item = vec![Value::String("active".to_string())];
    let filter = status_is("active");
    let err = on_delete_item_condition_failed(Some(&item), Some(&filter)).unwrap_err();
    assert!(err.is_condition_failed());
    assert!(on_delete_item_condition_failed(Some(&item), None).unwrap_err().is_condition_failed());
    assert_eq!(filter_failed(None, Some(&filter)).unwrap(), true);
    assert_eq!(filter_failed(None, None).unwrap(), false);
}

use toasty::dynamodb::{
    delete_condition, delete_item_result, plan_delete, transaction_result, unique_attribute_names,
    unique_condition, DeleteItemResponse, DeletePlan,
};
use toasty::schema::db::{
    Column, ColumnId, Index, IndexColumn, IndexId, IndexOp, IndexScope, PrimaryKey, Schema, Table,
    TableId, Type,
};

fn column(index: usize, name: &str) -> Column {
    Column {
        id: ColumnId {
            table: TableId(0),
            index,
        },
        name: name.to_string(),
        ty: toasty::stmt::Type::String,
        storage_ty: Type::Text,
        nullable: false,
        primary_key: index == 0,
        auto_increment: false,
    }
}

fn index(position: usize, name: &str, on: usize, unique: bool, primary_key: bool) -> Index {
    Index {
        id: IndexId {
            table: TableId(0),
            index: position,
        },
        name: name.to_string(),
        on: TableId(0),
        columns: vec![IndexColumn {
            column: ColumnId {
                table: TableId(0),
                index: on,
            },
            op: IndexOp::Eq,
            scope: IndexScope::Partition,
        }],
        unique,
        primary_key,
    }
}

fn users(indices: Vec<Index>) -> Table {
    Table {
        id: TableId(0),
        name: "users".to_string(),
        columns: vec![column(0, "id"), column(1, "email")],
        primary_key: PrimaryKey {
            columns: vec![],
            index: IndexId {
                table: TableId(0),
                index: 0,
            },
        },
        indices,
    }
}

#[test]
fn delete_condition_joins_filter_and_condition() {
    assert_eq!(delete_condition(None, None), None);
    assert_eq!(delete_condition(Some("#a = :a".to_string()), None), Some("#a = :a".to_string()));
    assert_eq!(delete_condition(None, Some("#v = :v".to_string())), Some("#v = :v".to_string()));
    assert_eq!(
        delete_condition(Some("#a = :a".to_string()), Some("#v = :v".to_string())),
        Some("(#a = :a) AND (#v = :v)".to_string())
    );
}

#[test]
fn plan_follows_unique_indices() {
    let plain = users(vec![index(0, "pk", 0, true, true)]);
    assert_eq!(plan_delete(&plain, 1), DeletePlan::ByKey);
    let with_unique = users(vec![
        index(0, "pk", 0, true, true),
        index(1, "users_by_email", 1, true, false),
    ]);
    assert_eq!(plan_delete(&with_unique, 1), DeletePlan::WithUniqueIndex(1));
    let non_unique = users(vec![index(0, "by_email", 1, false, false)]);
    assert_eq!(plan_delete(&non_unique, 1), DeletePlan::ByKey);
}

#[test]
fn unique_condition_uses_last_attribute() {
    let names = vec!["email".to_string()];
    assert_eq!(unique_condition(&names, None), "#email = :email");
    let v = "#v = :v".to_string();
    assert_eq!(unique_condition(&names, Some(&v)), "(#email = :email) AND (#v = :v)");
    assert_eq!(unique_condition(&vec![], Some(&v)), "#v = :v");
    assert_eq!(unique_condition(&vec![], None), "");
    let two = vec!["a".to_string(), "b".to_string()];
    assert_eq!(unique_condition(&two, None), "#b = :b");
}

#[test]
fn unique_attributes_are_index_column_names() {
    let table = users(vec![index(0, "users_by_email", 1, true, false)]);
    let schema = Schema {
        tables: vec![table.clone()],
    };
    assert_eq!(unique_attribute_names(&schema, &table.indices[0]), vec!["email".to_string()]);
}

#[test]
fn delete_item_outcomes() {
    assert_eq!(delete_item_result(DeleteItemResponse::Deleted, None).unwrap(), ExecResponse::Count(1));
    let filter = status_is("active");
    let gone = delete_item_result(DeleteItemResponse::ConditionCheckFailed(None), Some(&filter)).unwrap();
    assert_eq!(gone, ExecResponse::Count(0));
    let err = delete_item_result(
        DeleteItemResponse::ConditionCheckFailed(Some(vec![Value::String("active".to_string())])),
        Some(&filter),
    )
    .unwrap_err();
    assert_eq!(err.message(), "condition failed: DynamoDB conditional check failed");
    let err = delete_item_result(DeleteItemResponse::Failed("throttled".to_string()), None).unwrap_err();
    assert!(err.is_driver_operation_failed());
    assert_eq!(err.message(), "driver operation failed: throttled");
}

#[test]
fn transaction_outcomes() {
    assert_eq!(transaction_result(Ok(()), true).unwrap(), ExecResponse::Count(1));
    assert!(transaction_result(Err("cancelled".to_string()), true).unwrap_err().is_condition_failed());
    let err = transaction_result(Err("cancelled".to_string()), false).unwrap_err();
    assert!(err.is_driver_operation_failed());
    assert_eq!(err.message(), "driver operation failed: cancelled");
}

#[test]
fn filter_logic_over_records() {
    let rec = vec![Value::String("active".to_string()), Value::Bool(true)];
    let flag = Expr::Reference(ExprReference::Column { nesting: 0, table: 0, column: 1 });
    assert!(eval_bool(&flag, &rec).unwrap());
    assert!(!eval_bool(&Expr::Not(Box::new(flag)), &rec).unwrap());
    assert!(eval_bool(&Expr::And(vec![status_is("active")]), &rec).unwrap());
    assert!(!eval_bool(&Expr::Or(vec![status_is("x"), status_is("y")]), &rec).unwrap());
    assert!(eval_bool(&Expr::And(vec![]), &rec).unwrap());
    assert!(!eval_bool(&Expr::Or(vec![]), &rec).unwrap());
    let out_of_range = Expr::Reference(ExprReference::Column { nesting: 0, table: 0, column: 5 });
    assert!(eval_bool(&out_of_range, &rec).unwrap_err().is_expression_evaluation_failed());
}

#[test]
fn unevaluable_filter_reports_why() {
    let rec = vec![Value::Null];
    let err = filter_failed(Some(&rec), Some(&Expr::Value(Value::I64(1)))).unwrap_err();
    assert_eq!(err.message(), "expression evaluation failed: cannot evaluate expression");
}
