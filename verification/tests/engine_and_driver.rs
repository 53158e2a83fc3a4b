use toasty::driver::{DeleteByKey, Operation, UpdateByKey, UpdateReturning};
use toasty::engine::return_first::{
    ExecReturnFirst, Func, LogicalPlan, Node, NodeId, Output, ReturnFirst, VarDecls, VarId,
};
use toasty::engine::UpdateCount;
use toasty::error::Error;
use toasty::schema::db::{ColumnId, TableId};
use toasty::stmt::{Type, Value};

fn action(selector: bool, required: bool) -> ExecReturnFirst {
    ExecReturnFirst {
        input: VarId(0),
        selector: if selector { Some(VarId(1)) } else { None },
        output: Output {
            var: VarId(2),
            num_uses: 1,
        },
        key: if selector { Some(Func(0)) } else { None },
        required,
    }
}

fn rows() -> Vec<Value> {
    vec![Value::I64(10), Value::I64(20), Value::I64(30)]
}

#[test]
fn without_selector_first_row_is_kept() {
    let out = action(false, false)
        .select_row(rows(), None, vec![Ok(Value::Null), Ok(Value::Null), Ok(Value::Null)])
        .unwrap();
    assert_eq!(out.len(), 1);
    assert!(matches!(out[0], Value::I64(10)));
}

#[test]
fn selector_picks_row_with_matching_key() {
    let keys = vec![Ok(Value::U64(1)), Ok(Value::U64(2)), Ok(Value::U64(3))];
    let out = action(true, true)
        .select_row(rows(), Some(Some(Value::U64(2))), keys)
        .unwrap();
    assert_eq!(out.len(), 1);
    assert!(matches!(out[0], Value::I64(20)));
}

#[test]
fn no_match_is_empty_unless_required() {
    let keys = || vec![Ok(Value::U64(1)), Ok(Value::U64(2)), Ok(Value::U64(3))];
    let out = action(true, false)
        .select_row(rows(), Some(Some(Value::U64(9))), keys())
        .unwrap();
    assert!(out.is_empty());

    let err = action(true, true)
        .select_row(rows(), Some(Some(Value::U64(9))), keys())
        .unwrap_err();
    assert!(err.is_record_not_found());
    assert_eq!(err.message(), "record not found: update returned no matching records");

    let err = action(false, true).select_row(vec![], None, vec![]).unwrap_err();
    assert!(err.is_record_not_found());
    assert!(action(true, false).select_row(rows(), Some(None), keys()).unwrap().is_empty());
}

#[test]
fn key_error_stops_the_search() {
    let keys = vec![
        Ok(Value::U64(1)),
        Err(Error::expression_evaluation_failed("bad key")),
        Ok(Value::U64(3)),
    ];
    let err = action(true, false)
        .select_row(rows(), Some(Some(Value::U64(3))), keys)
        .unwrap_err();
    assert!(err.is_expression_evaluation_failed());
    assert_eq!(err.message(), "expression evaluation failed: bad key");
}

#[test]
fn to_exec_registers_output_variable() {
    let plan = LogicalPlan {
        nodes: vec![
            Node {
                var: Some(VarId(5)),
                num_uses: 1,
                ty: Type::U64,
            },
            Node {
                var: Some(VarId(6)),
                num_uses: 1,
                ty: Type::U64,
            },
        ],
    };
    let mut node = Node {
        var: None,
        num_uses: 3,
        ty: Type::U64,
    };
    let mut vars = VarDecls {
        types: vec![Type::U64, Type::U64],
    };
    let rf = ReturnFirst {
        input: NodeId(0),
        selector: Some(NodeId(1)),
        key: Some(Func(4)),
        required: true,
        ty: Type::U64,
    };
    let exec = rf.to_exec(&plan, &mut node, &mut vars);
    assert_eq!(exec.input, VarId(5));
    assert_eq!(exec.selector, Some(VarId(6)));
    assert_eq!(exec.output, Output { var: VarId(2), num_uses: 3 });
    assert_eq!(exec.key, Some(Func(4)));
    assert!(exec.required);
    assert_eq!(node.var, Some(VarId(2)));
    assert_eq!(vars.types.len(), 3);
}

#[test]
fn update_count_loads() {
    assert_eq!(UpdateCount::ty(), Type::U64);
    assert_eq!(UpdateCount::load(Value::List(vec![])).unwrap(), 0);
    assert_eq!(UpdateCount::load(Value::List(vec![Value::U64(7)])).unwrap(), 7);
    assert_eq!(UpdateCount::load(Value::U64(3)).unwrap(), 3);
    assert!(UpdateCount::load(Value::List(vec![Value::U64(1), Value::U64(2)]))
        .unwrap_err()
        .is_type_conversion());
    assert!(UpdateCount::load(Value::Bool(true)).unwrap_err().is_type_conversion());
    assert!(UpdateCount::load(Value::List(vec![Value::Null]))
        .unwrap_err()
        .is_type_conversion());
}

#[test]
fn update_returning_columns() {
    let cols = vec![ColumnId {
        table: TableId(0),
        index: 2,
    }];
    let new = UpdateReturning::New(cols.clone());
    let old = UpdateReturning::Old(cols);
    assert!(!new.is_old());
    assert!(old.is_old());
    assert_eq!(old.columns().len(), 1);
    assert_eq!(new.columns()[0].index, 2);
}

#[test]
fn update_by_key_into_operation() {
    let op: Operation = UpdateByKey {
        table: TableId(1),
        keys: vec![Value::I64(1)],
        assignments: vec![],
        filter: None,
        condition: None,
        returning: None,
    }
    .into();
    assert!(matches!(op, Operation::UpdateByKey(u) if u.table == TableId(1)));
    let del = Operation::DeleteByKey(DeleteByKey {
        table: TableId(2),
        keys: vec![],
        filter: None,
        condition: None,
    });
    assert!(matches!(del, Operation::DeleteByKey(_)));
}

#[test]
fn error_messages_name_their_kind() {
    assert_eq!(
        UpdateCount::load(Value::Null).unwrap_err().message(),
        "type conversion failed: expected a u64"
    );
    assert_eq!(
        Error::condition_failed("x").message(),
        "condition failed: x"
    );
    assert_eq!(
        Error::migration_failed("bad file".to_string()).message(),
        "migration failed: bad file"
    );
    assert!(Error::migration_failed(String::new()).is_migration_failed());
    assert!(!Error::record_not_found("r").is_migration_failed());
    assert_eq!(Error::msg("plain".to_string()).message(), "plain");
    assert_eq!(Error::msg("plain".to_string()).detail(), "plain");
    assert_eq!(
        Error::type_conversion("t").message(),
        "type conversion failed: t"
    );
}
