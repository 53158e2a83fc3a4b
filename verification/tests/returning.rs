use toasty::schema::app::ModelId;
use toasty::schema::db::TableId;
use toasty::stmt::{
    BinaryOp, Delete, Expr, ExprMutation, ExprReference, ExprRow, ExprRowTarget, ExprSet, Include,
    Insert, MutationImage, Query, Returning, ReturningCardinality, ReturningExpr, RowImage, Select,
    Statement, Update, Value, Values,
};

fn column_ref(column: usize) -> Expr {
    Expr::Reference(ExprReference::Column {
        nesting: 0,
        table: 0,
        column,
    })
}

fn old_row() -> Expr {
    Expr::from(ExprRow::old_table(TableId(0)))
}

#[test]
fn model_returning_reads_new_row() {
    let ret = Returning::model();
    assert!(ret.is_model());
    assert!(ret.uses_new());
    assert!(!ret.uses_old());
    assert!(!ret.is_single());
    assert!(ret.model_includes().is_empty());
}

#[test]
fn old_model_returning_reads_old_row() {
    let ret = Returning::old_model().single();
    assert!(ret.is_model());
    assert!(ret.uses_old());
    assert!(!ret.uses_new());
    assert!(ret.is_single());
}

#[test]
fn projection_uses_what_it_mentions() {
    let ret = Returning::project(Expr::record(vec![column_ref(0), Expr::null()]));
    assert!(ret.is_project());
    assert!(ret.uses_new());
    assert!(!ret.uses_old());

    let ret = Returning::project(Expr::Project {
        base: Box::new(old_row()),
        field: 1,
    });
    assert!(ret.uses_old());
    assert!(!ret.uses_new());

    let ret = Returning::project(Expr::Not(Box::new(Expr::BinaryOp {
        lhs: Box::new(old_row()),
        op: BinaryOp::Eq,
        rhs: Box::new(column_ref(2)),
    })));
    assert!(ret.uses_old());
    assert!(ret.uses_new());
}

#[test]
fn counts_and_constants_read_no_row() {
    for ret in [
        Returning::count(),
        Returning::changed(),
        Returning::expression(column_ref(0)),
    ] {
        assert!(!ret.uses_old());
        assert!(!ret.uses_new());
        assert!(!ret.is_project());
    }
    assert!(Returning::count().is_count());
    assert!(Returning::changed().is_changed());
    assert!(Returning::expression(Expr::null()).is_expr());
}

#[test]
fn from_project_iter_builds_a_record() {
    let ret = Returning::from_project_iter(vec![column_ref(0), column_ref(1)]);
    match ret.as_project() {
        Some(Expr::Record(items)) => assert_eq!(items.len(), 2),
        _ => panic!("expected a record projection"),
    }
    assert!(matches!(ret.as_project_unwrap(), Expr::Record(_)));
}

#[test]
fn set_project_keeps_cardinality() {
    let mut ret = Returning::count().single();
    ret.set_project(column_ref(3));
    assert!(ret.is_project());
    assert!(ret.is_single());
}

#[test]
fn take_leaves_a_null_projection() {
    let mut ret = Returning::old_model().single();
    let taken = ret.take();
    assert!(taken.uses_old());
    assert!(matches!(ret.as_project(), Some(Expr::Value(Value::Null))));
    assert!(ret.is_single());
    assert!(!ret.uses_old() && !ret.uses_new());
}

#[test]
fn includes_can_be_edited() {
    let mut ret = Returning::model();
    ret.model_includes_mut_unwrap().push(Include {
        field: 2,
        filter: None,
    });
    assert_eq!(ret.model_includes().len(), 1);
    assert_eq!(ret.model_includes()[0].field, 2);
}

#[test]
fn projection_can_be_edited() {
    let mut ret = Returning::project(Expr::null());
    *ret.as_project_mut_unwrap() = column_ref(0);
    assert!(ret.uses_new());
    assert!(Returning::count().as_project().is_none());
    let mut count = Returning::count();
    assert!(count.as_project_mut().is_none());
}

#[test]
fn cardinality_defaults_to_list() {
    assert_eq!(ReturningCardinality::default(), ReturningCardinality::List);
    assert!(matches!(
        Returning::new(ReturningExpr::Model {
            image: RowImage::Old,
            includes: vec![]
        })
        .cardinality,
        ReturningCardinality::List
    ));
}

fn select(ret: Returning) -> Statement {
    Statement::Query(Query {
        body: ExprSet::Select(Box::new(Select {
            filter: Expr::null(),
            returning: ret,
        })),
    })
}

#[test]
fn statement_returning_set_and_read() {
    let mut update = Statement::Update(Update {
        filter: Expr::null(),
        returning: None,
    });
    assert!(update.returning().is_none());
    update.set_returning(Returning::count());
    assert!(update.returning().unwrap().is_count());
    update.set_returning_project(column_ref(0));
    assert!(update.returning_unwrap().is_project());
    update.set_returning_expr(Expr::null());
    assert!(update.returning_unwrap().is_expr());
    update.returning_mut_unwrap().set_project(column_ref(1));
    assert!(update.returning_unwrap().uses_new());
}

#[test]
fn statement_take_returning() {
    let mut delete = Statement::Delete(Delete {
        filter: Expr::null(),
        returning: Some(Returning::changed()),
    });
    let taken = delete.take_returning().unwrap();
    assert!(taken.is_changed());
    assert!(delete.returning().is_none());
    assert!(delete.take_returning().is_none());

    let mut insert = Statement::Insert(Insert {
        values: Values { rows: vec![] },
        returning: Some(Returning::model()),
    });
    assert!(insert.take_returning().unwrap().is_model());
    assert!(insert.returning_mut().is_none());
}

#[test]
fn select_keeps_a_null_projection_after_take() {
    let mut query = select(Returning::model().single());
    let taken = query.take_returning().unwrap();
    assert!(taken.is_model());
    let left = query.returning().unwrap();
    assert!(matches!(left.as_project(), Some(Expr::Value(Value::Null))));
    assert!(left.is_single());
}

#[test]
fn values_query_has_no_returning() {
    let mut values = Statement::Query(Query {
        body: ExprSet::Values(Values { rows: vec![] }),
    });
    assert!(values.returning().is_none());
    assert!(values.take_returning().is_none());
    assert!(values.returning_mut().is_none());

    let q = Query {
        body: ExprSet::Values(Values { rows: vec![] }),
    };
    assert!(q.returning().is_none());
}

#[test]
fn query_returning_accessors() {
    let mut q = Query {
        body: ExprSet::Select(Box::new(Select {
            filter: Expr::null(),
            returning: Returning::count(),
        })),
    };
    assert!(q.returning_unwrap().is_count());
    q.returning_mut_unwrap().set_project(column_ref(0));
    assert!(q.returning_mut().unwrap().is_project());
}

#[test]
fn expr_rows_and_mutations() {
    let row = ExprRow::incoming_model(ModelId(4));
    assert_eq!(row.target(), ExprRowTarget::Model(ModelId(4)));
    assert_eq!(ExprRow::old_table(TableId(2)).target(), ExprRowTarget::Table(TableId(2)));
    assert_eq!(ExprRow::incoming_table(TableId(1)).target(), ExprRowTarget::Table(TableId(1)));
    assert_eq!(ExprRow::old_model(ModelId(0)).target(), ExprRowTarget::Model(ModelId(0)));

    assert_eq!(ExprMutation::old_model(ModelId(1)).image(), MutationImage::Old);
    assert_eq!(ExprMutation::new_model(ModelId(1)).image(), MutationImage::New);
    assert_eq!(ExprMutation::old_table(TableId(1)).image(), MutationImage::Old);
    assert_eq!(ExprMutation::new_table(TableId(1)).image(), MutationImage::New);
    assert!(matches!(
        Expr::from(ExprMutation::new_table(TableId(3))),
        Expr::Mutation(ExprMutation::Table { .. })
    ));
    assert!(matches!(Expr::from(row), Expr::Row(ExprRow::Incoming(_))));
}
