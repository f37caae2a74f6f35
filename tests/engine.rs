use real_time_sqlx::columns::{column_kind, ColumnKind};
use real_time_sqlx::dispatch::{synthetic_delete, DispatchError, Dispatcher, Event, SubscriptionTable};
use real_time_sqlx::operation::{
    notification_from_rows, ordered_keys, prepare_operation, GranularOperation,
    OperationError, OperationNotification, Tabled,
};
use real_time_sqlx::query::{
    Checkable, Condition, Constraint, EvalError, Operator, QueryData, QueryTree, ReturnType,
};
use real_time_sqlx::value::{
    float_order_key, object_array_from_value, object_from_value, ConstraintValue,
    DeserializeError, FinalType, JsonObject, JsonValue, Number,
};

fn integer(n: i64) -> FinalType {
    FinalType::Number(Number::Int(n))
}

fn jint(n: i64) -> JsonValue {
    JsonValue::Number(Number::Int(n))
}

fn jstr(s: &str) -> JsonValue {
    JsonValue::String(s.to_string())
}

fn todo_row(id: i64, title: &str) -> JsonObject {
    JsonObject {
        entries: vec![("id".to_string(), jint(id)), ("title".to_string(), jstr(title))],
    }
}

fn constraint(column: &str, operator: Operator, value: ConstraintValue) -> Condition {
    Condition::Single {
        constraint: Constraint { column: column.to_string(), operator, value },
    }
}

fn todos_query(condition: Option<Condition>) -> QueryTree {
    QueryTree {
        return_type: ReturnType::Many,
        table: "todos".to_string(),
        condition,
        paginate: None,
    }
}

fn float(x: f64) -> FinalType {
    FinalType::Number(Number::Float(x.to_bits()))
}

#[test]
fn equality_by_kind() {
    assert!(integer(3).equals(&integer(3)));
    assert!(!integer(3).equals(&float(3.0)));
    assert!(float(0.0).equals(&float(-0.0)));
    assert!(FinalType::Null.equals(&FinalType::Null));
    assert!(!FinalType::Null.equals(&FinalType::Bool(false)));
    assert!(FinalType::String("a".to_string()).equals(&FinalType::String("a".to_string())));
}

#[test]
fn ordering_by_kind() {
    assert!(integer(-2).less_than(&integer(1)));
    assert!(float(-2.5).less_than(&float(-1.0)));
    assert!(float(-1.0).less_than(&float(0.5)));
    assert!(float(1.5).greater_than(&float(1.25)));
    assert!(!integer(1).less_than(&float(2.0)));
    assert!(FinalType::String("abc".to_string()).less_than(&FinalType::String("abd".to_string())));
    assert!(FinalType::String("ab".to_string()).less_than(&FinalType::String("abc".to_string())));
    assert!(FinalType::Bool(false).less_than(&FinalType::Bool(true)));
    assert!(integer(2).less_than_or_equal(&integer(2)));
    assert!(integer(3).greater_than_or_equal(&integer(2)));
    assert!(!FinalType::Null.less_than(&FinalType::Null));
}

#[test]
fn float_keys_follow_numeric_order() {
    let xs = [-3.5f64, -1.0, -0.0, 0.0, 1e-300, 2.0, 1e300];
    for w in xs.windows(2) {
        assert!(float_order_key(w[0].to_bits()) <= float_order_key(w[1].to_bits()));
    }
    assert_eq!(float_order_key((-0.0f64).to_bits()), float_order_key(0.0f64.to_bits()));
}

#[test]
fn operators_take_the_row_value_on_the_left() {
    let row = todo_row(2, "hello");
    let q = todos_query(Some(constraint("id", Operator::LessThan, ConstraintValue::Final(integer(3)))));
    assert!(matches!(q.check(&row), Ok(true)));
    let q = todos_query(Some(constraint("id", Operator::GreaterThan, ConstraintValue::Final(integer(3)))));
    assert!(matches!(q.check(&row), Ok(false)));
    let q = todos_query(Some(constraint(
        "title",
        Operator::Like,
        ConstraintValue::Final(FinalType::String("h%o".to_string())),
    )));
    assert!(matches!(q.check(&row), Ok(true)));
    let q = todos_query(Some(constraint(
        "title",
        Operator::ILike,
        ConstraintValue::Final(FinalType::String("HE%".to_string())),
    )));
    assert!(matches!(q.check(&row), Ok(true)));
}

#[test]
fn in_list_and_mismatches() {
    let row = todo_row(3, "c");
    let q = todos_query(Some(constraint("id", Operator::In, ConstraintValue::List(vec![integer(1), integer(3)]))));
    assert!(matches!(q.check(&row), Ok(true)));
    let q = todos_query(Some(constraint("id", Operator::In, ConstraintValue::List(vec![]))));
    assert!(matches!(q.check(&row), Ok(false)));
    let q = todos_query(Some(constraint("id", Operator::In, ConstraintValue::Final(integer(3)))));
    assert!(matches!(q.check(&row), Err(EvalError::OperatorMismatch)));
    let q = todos_query(Some(constraint("id", Operator::Equal, ConstraintValue::List(vec![integer(3)]))));
    assert!(matches!(q.check(&row), Err(EvalError::OperatorMismatch)));
}

#[test]
fn missing_and_incompatible_columns() {
    let q = todos_query(Some(constraint("nope", Operator::Equal, ConstraintValue::Final(integer(1)))));
    assert!(matches!(q.check(&todo_row(1, "a")), Err(EvalError::MissingColumn)));
    let row = JsonObject { entries: vec![("id".to_string(), JsonValue::Array(vec![]))] };
    let q = todos_query(Some(constraint("id", Operator::Equal, ConstraintValue::Final(integer(1)))));
    assert!(matches!(q.check(&row), Err(EvalError::IncompatibleValue)));
}

#[test]
fn empty_and_or_and_short_circuit() {
    let row = todo_row(1, "a");
    assert!(matches!(todos_query(Some(Condition::And { conditions: vec![] })).check(&row), Ok(true)));
    assert!(matches!(todos_query(Some(Condition::Or { conditions: vec![] })).check(&row), Ok(false)));
    assert!(matches!(todos_query(None).check(&row), Ok(true)));
    let or = Condition::Or {
        conditions: vec![
            constraint("id", Operator::Equal, ConstraintValue::Final(integer(1))),
            constraint("missing", Operator::Equal, ConstraintValue::Final(integer(1))),
        ],
    };
    assert!(matches!(todos_query(Some(or)).check(&row), Ok(true)));
    let and = Condition::And {
        conditions: vec![
            constraint("id", Operator::Equal, ConstraintValue::Final(integer(2))),
            constraint("missing", Operator::Equal, ConstraintValue::Final(integer(1))),
        ],
    };
    assert!(matches!(todos_query(Some(and)).check(&row), Ok(false)));
}

#[test]
fn null_equals_null() {
    let row = JsonObject { entries: vec![("note".to_string(), JsonValue::Null)] };
    let q = todos_query(Some(constraint("note", Operator::Equal, ConstraintValue::Final(FinalType::Null))));
    assert!(matches!(q.check(&row), Ok(true)));
}

#[test]
fn json_conversions() {
    assert!(matches!(FinalType::try_from(jstr("3")), Ok(FinalType::String(s)) if s == "3"));
    assert!(matches!(FinalType::try_from(jint(3)), Ok(FinalType::Number(Number::Int(3)))));
    assert!(matches!(FinalType::try_from(JsonValue::Bool(true)), Ok(FinalType::Bool(true))));
    assert!(matches!(FinalType::try_from(JsonValue::Null), Ok(FinalType::Null)));
    assert!(matches!(
        FinalType::try_from(JsonValue::Array(vec![])),
        Err(DeserializeError::IncompatibleValue(JsonValue::Array(_)))
    ));
    assert!(matches!(object_from_value(JsonValue::Object(todo_row(1, "a"))), Ok(o) if o.entries.len() == 2));
    assert!(matches!(object_from_value(jint(1)), Err(DeserializeError::IncompatibleMap(_))));
    let arr = JsonValue::Array(vec![JsonValue::Object(todo_row(1, "a")), JsonValue::Object(todo_row(2, "b"))]);
    assert!(matches!(object_array_from_value(arr), Ok(v) if v.len() == 2));
    let arr = JsonValue::Array(vec![JsonValue::Object(todo_row(1, "a")), jint(5), JsonValue::Null]);
    assert!(matches!(
        object_array_from_value(arr),
        Err(DeserializeError::IncompatibleMap(JsonValue::Number(Number::Int(5))))
    ));
    assert!(matches!(object_array_from_value(jint(1)), Err(DeserializeError::IncompatibleValue(_))));
}

#[test]
fn prepare_create_and_update() {
    let op = GranularOperation::Create { table: "todos".to_string(), data: todo_row(4, "d") };
    assert_eq!(op.get_table(), "todos");
    let p = prepare_operation(&op).unwrap();
    assert_eq!(p.sql, "INSERT INTO todos (id, title) VALUES (?, ?) RETURNING *");
    assert_eq!(p.params.len(), 2);
    assert!(matches!(&p.params[1], FinalType::String(s) if s == "d"));

    let data = JsonObject { entries: vec![("title".to_string(), jstr("b2"))] };
    let op = GranularOperation::Update { table: "todos".to_string(), id: integer(2), data };
    let p = prepare_operation(&op).unwrap();
    assert_eq!(p.sql, "UPDATE todos SET \"title\" = ? WHERE id = ? RETURNING *");
    assert_eq!(p.params.len(), 2);
    assert!(matches!(&p.params[1], FinalType::Number(Number::Int(2))));
}

#[test]
fn prepare_batch_and_delete() {
    let op = GranularOperation::CreateMany {
        table: "todos".to_string(),
        data: vec![todo_row(5, "e"), todo_row(6, "f")],
    };
    let p = prepare_operation(&op).unwrap();
    assert_eq!(p.sql, "INSERT INTO todos (id, title) VALUES (?, ?), (?, ?) RETURNING *");
    assert_eq!(p.params.len(), 4);
    assert!(matches!(&p.params[2], FinalType::Number(Number::Int(6))));

    let op = GranularOperation::Delete { table: "todos".to_string(), id: integer(999) };
    let p = prepare_operation(&op).unwrap();
    assert_eq!(p.sql, "DELETE FROM todos WHERE id = ? RETURNING *");
    assert_eq!(p.params.len(), 1);
}

#[test]
fn prepare_errors() {
    let op = GranularOperation::CreateMany { table: "todos".to_string(), data: vec![] };
    assert!(matches!(prepare_operation(&op), Err(OperationError::EmptyBatch)));
    let partial = JsonObject { entries: vec![("id".to_string(), jint(7))] };
    let op = GranularOperation::CreateMany {
        table: "todos".to_string(),
        data: vec![todo_row(6, "f"), partial],
    };
    assert!(matches!(prepare_operation(&op), Err(OperationError::MissingKey)));
    let bad = JsonObject { entries: vec![("tags".to_string(), JsonValue::Array(vec![]))] };
    let op = GranularOperation::Create { table: "todos".to_string(), data: bad };
    assert!(matches!(prepare_operation(&op), Err(OperationError::IncompatibleValue)));
}

#[test]
fn keys_keep_entry_order() {
    let keys = ordered_keys(&todo_row(1, "a"));
    assert_eq!(keys, vec!["id".to_string(), "title".to_string()]);
}

#[test]
fn delete_of_missing_row_notifies_nothing() {
    let op = GranularOperation::Delete { table: "todos".to_string(), id: integer(999) };
    let n: Option<OperationNotification<JsonObject>> = notification_from_rows(op, vec![]);
    assert!(n.is_none());
    let op = GranularOperation::Update { table: "todos".to_string(), id: integer(1), data: todo_row(1, "x") };
    assert!(notification_from_rows::<i32>(op, vec![]).is_none());
}

#[test]
fn notifications_carry_returned_rows() {
    let op = GranularOperation::Update { table: "todos".to_string(), id: integer(2), data: todo_row(2, "b2") };
    match notification_from_rows(op, vec![10, 11]) {
        Some(OperationNotification::Update { table, id, data }) => {
            assert_eq!(table, "todos");
            assert!(matches!(id, FinalType::Number(Number::Int(2))));
            assert_eq!(data, 10);
        },
        other => panic!("unexpected {:?}", other),
    }
    let op = GranularOperation::CreateMany { table: "todos".to_string(), data: vec![] };
    assert!(matches!(
        notification_from_rows(op, vec![1, 2]),
        Some(OperationNotification::CreateMany { data, .. }) if data == vec![1, 2]
    ));
}

fn table_with_id_filter() -> SubscriptionTable<u32> {
    let mut t = SubscriptionTable::new();
    let eq2 = todos_query(Some(constraint("id", Operator::Equal, ConstraintValue::Final(integer(2)))));
    t.subscribe("sub".to_string(), eq2, 7);
    t
}

#[test]
fn update_matching_subscription_is_forwarded() {
    let t = table_with_id_filter();
    let n = OperationNotification::Update { table: "todos".to_string(), id: integer(2), data: todo_row(2, "b2") };
    let events = t.route(&n);
    assert_eq!(events.len(), 1);
    assert!(matches!(events[0], Some(Event::Forward)));
}

#[test]
fn update_rejected_by_filter_sends_one_delete() {
    let t = table_with_id_filter();
    let n = OperationNotification::Update { table: "todos".to_string(), id: integer(1), data: todo_row(1, "a2") };
    let events = t.route(&n);
    assert_eq!(events.len(), 1);
    assert!(matches!(events[0], Some(Event::SyntheticDelete)));
    match synthetic_delete(n) {
        OperationNotification::Delete { table, id, data } => {
            assert_eq!(table, "todos");
            assert!(matches!(id, FinalType::Number(Number::Int(1))));
            assert_eq!(data.entries.len(), 2);
        },
        other => panic!("unexpected {:?}", other),
    }
}

#[test]
fn create_many_sends_only_matching_rows() {
    let mut t = SubscriptionTable::new();
    let q = todos_query(Some(constraint("id", Operator::In, ConstraintValue::List(vec![integer(1), integer(3)]))));
    t.subscribe("s".to_string(), q, 0u8);
    let n = OperationNotification::CreateMany {
        table: "todos".to_string(),
        data: vec![todo_row(5, "e"), todo_row(6, "f")],
    };
    assert!(matches!(t.route(&n)[0], None));
    let n = OperationNotification::CreateMany {
        table: "todos".to_string(),
        data: vec![todo_row(1, "a"), todo_row(2, "b")],
    };
    match &t.route(&n)[0] {
        Some(Event::Subset(rows)) => assert_eq!(rows, &vec![0usize]),
        other => panic!("unexpected {:?}", other),
    }
}

#[test]
fn create_and_delete_go_to_matching_queries_only() {
    let mut t = table_with_id_filter();
    t.subscribe("all".to_string(), todos_query(None), 8);
    let n = OperationNotification::Create { table: "todos".to_string(), data: todo_row(3, "c") };
    let events = t.route(&n);
    assert!(matches!(events[0], None));
    assert!(matches!(events[1], Some(Event::Forward)));
    let n = OperationNotification::Delete { table: "todos".to_string(), id: integer(2), data: todo_row(2, "b") };
    let events = t.route(&n);
    assert!(matches!(events[0], Some(Event::Forward)));
    assert!(matches!(events[1], Some(Event::Forward)));
}

#[test]
fn subscribe_replaces_and_prune_removes() {
    let mut t = table_with_id_filter();
    t.subscribe("other".to_string(), todos_query(None), 9);
    t.subscribe("sub".to_string(), todos_query(None), 10);
    assert_eq!(t.subs.len(), 2);
    assert_eq!(t.subs[0].channel, 10);
    t.prune(&vec!["sub".to_string()]);
    assert_eq!(t.subs.len(), 1);
    assert_eq!(t.subs[0].id, "other");
    t.unsubscribe(&"missing".to_string());
    assert_eq!(t.subs.len(), 1);
    t.unsubscribe(&"other".to_string());
    assert!(t.subs.is_empty());
}

#[test]
fn query_data_unwraps() {
    assert_eq!(QueryData::Single(Some(4)).unwrap_single(), 4);
    assert_eq!(QueryData::<i32>::Single(None).unwrap_optional_single(), None);
    assert_eq!(QueryData::Many(vec![1, 2]).unwrap_many(), vec![1, 2]);
}

#[test]
fn dispatcher_refuses_unknown_tables() {
    let mut d: Dispatcher<u8> = Dispatcher::new(vec!["todos".to_string(), "users".to_string()]);
    assert!(matches!(
        d.subscribe("nope", "s".to_string(), todos_query(None), 1),
        Err(DispatchError::UnknownTable)
    ));
    assert!(d.subscribe("todos", "s".to_string(), todos_query(None), 1).is_ok());
    let n = OperationNotification::Create { table: "todos".to_string(), data: todo_row(1, "a") };
    let events = d.route(&n).unwrap();
    assert_eq!(events.len(), 1);
    assert!(matches!(events[0], Some(Event::Forward)));
    let n = OperationNotification::Create { table: "ghosts".to_string(), data: todo_row(1, "a") };
    assert!(matches!(d.route(&n), Err(DispatchError::UnknownTable)));
    assert!(d.prune("todos", &vec!["s".to_string()]).is_ok());
    assert!(d.tables[0].table.subs.is_empty());
    assert!(matches!(d.unsubscribe("nope", &"s".to_string()), Err(DispatchError::UnknownTable)));
    assert!(d.unsubscribe("users", &"s".to_string()).is_ok());
}

#[test]
fn column_kinds() {
    assert_eq!(column_kind("INTEGER"), ColumnKind::Integer);
    assert_eq!(column_kind("NUMERIC"), ColumnKind::Real);
    assert_eq!(column_kind("REAL"), ColumnKind::Real);
    assert_eq!(column_kind("BOOLEAN"), ColumnKind::Boolean);
    assert_eq!(column_kind("DATETIME"), ColumnKind::Text);
    assert_eq!(column_kind("BLOB"), ColumnKind::Null);
    assert_eq!(column_kind("integer"), ColumnKind::Null);
}

#[test]
fn scalar_json_round_trip() {
    let v = FinalType::String("x".to_string()).into_json();
    assert!(matches!(&v, JsonValue::String(s) if s == "x"));
    assert!(matches!(FinalType::try_from(v), Ok(FinalType::String(s)) if s == "x"));
    let v = float(2.5).into_json();
    assert!(matches!(FinalType::try_from(v), Ok(FinalType::Number(Number::Float(b))) if f64::from_bits(b) == 2.5));
    assert!(matches!(FinalType::Null.into_json(), JsonValue::Null));
}
