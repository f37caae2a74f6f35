use real_time_sqlx::query::{
    Condition, Constraint, Operator, OrderBy, PaginateOptions, QueryTree, ReturnType,
};
use real_time_sqlx::render::{
    delete_statement, insert_many_statement, insert_statement, placeholders,
    prepare_sqlx_query, repeat_placeholders, sanitize_identifier, to_numbered_placeholders,
    update_statement,
};
use real_time_sqlx::value::{ConstraintValue, FinalType, Number};

fn integer(n: i64) -> FinalType {
    FinalType::Number(Number::Int(n))
}

fn single(column: &str, operator: Operator, value: ConstraintValue) -> Condition {
    Condition::Single {
        constraint: Constraint { column: column.to_string(), operator, value },
    }
}

fn query(table: &str, condition: Option<Condition>, paginate: Option<PaginateOptions>) -> QueryTree {
    QueryTree { return_type: ReturnType::Many, table: table.to_string(), condition, paginate }
}

fn as_int(v: &FinalType) -> i64 {
    match v {
        FinalType::Number(Number::Int(n)) => *n,
        other => panic!("expected an integer, found {:?}", other),
    }
}

#[test]
fn sanitize_keeps_only_name_characters() {
    assert_eq!(sanitize_identifier("todos"), "todos");
    assert_eq!(sanitize_identifier("to-dos; DROP TABLE x"), "todosDROPTABLEx");
    assert_eq!(sanitize_identifier("user_id9"), "user_id9");
    assert_eq!(sanitize_identifier("é\"'"), "");
}

#[test]
fn placeholder_groups() {
    assert_eq!(placeholders(0), "()");
    assert_eq!(placeholders(1), "(?)");
    assert_eq!(placeholders(3), "(?, ?, ?)");
    assert_eq!(repeat_placeholders(2, 3), "(?, ?), (?, ?), (?, ?)");
    assert_eq!(repeat_placeholders(2, 0), "");
}

#[test]
fn numbered_placeholders() {
    assert_eq!(to_numbered_placeholders("a = ? AND b IN (?, ?)"), "a = $1 AND b IN ($2, $3)");
    assert_eq!(to_numbered_placeholders("no placeholder"), "no placeholder");
    let many = "?".repeat(12);
    assert_eq!(to_numbered_placeholders(&many), "$1$2$3$4$5$6$7$8$9$10$11$12");
}

#[test]
fn select_without_condition() {
    let (sql, params) = prepare_sqlx_query(&query("todos", None, None));
    assert_eq!(sql, "SELECT * FROM todos");
    assert!(params.is_empty());
}

#[test]
fn select_with_nested_condition() {
    let cond = Condition::Or {
        conditions: vec![
            single("id", Operator::Equal, ConstraintValue::Final(integer(2))),
            Condition::And {
                conditions: vec![
                    single("title", Operator::Like, ConstraintValue::Final(FinalType::String("F%".to_string()))),
                    single("id", Operator::In, ConstraintValue::List(vec![integer(1), integer(3)])),
                ],
            },
        ],
    };
    let (sql, params) = prepare_sqlx_query(&query("todos", Some(cond), None));
    assert_eq!(
        sql,
        "SELECT * FROM todos WHERE (\"id\" = ? OR (\"title\" like ? AND \"id\" in (?, ?)))"
    );
    assert_eq!(params.len(), 4);
    assert_eq!(as_int(&params[0]), 2);
    assert!(matches!(&params[1], FinalType::String(s) if s == "F%"));
    assert_eq!(as_int(&params[2]), 1);
    assert_eq!(as_int(&params[3]), 3);
    assert_eq!(sql.matches('?').count(), params.len());
}

#[test]
fn select_sanitizes_names_and_parameterises_values() {
    let cond = single(
        "ti\"tle; --",
        Operator::Equal,
        ConstraintValue::Final(FinalType::String("x'; DROP TABLE todos; --".to_string())),
    );
    let (sql, params) = prepare_sqlx_query(&query("todos; DROP", Some(cond), None));
    assert_eq!(sql, "SELECT * FROM todosDROP WHERE \"title\" = ?");
    assert_eq!(params.len(), 1);
    assert!(!sql.contains('\''));
    assert!(!sql.contains(';'));
}

#[test]
fn empty_and_or_render_as_true_and_false() {
    let (sql, params) = prepare_sqlx_query(&query("t", Some(Condition::And { conditions: vec![] }), None));
    assert_eq!(sql, "SELECT * FROM t WHERE (1 = 1)");
    assert!(params.is_empty());
    let (sql, _) = prepare_sqlx_query(&query("t", Some(Condition::Or { conditions: vec![] }), None));
    assert_eq!(sql, "SELECT * FROM t WHERE (1 = 0)");
}

#[test]
fn pagination_defaults_to_id_descending() {
    let page = PaginateOptions { per_page: 10, offset: None, order_by: None };
    let (sql, params) = prepare_sqlx_query(&query("todos", None, Some(page)));
    assert_eq!(sql, "SELECT * FROM todos ORDER BY id DESC LIMIT ? ");
    assert_eq!(params.len(), 1);
    assert_eq!(as_int(&params[0]), 10);
}

#[test]
fn pagination_with_order_and_offset() {
    let page = PaginateOptions {
        per_page: 5,
        offset: Some(20),
        order_by: Some(OrderBy::Asc("ti tle".to_string())),
    };
    let cond = single("id", Operator::GreaterThan, ConstraintValue::Final(integer(1)));
    let (sql, params) = prepare_sqlx_query(&query("todos", Some(cond), Some(page)));
    assert_eq!(
        sql,
        "SELECT * FROM todos WHERE \"id\" > ? ORDER BY title ASC LIMIT ? OFFSET ? "
    );
    assert_eq!(params.len(), 3);
    assert_eq!(as_int(&params[1]), 5);
    assert_eq!(as_int(&params[2]), 20);
}

#[test]
fn pagination_saturates_huge_counts() {
    let page = PaginateOptions {
        per_page: u64::MAX,
        offset: None,
        order_by: Some(OrderBy::Desc("id".to_string())),
    };
    let (sql, params) = prepare_sqlx_query(&query("t", None, Some(page)));
    assert_eq!(sql, "SELECT * FROM t ORDER BY id DESC LIMIT ? ");
    assert_eq!(as_int(&params[0]), i64::MAX);
}

#[test]
fn write_statements() {
    let keys = vec!["title".to_string(), "con-tent".to_string()];
    assert_eq!(
        insert_statement("todos", &keys),
        "INSERT INTO todos (title, content) VALUES (?, ?) RETURNING *"
    );
    assert_eq!(
        insert_many_statement("todos", &keys, 2),
        "INSERT INTO todos (title, content) VALUES (?, ?), (?, ?) RETURNING *"
    );
    assert_eq!(
        update_statement("todos", &keys),
        "UPDATE todos SET \"title\" = ?, \"content\" = ? WHERE id = ? RETURNING *"
    );
    assert_eq!(delete_statement("to dos"), "DELETE FROM todos WHERE id = ? RETURNING *");
}
