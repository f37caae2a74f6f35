//! What rendered SQL can contain, and how many placeholders it has.

use vstd::prelude::*;

use crate::query::{Condition, Constraint, Operator, OrderBy, PaginateOptions, QueryTree};
use crate::operation::{keys_of, prepared, row_params, rows_params, GranularOperation};
use crate::render::{
    assignment_list, column_list, condition_params, condition_sql, constraint_params,
    constraint_sql, count_qmarks, delete_sql, insert_many_sql, insert_sql, is_ident_char,
    joined_params, joined_sql, operator_sql, paginate_params, paginate_sql, placeholder_group,
    placeholder_groups, qmarks, query_params, query_sql, sanitized, update_sql,
};
use crate::value::{FinalType, JsonObject};
use crate::value::ConstraintValue;

verus! {

/// Characters that rendered SQL is made of: name characters, spaces, and the
/// punctuation of the statements' own grammar. No quote for string literals,
/// no statement separator and no comment marker is among them.
pub open spec fn is_sql_char(c: char) -> bool {
    is_ident_char(c) || c == ' ' || c == ',' || c == '(' || c == ')' || c == '"' || c == '?'
        || c == '=' || c == '<' || c == '>' || c == '!' || c == '*'
}

/// Whether every character of `s` is one of `is_sql_char`.
pub open spec fn is_sql_text(s: Seq<char>) -> bool {
    forall|i: int| 0 <= i < s.len() ==> is_sql_char(#[trigger] s[i])
}

proof fn lemma_sql_text_concat(a: Seq<char>, b: Seq<char>)
    requires
        is_sql_text(a),
        is_sql_text(b),
    ensures
        is_sql_text(a + b),
{
    assert forall|i: int| 0 <= i < (a + b).len() implies is_sql_char(#[trigger] (a + b)[i]) by {
        if i >= a.len() {
            assert((a + b)[i] == b[i - a.len()]);
        }
    }
}

/// Sanitising leaves name characters only.
pub proof fn lemma_sanitized_is_name(s: Seq<char>)
    ensures
        forall|i: int| 0 <= i < sanitized(s).len() ==> is_ident_char(#[trigger] sanitized(s)[i]),
    decreases s.len(),
{
    if s.len() > 0 {
        let r = sanitized(s.drop_last());
        lemma_sanitized_is_name(s.drop_last());
        assert forall|i: int| 0 <= i < sanitized(s).len() implies is_ident_char(
            #[trigger] sanitized(s)[i],
        ) by {
            if i < r.len() {
                assert(sanitized(s)[i] == r[i]);
            }
        }
    }
}

proof fn lemma_sanitized_sql(s: Seq<char>)
    ensures
        is_sql_text(sanitized(s)),
        count_qmarks(sanitized(s)) == 0,
{
    lemma_sanitized_is_name(s);
    lemma_no_qmarks(sanitized(s));
}

proof fn lemma_no_qmarks(s: Seq<char>)
    requires
        forall|i: int| 0 <= i < s.len() ==> #[trigger] s[i] != '?',
    ensures
        count_qmarks(s) == 0,
    decreases s.len(),
{
    if s.len() > 0 {
        assert(s.last() == s[s.len() - 1]);
        lemma_no_qmarks(s.drop_last());
    }
}

proof fn lemma_count_concat(a: Seq<char>, b: Seq<char>)
    ensures
        count_qmarks(a + b) == count_qmarks(a) + count_qmarks(b),
    decreases b.len(),
{
    if b.len() == 0 {
        assert(a + b =~= a);
    } else {
        assert((a + b).drop_last() =~= a + b.drop_last());
        assert((a + b).last() == b.last());
        lemma_count_concat(a, b.drop_last());
    }
}

/// A piece of fixed text: safe characters and no placeholder.
proof fn lemma_fixed(s: Seq<char>)
    requires
        forall|i: int| 0 <= i < s.len() ==> is_sql_char(#[trigger] s[i]) && s[i] != '?',
    ensures
        is_sql_text(s),
        count_qmarks(s) == 0,
{
    lemma_no_qmarks(s);
}

proof fn lemma_operator_sql(op: Operator)
    ensures
        is_sql_text(operator_sql(op)),
        count_qmarks(operator_sql(op)) == 0,
{
    reveal_strlit("=");
    reveal_strlit("<");
    reveal_strlit(">");
    reveal_strlit("<=");
    reveal_strlit(">=");
    reveal_strlit("!=");
    reveal_strlit("in");
    reveal_strlit("like");
    reveal_strlit("ilike");
    lemma_fixed(operator_sql(op));
}

proof fn lemma_qmarks(n: nat)
    ensures
        is_sql_text(qmarks(n)),
        count_qmarks(qmarks(n)) == n,
    decreases n,
{
    if n == 1 {
        reveal_with_fuel(count_qmarks, 2);
        assert(seq!['?'].drop_last() =~= Seq::<char>::empty());
    } else if n > 1 {
        lemma_qmarks((n - 1) as nat);
        let tail = seq![',', ' ', '?'];
        reveal_with_fuel(count_qmarks, 4);
        assert(tail.drop_last() =~= seq![',', ' ']);
        assert(tail.drop_last().drop_last() =~= seq![',']);
        assert(tail.drop_last().drop_last().drop_last() =~= Seq::<char>::empty());
        lemma_sql_text_concat(qmarks((n - 1) as nat), tail);
        lemma_count_concat(qmarks((n - 1) as nat), tail);
    }
}

proof fn lemma_group(n: nat)
    ensures
        is_sql_text(placeholder_group(n)),
        count_qmarks(placeholder_group(n)) == n,
{
    lemma_qmarks(n);
    lemma_fixed(seq!['(']);
    lemma_fixed(seq![')']);
    lemma_sql_text_concat(seq!['('], qmarks(n));
    lemma_sql_text_concat(seq!['('] + qmarks(n), seq![')']);
    lemma_count_concat(seq!['('], qmarks(n));
    lemma_count_concat(seq!['('] + qmarks(n), seq![')']);
}

/// Concatenation of two facts about pieces.
proof fn lemma_join(a: Seq<char>, b: Seq<char>)
    requires
        is_sql_text(a),
        is_sql_text(b),
    ensures
        is_sql_text(a + b),
        count_qmarks(a + b) == count_qmarks(a) + count_qmarks(b),
{
    lemma_sql_text_concat(a, b);
    lemma_count_concat(a, b);
}

proof fn lemma_constraint(c: Constraint)
    ensures
        is_sql_text(constraint_sql(c)),
        count_qmarks(constraint_sql(c)) == constraint_params(c).len(),
{
    reveal_strlit("\"");
    reveal_strlit("\" ");
    reveal_strlit(" ");
    reveal_strlit("?");
    lemma_fixed("\""@);
    lemma_fixed("\" "@);
    lemma_fixed(" "@);
    lemma_sanitized_sql(c.column@);
    lemma_operator_sql(c.operator);
    let v = match c.value {
        ConstraintValue::Final(_) => "?"@,
        ConstraintValue::List(l) => placeholder_group(l@.len()),
    };
    match c.value {
        ConstraintValue::Final(_) => {
            reveal_with_fuel(count_qmarks, 2);
            assert("?"@.drop_last() =~= Seq::<char>::empty());
        },
        ConstraintValue::List(l) => {
            lemma_group(l@.len());
        },
    }
    let a = "\""@ + sanitized(c.column@);
    lemma_join("\""@, sanitized(c.column@));
    lemma_join(a, "\" "@);
    lemma_join(a + "\" "@, operator_sql(c.operator));
    lemma_join(a + "\" "@ + operator_sql(c.operator), " "@);
    lemma_join(a + "\" "@ + operator_sql(c.operator) + " "@, v);
}

proof fn lemma_condition(c: Condition)
    ensures
        is_sql_text(condition_sql(c)),
        count_qmarks(condition_sql(c)) == condition_params(c).len(),
    decreases c,
{
    reveal_strlit("(1 = 1)");
    reveal_strlit("(1 = 0)");
    reveal_strlit("(");
    reveal_strlit(")");
    reveal_strlit(" AND ");
    reveal_strlit(" OR ");
    lemma_fixed("(1 = 1)"@);
    lemma_fixed("(1 = 0)"@);
    lemma_fixed("("@);
    lemma_fixed(")"@);
    lemma_fixed(" AND "@);
    lemma_fixed(" OR "@);
    match c {
        Condition::Single { constraint } => {
            lemma_constraint(constraint);
        },
        Condition::And { conditions } => {
            if conditions@.len() > 0 {
                lemma_joined(conditions@, " AND "@);
                lemma_join("("@, joined_sql(conditions@, " AND "@));
                lemma_join("("@ + joined_sql(conditions@, " AND "@), ")"@);
            }
        },
        Condition::Or { conditions } => {
            if conditions@.len() > 0 {
                lemma_joined(conditions@, " OR "@);
                lemma_join("("@, joined_sql(conditions@, " OR "@));
                lemma_join("("@ + joined_sql(conditions@, " OR "@), ")"@);
            }
        },
    }
}

proof fn lemma_joined(cs: Seq<Condition>, sep: Seq<char>)
    requires
        is_sql_text(sep),
        count_qmarks(sep) == 0,
    ensures
        is_sql_text(joined_sql(cs, sep)),
        count_qmarks(joined_sql(cs, sep)) == joined_params(cs).len(),
    decreases cs,
{
    if cs.len() == 0 {
    } else if cs.len() == 1 {
        lemma_condition(cs[0]);
        assert(cs.drop_last() =~= Seq::<Condition>::empty());
        assert(cs.last() == cs[0]);
        assert(joined_params(cs.drop_last()).len() == 0);
        assert(joined_params(cs).len() == condition_params(cs[0]).len());
    } else {
        lemma_joined(cs.drop_last(), sep);
        lemma_condition(cs.last());
        lemma_join(joined_sql(cs.drop_last(), sep), sep);
        lemma_join(joined_sql(cs.drop_last(), sep) + sep, condition_sql(cs.last()));
    }
}

proof fn lemma_one_qmark(a: Seq<char>, b: Seq<char>)
    requires
        forall|i: int| 0 <= i < a.len() ==> is_sql_char(#[trigger] a[i]) && a[i] != '?',
        forall|i: int| 0 <= i < b.len() ==> is_sql_char(#[trigger] b[i]) && b[i] != '?',
    ensures
        is_sql_text(a + seq!['?'] + b),
        count_qmarks(a + seq!['?'] + b) == 1,
{
    lemma_fixed(a);
    lemma_fixed(b);
    reveal_with_fuel(count_qmarks, 2);
    assert(seq!['?'].drop_last() =~= Seq::<char>::empty());
    lemma_fixed(Seq::<char>::empty());
    lemma_join(a, seq!['?']);
    lemma_join(a + seq!['?'], b);
}

proof fn lemma_paginate(p: PaginateOptions)
    ensures
        is_sql_text(paginate_sql(p)),
        count_qmarks(paginate_sql(p)) == paginate_params(p).len(),
{
    reveal_strlit("ORDER BY ");
    reveal_strlit(" ASC ");
    reveal_strlit(" DESC ");
    reveal_strlit("ORDER BY id DESC ");
    reveal_strlit("LIMIT ? ");
    reveal_strlit("OFFSET ? ");
    let limit = seq!['L', 'I', 'M', 'I', 'T', ' '];
    let offset_word = seq!['O', 'F', 'F', 'S', 'E', 'T', ' '];
    assert("LIMIT ? "@ =~= limit + seq!['?'] + seq![' ']);
    assert("OFFSET ? "@ =~= offset_word + seq!['?'] + seq![' ']);
    lemma_fixed("ORDER BY "@);
    lemma_fixed(" ASC "@);
    lemma_fixed(" DESC "@);
    lemma_fixed("ORDER BY id DESC "@);
    lemma_one_qmark(limit, seq![' ']);
    lemma_one_qmark(offset_word, seq![' ']);
    let order = match p.order_by {
        Some(OrderBy::Asc(col)) => "ORDER BY "@ + sanitized(col@) + " ASC "@,
        Some(OrderBy::Desc(col)) => "ORDER BY "@ + sanitized(col@) + " DESC "@,
        None => "ORDER BY id DESC "@,
    };
    match p.order_by {
        Some(OrderBy::Asc(col)) => {
            lemma_sanitized_sql(col@);
            lemma_join("ORDER BY "@, sanitized(col@));
            lemma_join("ORDER BY "@ + sanitized(col@), " ASC "@);
        },
        Some(OrderBy::Desc(col)) => {
            lemma_sanitized_sql(col@);
            lemma_join("ORDER BY "@, sanitized(col@));
            lemma_join("ORDER BY "@ + sanitized(col@), " DESC "@);
        },
        None => {},
    }
    let offset = if p.offset is Some {
        "OFFSET ? "@
    } else {
        Seq::empty()
    };
    lemma_join(order, "LIMIT ? "@);
    lemma_join(order + "LIMIT ? "@, offset);
}

/// Every character of a rendered read query is a name character or
/// punctuation of the query's own grammar: table and column names pass
/// through sanitising, and values reach the query only as placeholders.
pub proof fn lemma_query_sql_is_safe(q: QueryTree)
    ensures
        is_sql_text(query_sql(q)),
{
    lemma_query_facts(q);
}

/// A rendered read query holds exactly one `?` per parameter it returns.
pub proof fn lemma_query_placeholder_count(q: QueryTree)
    ensures
        count_qmarks(query_sql(q)) == query_params(q).len(),
{
    lemma_query_facts(q);
}

proof fn lemma_query_facts(q: QueryTree)
    ensures
        is_sql_text(query_sql(q)),
        count_qmarks(query_sql(q)) == query_params(q).len(),
{
    reveal_strlit("SELECT * FROM ");
    reveal_strlit(" WHERE ");
    reveal_strlit(" ");
    lemma_fixed("SELECT * FROM "@);
    lemma_fixed(" WHERE "@);
    lemma_fixed(" "@);
    lemma_sanitized_sql(q.table@);
    let filter = match q.condition {
        Some(c) => " WHERE "@ + condition_sql(c),
        None => Seq::empty(),
    };
    let page = match q.paginate {
        Some(p) => " "@ + paginate_sql(p),
        None => Seq::empty(),
    };
    match q.condition {
        Some(c) => {
            lemma_condition(c);
            lemma_join(" WHERE "@, condition_sql(c));
        },
        None => {},
    }
    match q.paginate {
        Some(p) => {
            lemma_paginate(p);
            lemma_join(" "@, paginate_sql(p));
        },
        None => {},
    }
    lemma_join("SELECT * FROM "@, sanitized(q.table@));
    lemma_join("SELECT * FROM "@ + sanitized(q.table@), filter);
    lemma_join("SELECT * FROM "@ + sanitized(q.table@) + filter, page);
}

proof fn lemma_column_list(keys: Seq<String>)
    ensures
        is_sql_text(column_list(keys)),
        count_qmarks(column_list(keys)) == 0,
    decreases keys.len(),
{
    reveal_strlit(", ");
    lemma_fixed(", "@);
    if keys.len() == 1 {
        lemma_sanitized_sql(keys[0]@);
    } else if keys.len() > 1 {
        lemma_column_list(keys.drop_last());
        lemma_sanitized_sql(keys.last()@);
        lemma_join(column_list(keys.drop_last()), ", "@);
        lemma_join(column_list(keys.drop_last()) + ", "@, sanitized(keys.last()@));
    }
}

proof fn lemma_assignment(k: String)
    ensures
        is_sql_text("\""@ + sanitized(k@) + "\" = ?"@),
        count_qmarks("\""@ + sanitized(k@) + "\" = ?"@) == 1,
{
    reveal_strlit("\"");
    reveal_strlit("\" = ?");
    lemma_fixed("\""@);
    lemma_sanitized_sql(k@);
    let head = seq!['"', ' ', '=', ' '];
    assert("\" = ?"@ =~= head + seq!['?'] + Seq::<char>::empty());
    lemma_one_qmark(head, Seq::<char>::empty());
    lemma_join("\""@, sanitized(k@));
    lemma_join("\""@ + sanitized(k@), "\" = ?"@);
}

proof fn lemma_assignment_list(keys: Seq<String>)
    ensures
        is_sql_text(assignment_list(keys)),
        count_qmarks(assignment_list(keys)) == keys.len(),
    decreases keys.len(),
{
    reveal_strlit(", ");
    lemma_fixed(", "@);
    if keys.len() == 1 {
        lemma_assignment(keys[0]);
    } else if keys.len() > 1 {
        lemma_assignment_list(keys.drop_last());
        lemma_assignment(keys.last());
        let one = "\""@ + sanitized(keys.last()@) + "\" = ?"@;
        lemma_join(assignment_list(keys.drop_last()), ", "@);
        lemma_join(assignment_list(keys.drop_last()) + ", "@, one);
        assert(assignment_list(keys.drop_last()) + ", "@ + "\""@ + sanitized(keys.last()@)
            + "\" = ?"@ =~= assignment_list(keys.drop_last()) + ", "@ + one);
    }
}

proof fn lemma_groups(n: nat, m: nat)
    ensures
        is_sql_text(placeholder_groups(n, m)),
        count_qmarks(placeholder_groups(n, m)) == n * m,
    decreases m,
{
    if m == 0 {
        assert(n * 0 == 0) by (nonlinear_arith);
        lemma_fixed(Seq::<char>::empty());
    } else if m == 1 {
        lemma_group(n);
        assert(n * 1 == n) by (nonlinear_arith);
    } else {
        lemma_groups(n, (m - 1) as nat);
        lemma_group(n);
        lemma_fixed(seq![',', ' ']);
        lemma_join(placeholder_groups(n, (m - 1) as nat), seq![',', ' ']);
        lemma_join(placeholder_groups(n, (m - 1) as nat) + seq![',', ' '], placeholder_group(n));
        assert(n * (m - 1) + n == n * m) by (nonlinear_arith);
    }
}

proof fn lemma_row_params_len(keys: Seq<String>, row: JsonObject)
    ensures
        row_params(keys, row) matches Ok(ps) ==> ps.len() == keys.len(),
    decreases keys.len(),
{
    if keys.len() > 0 {
        lemma_row_params_len(keys.drop_last(), row);
    }
}

proof fn lemma_rows_params_len(keys: Seq<String>, rows: Seq<JsonObject>)
    ensures
        rows_params(keys, rows) matches Ok(ps) ==> ps.len() == keys.len() * rows.len(),
    decreases rows.len(),
{
    if rows.len() > 0 {
        lemma_rows_params_len(keys, rows.drop_last());
        lemma_row_params_len(keys, rows.last());
        assert(keys.len() * (rows.len() - 1) + keys.len() == keys.len() * rows.len())
            by (nonlinear_arith);
    }
}

/// A prepared write holds exactly one `?` per parameter, and is made of the
/// same safe characters as a read query.
pub proof fn lemma_prepared_placeholder_count(op: GranularOperation)
    ensures
        prepared(op) matches Ok((sql, ps)) ==> is_sql_text(sql) && count_qmarks(sql) == ps.len(),
{
    reveal_strlit("INSERT INTO ");
    reveal_strlit(" (");
    reveal_strlit(") VALUES ");
    reveal_strlit(" RETURNING *");
    reveal_strlit("UPDATE ");
    reveal_strlit(" SET ");
    reveal_strlit("DELETE FROM ");
    reveal_strlit(" WHERE id = ? RETURNING *");
    lemma_fixed("INSERT INTO "@);
    lemma_fixed(" ("@);
    lemma_fixed(") VALUES "@);
    lemma_fixed(" RETURNING *"@);
    lemma_fixed("UPDATE "@);
    lemma_fixed(" SET "@);
    lemma_fixed("DELETE FROM "@);
    let head = seq![' ', 'W', 'H', 'E', 'R', 'E', ' ', 'i', 'd', ' ', '=', ' '];
    let tail = seq![' ', 'R', 'E', 'T', 'U', 'R', 'N', 'I', 'N', 'G', ' ', '*'];
    assert(" WHERE id = ? RETURNING *"@ =~= head + seq!['?'] + tail);
    lemma_one_qmark(head, tail);
    let by_id = " WHERE id = ? RETURNING *"@;
    match op {
        GranularOperation::Create { table, data } => {
            let keys = keys_of(data);
            lemma_row_params_len(keys, data);
            lemma_sanitized_sql(table@);
            lemma_column_list(keys);
            lemma_group(keys.len());
            let a = "INSERT INTO "@ + sanitized(table@);
            lemma_join("INSERT INTO "@, sanitized(table@));
            lemma_join(a, " ("@);
            lemma_join(a + " ("@, column_list(keys));
            lemma_join(a + " ("@ + column_list(keys), ") VALUES "@);
            lemma_join(a + " ("@ + column_list(keys) + ") VALUES "@, placeholder_group(keys.len()));
            lemma_join(
                a + " ("@ + column_list(keys) + ") VALUES "@ + placeholder_group(keys.len()),
                " RETURNING *"@,
            );
            assert(insert_sql(table@, keys) == a + " ("@ + column_list(keys) + ") VALUES "@
                + placeholder_group(keys.len()) + " RETURNING *"@);
        },
        GranularOperation::CreateMany { table, data } => {
            if data@.len() > 0 {
                let keys = keys_of(data@[0]);
                let g = placeholder_groups(keys.len(), data@.len());
                lemma_rows_params_len(keys, data@);
                lemma_sanitized_sql(table@);
                lemma_column_list(keys);
                lemma_groups(keys.len(), data@.len());
                let a = "INSERT INTO "@ + sanitized(table@);
                lemma_join("INSERT INTO "@, sanitized(table@));
                lemma_join(a, " ("@);
                lemma_join(a + " ("@, column_list(keys));
                lemma_join(a + " ("@ + column_list(keys), ") VALUES "@);
                lemma_join(a + " ("@ + column_list(keys) + ") VALUES "@, g);
                lemma_join(a + " ("@ + column_list(keys) + ") VALUES "@ + g, " RETURNING *"@);
                assert(insert_many_sql(table@, keys, data@.len()) == a + " ("@ + column_list(keys)
                    + ") VALUES "@ + g + " RETURNING *"@);
            }
        },
        GranularOperation::Update { table, id, data } => {
            let keys = keys_of(data);
            lemma_row_params_len(keys, data);
            lemma_sanitized_sql(table@);
            lemma_assignment_list(keys);
            let a = "UPDATE "@ + sanitized(table@);
            lemma_join("UPDATE "@, sanitized(table@));
            lemma_join(a, " SET "@);
            lemma_join(a + " SET "@, assignment_list(keys));
            lemma_join(a + " SET "@ + assignment_list(keys), by_id);
            assert(update_sql(table@, keys) == a + " SET "@ + assignment_list(keys) + by_id);
        },
        GranularOperation::Delete { table, id } => {
            lemma_sanitized_sql(table@);
            lemma_join("DELETE FROM "@, sanitized(table@));
            lemma_join("DELETE FROM "@ + sanitized(table@), by_id);
        },
    }
}

} // verus!
