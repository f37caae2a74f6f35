//! Rendering queries and write statements to parameterised SQL.

use vstd::prelude::*;

use crate::query::{Condition, Constraint, Operator, OrderBy, PaginateOptions, QueryTree};
use crate::text::{chars_of, string_from_chars};
use crate::value::{ConstraintValue, FinalType, Number};

verus! {

broadcast use vstd::std_specs::vec::group_vec_axioms;

/// Characters allowed in a table or column name.
pub open spec fn is_ident_char(c: char) -> bool {
    ('a' <= c && c <= 'z') || ('A' <= c && c <= 'Z') || ('0' <= c && c <= '9') || c == '_'
}

/// `s` with every character that may not stand in a name removed.
pub open spec fn sanitized(s: Seq<char>) -> Seq<char>
    decreases s.len(),
{
    if s.len() == 0 {
        Seq::empty()
    } else if is_ident_char(s.last()) {
        sanitized(s.drop_last()).push(s.last())
    } else {
        sanitized(s.drop_last())
    }
}

/// Keep only letters, digits and underscores of a table or column name.
pub fn sanitize_identifier(s: &str) -> (r: String)
    ensures
        r@ == sanitized(s@),
{
    let v = chars_of(s);
    let mut out: Vec<char> = Vec::new();
    let mut i: usize = 0;
    while i < v.len()
        invariant
            v@ == s@,
            i <= v@.len(),
            out@ == sanitized(v@.subrange(0, i as int)),
        decreases v.len() - i,
    {
        assert(v@.subrange(0, i + 1).drop_last() =~= v@.subrange(0, i as int));
        let c = v[i];
        if ('a' <= c && c <= 'z') || ('A' <= c && c <= 'Z') || ('0' <= c && c <= '9') || c == '_' {
            out.push(c);
        }
        i = i + 1;
    }
    assert(v@.subrange(0, v@.len() as int) =~= v@);
    string_from_chars(&out)
}

/// `?, ?, …, ?` with `n` question marks.
pub open spec fn qmarks(n: nat) -> Seq<char>
    decreases n,
{
    if n == 0 {
        Seq::empty()
    } else if n == 1 {
        seq!['?']
    } else {
        qmarks((n - 1) as nat) + seq![',', ' ', '?']
    }
}

/// `(?, ?, …, ?)` with `n` question marks.
pub open spec fn placeholder_group(n: nat) -> Seq<char> {
    seq!['('] + qmarks(n) + seq![')']
}

/// `m` copies of `placeholder_group(n)`, separated by `, `.
pub open spec fn placeholder_groups(n: nat, m: nat) -> Seq<char>
    decreases m,
{
    if m == 0 {
        Seq::empty()
    } else if m == 1 {
        placeholder_group(n)
    } else {
        placeholder_groups(n, (m - 1) as nat) + seq![',', ' '] + placeholder_group(n)
    }
}

fn push_group(out: &mut Vec<char>, count: usize)
    ensures
        final(out)@ == old(out)@ + placeholder_group(count as nat),
{
    let ghost start = out@;
    out.push('(');
    let mut i: usize = 0;
    while i < count
        invariant
            i <= count,
            out@ == start + seq!['('] + qmarks(i as nat),
        decreases count - i,
    {
        if i > 0 {
            out.push(',');
            out.push(' ');
        }
        out.push('?');
        i = i + 1;
        assert(out@ =~= start + seq!['('] + qmarks(i as nat));
    }
    out.push(')');
    assert(out@ =~= start + placeholder_group(count as nat));
}

/// `(?, ?, …, ?)` with `count` question marks, for one row of values.
pub fn placeholders(count: usize) -> (r: String)
    ensures
        r@ == placeholder_group(count as nat),
{
    let mut out: Vec<char> = Vec::new();
    push_group(&mut out, count);
    assert(out@ =~= placeholder_group(count as nat));
    string_from_chars(&out)
}

/// `n_repeat` groups of `count` placeholders, separated by `, `, for as many
/// rows of values.
pub fn repeat_placeholders(count: usize, n_repeat: usize) -> (r: String)
    ensures
        r@ == placeholder_groups(count as nat, n_repeat as nat),
{
    let mut out: Vec<char> = Vec::new();
    let mut i: usize = 0;
    while i < n_repeat
        invariant
            i <= n_repeat,
            out@ == placeholder_groups(count as nat, i as nat),
        decreases n_repeat - i,
    {
        if i > 0 {
            out.push(',');
            out.push(' ');
        }
        push_group(&mut out, count);
        i = i + 1;
        assert(out@ =~= placeholder_groups(count as nat, i as nat));
    }
    string_from_chars(&out)
}

/// The decimal digit for `d`.
pub open spec fn digit_char(d: nat) -> char {
    if d == 0 { '0' } else if d == 1 { '1' } else if d == 2 { '2' } else if d == 3 { '3' }
    else if d == 4 { '4' } else if d == 5 { '5' } else if d == 6 { '6' } else if d == 7 { '7' }
    else if d == 8 { '8' } else { '9' }
}

/// The decimal notation of `n`.
pub open spec fn decimal(n: nat) -> Seq<char>
    decreases n,
{
    if n < 10 {
        seq![digit_char(n)]
    } else {
        decimal(n / 10).push(digit_char(n % 10))
    }
}

fn digit(d: u64) -> (c: char)
    requires
        d < 10,
    ensures
        c == digit_char(d as nat),
{
    if d == 0 { '0' } else if d == 1 { '1' } else if d == 2 { '2' } else if d == 3 { '3' }
    else if d == 4 { '4' } else if d == 5 { '5' } else if d == 6 { '6' } else if d == 7 { '7' }
    else if d == 8 { '8' } else { '9' }
}

fn push_decimal(out: &mut Vec<char>, n: u64)
    ensures
        final(out)@ == old(out)@ + decimal(n as nat),
    decreases n,
{
    if n >= 10 {
        push_decimal(out, n / 10);
    }
    out.push(digit(n % 10));
    assert(final(out)@ =~= old(out)@ + decimal(n as nat));
}

/// Number of `?` in `s`.
pub open spec fn count_qmarks(s: Seq<char>) -> nat
    decreases s.len(),
{
    if s.len() == 0 {
        0
    } else if s.last() == '?' {
        count_qmarks(s.drop_last()) + 1
    } else {
        count_qmarks(s.drop_last())
    }
}

/// `s` with its k-th `?` replaced by `$k`, counting from 1.
pub open spec fn numbered(s: Seq<char>) -> Seq<char>
    decreases s.len(),
{
    if s.len() == 0 {
        Seq::empty()
    } else if s.last() == '?' {
        numbered(s.drop_last()) + seq!['$'] + decimal(count_qmarks(s.drop_last()) + 1)
    } else {
        numbered(s.drop_last()).push(s.last())
    }
}

/// Replace the k-th `?` of `query` by `$k`, for backends with numbered
/// placeholders.
pub fn to_numbered_placeholders(query: &str) -> (r: String)
    ensures
        r@ == numbered(query@),
{
    let v = chars_of(query);
    let mut out: Vec<char> = Vec::new();
    let mut seen: usize = 0;
    let mut i: usize = 0;
    while i < v.len()
        invariant
            v@ == query@,
            i <= v@.len(),
            seen == count_qmarks(v@.subrange(0, i as int)),
            count_qmarks(v@.subrange(0, i as int)) <= i,
            out@ == numbered(v@.subrange(0, i as int)),
        decreases v.len() - i,
    {
        assert(v@.subrange(0, i + 1).drop_last() =~= v@.subrange(0, i as int));
        let c = v[i];
        if c == '?' {
            out.push('$');
            seen = seen + 1;
            push_decimal(&mut out, seen as u64);
        } else {
            out.push(c);
        }
        i = i + 1;
    }
    assert(v@.subrange(0, v@.len() as int) =~= v@);
    string_from_chars(&out)
}

/// The SQL token of an operator.
pub open spec fn operator_sql(op: Operator) -> Seq<char> {
    match op {
        Operator::Equal => "="@,
        Operator::LessThan => "<"@,
        Operator::GreaterThan => ">"@,
        Operator::LessThanOrEqual => "<="@,
        Operator::GreaterThanOrEqual => ">="@,
        Operator::NotEqual => "!="@,
        Operator::In => "in"@,
        Operator::Like => "like"@,
        Operator::ILike => "ilike"@,
    }
}

fn operator_token(op: &Operator) -> (r: &'static str)
    ensures
        r@ == operator_sql(*op),
{
    match op {
        Operator::Equal => "=",
        Operator::LessThan => "<",
        Operator::GreaterThan => ">",
        Operator::LessThanOrEqual => "<=",
        Operator::GreaterThanOrEqual => ">=",
        Operator::NotEqual => "!=",
        Operator::In => "in",
        Operator::Like => "like",
        Operator::ILike => "ilike",
    }
}

/// SQL of a constraint: the quoted, sanitised column, the operator, and one
/// placeholder, or a group of them for a list.
pub open spec fn constraint_sql(c: Constraint) -> Seq<char> {
    "\""@ + sanitized(c.column@) + "\" "@ + operator_sql(c.operator) + " "@ + match c.value {
        ConstraintValue::Final(_) => "?"@,
        ConstraintValue::List(l) => placeholder_group(l@.len()),
    }
}

/// Parameters of a constraint, in placeholder order.
pub open spec fn constraint_params(c: Constraint) -> Seq<FinalType> {
    match c.value {
        ConstraintValue::Final(v) => seq![v],
        ConstraintValue::List(l) => l@,
    }
}

/// SQL of a condition. An empty `and` renders as a true comparison and an
/// empty `or` as a false one.
pub open spec fn condition_sql(c: Condition) -> Seq<char>
    decreases c,
{
    match c {
        Condition::Single { constraint } => constraint_sql(constraint),
        Condition::And { conditions } => if conditions@.len() == 0 {
            "(1 = 1)"@
        } else {
            "("@ + joined_sql(conditions@, " AND "@) + ")"@
        },
        Condition::Or { conditions } => if conditions@.len() == 0 {
            "(1 = 0)"@
        } else {
            "("@ + joined_sql(conditions@, " OR "@) + ")"@
        },
    }
}

/// SQL of a list of conditions joined by `sep`.
pub open spec fn joined_sql(cs: Seq<Condition>, sep: Seq<char>) -> Seq<char>
    decreases cs,
{
    if cs.len() == 0 {
        Seq::empty()
    } else if cs.len() == 1 {
        condition_sql(cs[0])
    } else {
        joined_sql(cs.drop_last(), sep) + sep + condition_sql(cs.last())
    }
}

/// Parameters of a condition, in placeholder order.
pub open spec fn condition_params(c: Condition) -> Seq<FinalType>
    decreases c,
{
    match c {
        Condition::Single { constraint } => constraint_params(constraint),
        Condition::And { conditions } => joined_params(conditions@),
        Condition::Or { conditions } => joined_params(conditions@),
    }
}

/// Parameters of a list of conditions, in placeholder order.
pub open spec fn joined_params(cs: Seq<Condition>) -> Seq<FinalType>
    decreases cs,
{
    if cs.len() == 0 {
        Seq::empty()
    } else {
        joined_params(cs.drop_last()) + condition_params(cs.last())
    }
}

fn push_params(params: &mut Vec<FinalType>, values: &Vec<FinalType>)
    ensures
        final(params)@ == old(params)@ + values@,
{
    let ghost start = params@;
    let mut i: usize = 0;
    while i < values.len()
        invariant
            i <= values@.len(),
            params@ == start + values@.subrange(0, i as int),
        decreases values.len() - i,
    {
        params.push(values[i].duplicate());
        i = i + 1;
        assert(params@ =~= start + values@.subrange(0, i as int));
    }
    assert(values@.subrange(0, values@.len() as int) =~= values@);
}

/// Append the SQL and the parameters of a constraint.
pub fn render_constraint(c: &Constraint, sql: &mut String, params: &mut Vec<FinalType>)
    ensures
        final(sql)@ == old(sql)@ + constraint_sql(*c),
        final(params)@ == old(params)@ + constraint_params(*c),
{
    let ghost s0 = sql@;
    sql.append("\"");
    let column = sanitize_identifier(c.column.as_str());
    sql.append(column.as_str());
    sql.append("\" ");
    sql.append(operator_token(&c.operator));
    sql.append(" ");
    match &c.value {
        ConstraintValue::Final(v) => {
            sql.append("?");
            params.push(v.duplicate());
        },
        ConstraintValue::List(l) => {
            let group = placeholders(l.len());
            sql.append(group.as_str());
            push_params(params, l);
        },
    }
    assert(sql@ =~= s0 + constraint_sql(*c));
}

/// Append the SQL and the parameters of a condition.
pub fn render_condition(c: &Condition, sql: &mut String, params: &mut Vec<FinalType>)
    ensures
        final(sql)@ == old(sql)@ + condition_sql(*c),
        final(params)@ == old(params)@ + condition_params(*c),
    decreases c, 1nat,
{
    let ghost s0 = sql@;
    match c {
        Condition::Single { constraint } => render_constraint(constraint, sql, params),
        Condition::And { conditions } => {
            if conditions.len() == 0 {
                sql.append("(1 = 1)");
            } else {
                sql.append("(");
                reduce_constraints_list(conditions, " AND ", sql, params);
                sql.append(")");
                assert(sql@ =~= s0 + condition_sql(*c));
            }
        },
        Condition::Or { conditions } => {
            if conditions.len() == 0 {
                sql.append("(1 = 0)");
            } else {
                sql.append("(");
                reduce_constraints_list(conditions, " OR ", sql, params);
                sql.append(")");
                assert(sql@ =~= s0 + condition_sql(*c));
            }
        },
    }
}

/// Append the SQL of `conditions` joined by `sep`, and their parameters.
pub fn reduce_constraints_list(
    conditions: &Vec<Condition>,
    sep: &str,
    sql: &mut String,
    params: &mut Vec<FinalType>,
)
    ensures
        final(sql)@ == old(sql)@ + joined_sql(conditions@, sep@),
        final(params)@ == old(params)@ + joined_params(conditions@),
    decreases conditions, 0nat,
{
    let ghost s0 = sql@;
    let ghost p0 = params@;
    let mut i: usize = 0;
    while i < conditions.len()
        invariant
            i <= conditions@.len(),
            sql@ == s0 + joined_sql(conditions@.subrange(0, i as int), sep@),
            params@ == p0 + joined_params(conditions@.subrange(0, i as int)),
        decreases conditions.len() - i,
    {
        let ghost prefix = conditions@.subrange(0, i + 1);
        assert(prefix.drop_last() =~= conditions@.subrange(0, i as int));
        assert(prefix.last() == conditions@[i as int]);
        if i > 0 {
            sql.append(sep);
        }
        render_condition(&conditions[i], sql, params);
        i = i + 1;
        assert(sql@ =~= s0 + joined_sql(conditions@.subrange(0, i as int), sep@));
        assert(params@ =~= p0 + joined_params(conditions@.subrange(0, i as int)));
    }
    assert(conditions@.subrange(0, conditions@.len() as int) =~= conditions@);
}

/// The integer bound for a page size or an offset; values beyond the largest
/// signed 64-bit integer, which no table can reach, are bound as that integer.
pub open spec fn bound_count(n: u64) -> FinalType {
    FinalType::Number(Number::Int(if n > i64::MAX as u64 { i64::MAX } else { n as i64 }))
}

fn count_param(n: u64) -> (r: FinalType)
    ensures
        r == bound_count(n),
{
    if n > i64::MAX as u64 {
        FinalType::Number(Number::Int(i64::MAX))
    } else {
        FinalType::Number(Number::Int(n as i64))
    }
}

/// SQL of pagination: the order (by default `id` descending), the page size
/// and the optional offset.
pub open spec fn paginate_sql(p: PaginateOptions) -> Seq<char> {
    let order = match p.order_by {
        Some(OrderBy::Asc(col)) => "ORDER BY "@ + sanitized(col@) + " ASC "@,
        Some(OrderBy::Desc(col)) => "ORDER BY "@ + sanitized(col@) + " DESC "@,
        None => "ORDER BY id DESC "@,
    };
    let offset = if p.offset is Some {
        "OFFSET ? "@
    } else {
        Seq::empty()
    };
    order + "LIMIT ? "@ + offset
}

/// Parameters of pagination: the page size, then the offset if any.
pub open spec fn paginate_params(p: PaginateOptions) -> Seq<FinalType> {
    let offset = match p.offset {
        Some(o) => seq![bound_count(o)],
        None => Seq::empty(),
    };
    seq![bound_count(p.per_page)] + offset
}

/// Append the SQL and the parameters of pagination.
pub fn render_pagination(p: &PaginateOptions, sql: &mut String, params: &mut Vec<FinalType>)
    ensures
        final(sql)@ == old(sql)@ + paginate_sql(*p),
        final(params)@ == old(params)@ + paginate_params(*p),
{
    let ghost s0 = sql@;
    let ghost p0 = params@;
    match &p.order_by {
        Some(OrderBy::Asc(col)) => {
            sql.append("ORDER BY ");
            let c = sanitize_identifier(col.as_str());
            sql.append(c.as_str());
            sql.append(" ASC ");
        },
        Some(OrderBy::Desc(col)) => {
            sql.append("ORDER BY ");
            let c = sanitize_identifier(col.as_str());
            sql.append(c.as_str());
            sql.append(" DESC ");
        },
        None => {
            sql.append("ORDER BY id DESC ");
        },
    }
    sql.append("LIMIT ? ");
    params.push(count_param(p.per_page));
    match p.offset {
        Some(o) => {
            sql.append("OFFSET ? ");
            params.push(count_param(o));
        },
        None => {},
    }
    assert(sql@ =~= s0 + paginate_sql(*p));
    assert(params@ =~= p0 + paginate_params(*p));
}

/// SQL of a read query.
pub open spec fn query_sql(q: QueryTree) -> Seq<char> {
    let filter = match q.condition {
        Some(c) => " WHERE "@ + condition_sql(c),
        None => Seq::empty(),
    };
    let page = match q.paginate {
        Some(p) => " "@ + paginate_sql(p),
        None => Seq::empty(),
    };
    "SELECT * FROM "@ + sanitized(q.table@) + filter + page
}

/// Parameters of a read query, in placeholder order.
pub open spec fn query_params(q: QueryTree) -> Seq<FinalType> {
    let filter = match q.condition {
        Some(c) => condition_params(c),
        None => Seq::empty(),
    };
    let page = match q.paginate {
        Some(p) => paginate_params(p),
        None => Seq::empty(),
    };
    filter + page
}

/// The SQL text of a read query, with `?` placeholders, and the values to
/// bind to them in order.
pub fn prepare_sqlx_query(query: &QueryTree) -> (r: (String, Vec<FinalType>))
    ensures
        r.0@ == query_sql(*query),
        r.1@ == query_params(*query),
{
    let mut sql = String::from_str("SELECT * FROM ");
    let mut params: Vec<FinalType> = Vec::new();
    let table = sanitize_identifier(query.table.as_str());
    sql.append(table.as_str());
    match &query.condition {
        Some(c) => {
            sql.append(" WHERE ");
            render_condition(c, &mut sql, &mut params);
        },
        None => {},
    }
    match &query.paginate {
        Some(p) => {
            sql.append(" ");
            render_pagination(p, &mut sql, &mut params);
        },
        None => {},
    }
    assert(sql@ =~= query_sql(*query));
    assert(params@ =~= query_params(*query));
    (sql, params)
}

/// Sanitised column names joined by `, `.
pub open spec fn column_list(keys: Seq<String>) -> Seq<char>
    decreases keys.len(),
{
    if keys.len() == 0 {
        Seq::empty()
    } else if keys.len() == 1 {
        sanitized(keys[0]@)
    } else {
        column_list(keys.drop_last()) + ", "@ + sanitized(keys.last()@)
    }
}

/// `"column" = ?` for each key, joined by `, `.
pub open spec fn assignment_list(keys: Seq<String>) -> Seq<char>
    decreases keys.len(),
{
    if keys.len() == 0 {
        Seq::empty()
    } else if keys.len() == 1 {
        "\""@ + sanitized(keys[0]@) + "\" = ?"@
    } else {
        assignment_list(keys.drop_last()) + ", "@ + "\""@ + sanitized(keys.last()@) + "\" = ?"@
    }
}

fn push_columns(keys: &[String], sql: &mut String, quoted: bool)
    ensures
        final(sql)@ == old(sql)@ + if quoted {
            assignment_list(keys@)
        } else {
            column_list(keys@)
        },
{
    let ghost s0 = sql@;
    let mut i: usize = 0;
    while i < keys.len()
        invariant
            i <= keys@.len(),
            sql@ == s0 + if quoted {
                assignment_list(keys@.subrange(0, i as int))
            } else {
                column_list(keys@.subrange(0, i as int))
            },
        decreases keys.len() - i,
    {
        let ghost prefix = keys@.subrange(0, i + 1);
        assert(prefix.drop_last() =~= keys@.subrange(0, i as int));
        assert(prefix.last() == keys@[i as int]);
        if i > 0 {
            sql.append(", ");
        }
        let column = sanitize_identifier(keys[i].as_str());
        if quoted {
            sql.append("\"");
            sql.append(column.as_str());
            sql.append("\" = ?");
        } else {
            sql.append(column.as_str());
        }
        i = i + 1;
        if quoted {
            assert(sql@ =~= s0 + assignment_list(keys@.subrange(0, i as int)));
        } else {
            assert(sql@ =~= s0 + column_list(keys@.subrange(0, i as int)));
        }
    }
    assert(keys@.subrange(0, keys@.len() as int) =~= keys@);
}

/// `INSERT INTO t (k1, k2, …) VALUES (?, ?, …) RETURNING *`.
pub open spec fn insert_sql(table: Seq<char>, keys: Seq<String>) -> Seq<char> {
    "INSERT INTO "@ + sanitized(table) + " ("@ + column_list(keys) + ") VALUES "@
        + placeholder_group(keys.len()) + " RETURNING *"@
}

/// Like `insert_sql`, with one group of placeholders per row.
pub open spec fn insert_many_sql(table: Seq<char>, keys: Seq<String>, n_rows: nat) -> Seq<char> {
    "INSERT INTO "@ + sanitized(table) + " ("@ + column_list(keys) + ") VALUES "@
        + placeholder_groups(keys.len(), n_rows) + " RETURNING *"@
}

/// `UPDATE t SET "k1" = ?, … WHERE id = ? RETURNING *`.
pub open spec fn update_sql(table: Seq<char>, keys: Seq<String>) -> Seq<char> {
    "UPDATE "@ + sanitized(table) + " SET "@ + assignment_list(keys)
        + " WHERE id = ? RETURNING *"@
}

/// `DELETE FROM t WHERE id = ? RETURNING *`.
pub open spec fn delete_sql(table: Seq<char>) -> Seq<char> {
    "DELETE FROM "@ + sanitized(table) + " WHERE id = ? RETURNING *"@
}

/// The statement that inserts one row with the given columns.
pub fn insert_statement(table: &str, keys: &[String]) -> (r: String)
    ensures
        r@ == insert_sql(table@, keys@),
{
    let mut sql = String::from_str("INSERT INTO ");
    let t = sanitize_identifier(table);
    sql.append(t.as_str());
    sql.append(" (");
    push_columns(keys, &mut sql, false);
    sql.append(") VALUES ");
    let group = placeholders(keys.len());
    sql.append(group.as_str());
    sql.append(" RETURNING *");
    assert(sql@ =~= insert_sql(table@, keys@));
    sql
}

/// The statement that inserts `n_rows` rows with the given columns.
pub fn insert_many_statement(table: &str, keys: &[String], n_rows: usize) -> (r: String)
    ensures
        r@ == insert_many_sql(table@, keys@, n_rows as nat),
{
    let mut sql = String::from_str("INSERT INTO ");
    let t = sanitize_identifier(table);
    sql.append(t.as_str());
    sql.append(" (");
    push_columns(keys, &mut sql, false);
    sql.append(") VALUES ");
    let groups = repeat_placeholders(keys.len(), n_rows);
    sql.append(groups.as_str());
    sql.append(" RETURNING *");
    assert(sql@ =~= insert_many_sql(table@, keys@, n_rows as nat));
    sql
}

/// The statement that updates the given columns of the row with some id.
pub fn update_statement(table: &str, keys: &[String]) -> (r: String)
    ensures
        r@ == update_sql(table@, keys@),
{
    let mut sql = String::from_str("UPDATE ");
    let t = sanitize_identifier(table);
    sql.append(t.as_str());
    sql.append(" SET ");
    push_columns(keys, &mut sql, true);
    sql.append(" WHERE id = ? RETURNING *");
    assert(sql@ =~= update_sql(table@, keys@));
    sql
}

/// The statement that deletes the row with some id.
pub fn delete_statement(table: &str) -> (r: String)
    ensures
        r@ == delete_sql(table@),
{
    let mut sql = String::from_str("DELETE FROM ");
    let t = sanitize_identifier(table);
    sql.append(t.as_str());
    sql.append(" WHERE id = ? RETURNING *");
    assert(sql@ =~= delete_sql(table@));
    sql
}

} // verus!
