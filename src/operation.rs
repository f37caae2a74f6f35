//! Write operations: the statement and parameters each one runs, and the
//! notification built from the rows the database returns.

use vstd::prelude::*;

use crate::render::{
    delete_sql, delete_statement, insert_many_sql, insert_many_statement, insert_sql,
    insert_statement, update_sql, update_statement,
};
use crate::value::{scalar_of, FinalType, JsonObject, JsonValue};

verus! {

broadcast use vstd::std_specs::vec::group_vec_axioms;

/// A write requested by a client. The data may be partial.
#[derive(Debug)]
pub enum GranularOperation {
    Create { table: String, data: JsonObject },
    CreateMany { table: String, data: Vec<JsonObject> },
    Update { table: String, id: FinalType, data: JsonObject },
    Delete { table: String, id: FinalType },
}

/// A committed write, carrying the full rows after it (for a delete, the
/// row as it was).
#[derive(Debug, Clone)]
pub enum OperationNotification<T> {
    Create { table: String, data: T },
    CreateMany { table: String, data: Vec<T> },
    Update { table: String, id: FinalType, data: T },
    Delete { table: String, id: FinalType, data: T },
}

/// Something that belongs to one table.
pub trait Tabled {
    /// The table's name.
    spec fn table_of(&self) -> Seq<char>;

    /// The table's name.
    fn get_table(&self) -> (r: &str)
        ensures
            r@ == self.table_of(),
    ;
}

impl Tabled for GranularOperation {
    open spec fn table_of(&self) -> Seq<char> {
        match self {
            GranularOperation::Create { table, .. } => table@,
            GranularOperation::CreateMany { table, .. } => table@,
            GranularOperation::Update { table, .. } => table@,
            GranularOperation::Delete { table, .. } => table@,
        }
    }

    fn get_table(&self) -> (r: &str) {
        match self {
            GranularOperation::Create { table, .. } => table.as_str(),
            GranularOperation::CreateMany { table, .. } => table.as_str(),
            GranularOperation::Update { table, .. } => table.as_str(),
            GranularOperation::Delete { table, .. } => table.as_str(),
        }
    }
}

impl<T> Tabled for OperationNotification<T> {
    open spec fn table_of(&self) -> Seq<char> {
        match self {
            OperationNotification::Create { table, .. } => table@,
            OperationNotification::CreateMany { table, .. } => table@,
            OperationNotification::Update { table, .. } => table@,
            OperationNotification::Delete { table, .. } => table@,
        }
    }

    fn get_table(&self) -> (r: &str) {
        match self {
            OperationNotification::Create { table, .. } => table.as_str(),
            OperationNotification::CreateMany { table, .. } => table.as_str(),
            OperationNotification::Update { table, .. } => table.as_str(),
            OperationNotification::Delete { table, .. } => table.as_str(),
        }
    }
}

/// The keys of an object, in entry order; every row of a batch is read in
/// this order.
pub fn ordered_keys(object: &JsonObject) -> (r: Vec<String>)
    ensures
        r@.len() == object.entries@.len(),
        forall|i: int| 0 <= i < r@.len() ==> #[trigger] r@[i] == object.entries@[i].0,
{
    let mut keys: Vec<String> = Vec::new();
    let mut i: usize = 0;
    while i < object.entries.len()
        invariant
            i <= object.entries@.len(),
            keys@.len() == i,
            forall|k: int| 0 <= k < i ==> #[trigger] keys@[k] == object.entries@[k].0,
        decreases object.entries.len() - i,
    {
        keys.push(object.entries[i].0.clone());
        i = i + 1;
    }
    keys
}

/// Why a write could not be turned into a statement.
#[derive(Debug, Clone, Copy, PartialEq, Eq, Structural)]
pub enum OperationError {
    /// A row of a batch lacks a key of the first row.
    MissingKey,
    /// A value is an array or an object.
    IncompatibleValue,
    /// A batch insert without rows.
    EmptyBatch,
}

/// A statement and the values to bind to its placeholders, in order.
#[derive(Debug)]
pub struct PreparedStatement {
    pub sql: String,
    pub params: Vec<FinalType>,
}

/// The scalar bound for column `key` of `row`.
pub open spec fn field_param(row: JsonObject, key: Seq<char>) -> Result<FinalType, OperationError> {
    match row.lookup(key) {
        None => Err(OperationError::MissingKey),
        Some(v) => match scalar_of(v) {
            None => Err(OperationError::IncompatibleValue),
            Some(s) => Ok(s),
        },
    }
}

/// The scalars bound for the columns `keys` of `row`, in order; the first
/// failing column decides the error.
pub open spec fn row_params(keys: Seq<String>, row: JsonObject) -> Result<
    Seq<FinalType>,
    OperationError,
>
    decreases keys.len(),
{
    if keys.len() == 0 {
        Ok(Seq::empty())
    } else {
        match row_params(keys.drop_last(), row) {
            Err(e) => Err(e),
            Ok(ps) => match field_param(row, keys.last()@) {
                Err(e) => Err(e),
                Ok(s) => Ok(ps.push(s)),
            },
        }
    }
}

/// The scalars bound for the columns `keys` of each row, row after row; the
/// first failing row decides the error.
pub open spec fn rows_params(keys: Seq<String>, rows: Seq<JsonObject>) -> Result<
    Seq<FinalType>,
    OperationError,
>
    decreases rows.len(),
{
    if rows.len() == 0 {
        Ok(Seq::empty())
    } else {
        match rows_params(keys, rows.drop_last()) {
            Err(e) => Err(e),
            Ok(ps) => match row_params(keys, rows.last()) {
                Err(e) => Err(e),
                Ok(qs) => Ok(ps + qs),
            },
        }
    }
}

fn push_row_params(keys: &Vec<String>, row: &JsonObject, params: &mut Vec<FinalType>) -> (r: Result<
    (),
    OperationError,
>)
    ensures
        match row_params(keys@, *row) {
            Ok(ps) => r is Ok && final(params)@ == old(params)@ + ps,
            Err(e) => r == Err::<(), OperationError>(e),
        },
{
    let ghost p0 = params@;
    let mut i: usize = 0;
    while i < keys.len()
        invariant
            i <= keys@.len(),
            row_params(keys@.subrange(0, i as int), *row) is Ok,
            params@ == p0 + row_params(keys@.subrange(0, i as int), *row)->Ok_0,
        decreases keys.len() - i,
    {
        let ghost prefix = keys@.subrange(0, i + 1);
        assert(prefix.drop_last() =~= keys@.subrange(0, i as int));
        assert(prefix.last() == keys@[i as int]);
        match row.get(&keys[i]) {
            None => {
                proof { lemma_row_params_error_persists(keys@, *row, i as int + 1); }
                return Err(OperationError::MissingKey);
            },
            Some(v) => match FinalType::from_json_ref(v) {
                None => {
                    proof { lemma_row_params_error_persists(keys@, *row, i as int + 1); }
                    return Err(OperationError::IncompatibleValue);
                },
                Some(s) => {
                    params.push(s);
                },
            },
        }
        i = i + 1;
        assert(params@ =~= p0 + row_params(keys@.subrange(0, i as int), *row)->Ok_0);
    }
    assert(keys@.subrange(0, keys@.len() as int) =~= keys@);
    Ok(())
}

proof fn lemma_row_params_error_persists(keys: Seq<String>, row: JsonObject, n: int)
    requires
        0 <= n <= keys.len(),
        row_params(keys.subrange(0, n), row) is Err,
    ensures
        row_params(keys, row) == row_params(keys.subrange(0, n), row),
    decreases keys.len() - n,
{
    if n < keys.len() {
        let next = keys.subrange(0, n + 1);
        assert(next.drop_last() =~= keys.subrange(0, n));
        lemma_row_params_error_persists(keys, row, n + 1);
    } else {
        assert(keys.subrange(0, n) =~= keys);
    }
}

/// The keys of an object, in entry order.
pub open spec fn keys_of(o: JsonObject) -> Seq<String> {
    o.entries@.map_values(|e: (String, JsonValue)| e.0)
}

/// The statement text and parameters a write runs: an insert with the
/// columns of the (first) row, an update of the given columns followed by
/// the id, or a delete by id.
pub open spec fn prepared(op: GranularOperation) -> Result<(Seq<char>, Seq<FinalType>), OperationError> {
    match op {
        GranularOperation::Create { table, data } => match row_params(keys_of(data), data) {
            Err(e) => Err(e),
            Ok(ps) => Ok((insert_sql(table@, keys_of(data)), ps)),
        },
        GranularOperation::CreateMany { table, data } => if data@.len() == 0 {
            Err(OperationError::EmptyBatch)
        } else {
            match rows_params(keys_of(data@[0]), data@) {
                Err(e) => Err(e),
                Ok(ps) => Ok((insert_many_sql(table@, keys_of(data@[0]), data@.len()), ps)),
            }
        },
        GranularOperation::Update { table, id, data } => match row_params(keys_of(data), data) {
            Err(e) => Err(e),
            Ok(ps) => Ok((update_sql(table@, keys_of(data)), ps.push(id))),
        },
        GranularOperation::Delete { table, id } => Ok((delete_sql(table@), seq![id])),
    }
}

fn keys_vec(object: &JsonObject) -> (r: Vec<String>)
    ensures
        r@ == keys_of(*object),
{
    let keys = ordered_keys(object);
    assert(keys@ =~= keys_of(*object));
    keys
}

proof fn lemma_rows_params_error_persists(keys: Seq<String>, rows: Seq<JsonObject>, n: int)
    requires
        0 <= n <= rows.len(),
        rows_params(keys, rows.subrange(0, n)) is Err,
    ensures
        rows_params(keys, rows) == rows_params(keys, rows.subrange(0, n)),
    decreases rows.len() - n,
{
    if n < rows.len() {
        let next = rows.subrange(0, n + 1);
        assert(next.drop_last() =~= rows.subrange(0, n));
        lemma_rows_params_error_persists(keys, rows, n + 1);
    } else {
        assert(rows.subrange(0, n) =~= rows);
    }
}

/// The statement and parameters that carry out `op`.
pub fn prepare_operation(op: &GranularOperation) -> (r: Result<PreparedStatement, OperationError>)
    ensures
        match prepared(*op) {
            Ok((sql, ps)) => r is Ok && r->Ok_0.sql@ == sql && r->Ok_0.params@ == ps,
            Err(e) => r == Err::<PreparedStatement, OperationError>(e),
        },
{
    match op {
        GranularOperation::Create { table, data } => {
            let keys = keys_vec(data);
            let mut params: Vec<FinalType> = Vec::new();
            match push_row_params(&keys, data, &mut params) {
                Err(e) => Err(e),
                Ok(()) => {
                    assert(params@ =~= row_params(keys@, *data)->Ok_0);
                    let sql = insert_statement(table.as_str(), keys.as_slice());
                    Ok(PreparedStatement { sql, params })
                },
            }
        },
        GranularOperation::CreateMany { table, data } => {
            if data.len() == 0 {
                return Err(OperationError::EmptyBatch);
            }
            let keys = keys_vec(&data[0]);
            let mut params: Vec<FinalType> = Vec::new();
            let mut i: usize = 0;
            assert(data@.subrange(0, 0) =~= Seq::<JsonObject>::empty());
            while i < data.len()
                invariant
                    *op == (GranularOperation::CreateMany { table: *table, data: *data }),
                    data@.len() > 0,
                    keys@ == keys_of(data@[0]),
                    i <= data@.len(),
                    rows_params(keys@, data@.subrange(0, i as int)) is Ok,
                    params@ == rows_params(keys@, data@.subrange(0, i as int))->Ok_0,
                decreases data.len() - i,
            {
                let ghost prefix = data@.subrange(0, i + 1);
                assert(prefix.drop_last() =~= data@.subrange(0, i as int));
                assert(prefix.last() == data@[i as int]);
                match push_row_params(&keys, &data[i], &mut params) {
                    Err(e) => {
                        proof { lemma_rows_params_error_persists(keys@, data@, i as int + 1); }
                        return Err(e);
                    },
                    Ok(()) => {},
                }
                i = i + 1;
            }
            assert(data@.subrange(0, data@.len() as int) =~= data@);
            let sql = insert_many_statement(table.as_str(), keys.as_slice(), data.len());
            Ok(PreparedStatement { sql, params })
        },
        GranularOperation::Update { table, id, data } => {
            let keys = keys_vec(data);
            let mut params: Vec<FinalType> = Vec::new();
            match push_row_params(&keys, data, &mut params) {
                Err(e) => Err(e),
                Ok(()) => {
                    params.push(id.duplicate());
                    let sql = update_statement(table.as_str(), keys.as_slice());
                    Ok(PreparedStatement { sql, params })
                },
            }
        },
        GranularOperation::Delete { table, id } => {
            let mut params: Vec<FinalType> = Vec::new();
            params.push(id.duplicate());
            let sql = delete_statement(table.as_str());
            assert(params@ =~= seq![*id]);
            Ok(PreparedStatement { sql, params })
        },
    }
}

/// The notification for a write whose statement returned `rows`. A create,
/// update or delete that returned no row (for an update or a delete: no row
/// had that id) yields none.
pub open spec fn notification_of<T>(op: GranularOperation, rows: Vec<T>) -> Option<
    OperationNotification<T>,
> {
    match op {
        GranularOperation::Create { table, .. } => if rows@.len() == 0 {
            None
        } else {
            Some(OperationNotification::Create { table, data: rows@[0] })
        },
        GranularOperation::CreateMany { table, .. } => Some(
            OperationNotification::CreateMany { table, data: rows },
        ),
        GranularOperation::Update { table, id, .. } => if rows@.len() == 0 {
            None
        } else {
            Some(OperationNotification::Update { table, id, data: rows@[0] })
        },
        GranularOperation::Delete { table, id } => if rows@.len() == 0 {
            None
        } else {
            Some(OperationNotification::Delete { table, id, data: rows@[0] })
        },
    }
}

/// The notification for a write whose statement returned `rows`.
pub fn notification_from_rows<T>(op: GranularOperation, rows: Vec<T>) -> (r: Option<
    OperationNotification<T>,
>)
    ensures
        r == notification_of(op, rows),
{
    let mut rows = rows;
    match op {
        GranularOperation::CreateMany { table, .. } => {
            Some(OperationNotification::CreateMany { table, data: rows })
        },
        GranularOperation::Create { table, .. } => {
            if rows.len() == 0 {
                None
            } else {
                let data = rows.remove(0);
                Some(OperationNotification::Create { table, data })
            }
        },
        GranularOperation::Update { table, id, .. } => {
            if rows.len() == 0 {
                None
            } else {
                let data = rows.remove(0);
                Some(OperationNotification::Update { table, id, data })
            }
        },
        GranularOperation::Delete { table, id } => {
            if rows.len() == 0 {
                None
            } else {
                let data = rows.remove(0);
                Some(OperationNotification::Delete { table, id, data })
            }
        },
    }
}

} // verus!
