//! The query representation and its evaluation against a row.

use vstd::prelude::*;

use crate::like::{like, sql_ilike, sql_like};
use crate::text::lowercase_of;
use crate::value::{scalar_eq, scalar_lt, scalar_of, ConstraintValue, FinalType, JsonObject};

verus! {

/// Comparison operator of a constraint.
#[derive(Debug, Clone, Copy, PartialEq, Eq, Structural)]
pub enum Operator {
    Equal,
    LessThan,
    GreaterThan,
    LessThanOrEqual,
    GreaterThanOrEqual,
    NotEqual,
    In,
    Like,
    ILike,
}

/// A leaf of a condition: `column operator value`.
#[derive(Debug, Clone)]
pub struct Constraint {
    pub column: String,
    pub operator: Operator,
    pub value: ConstraintValue,
}

/// A condition tree. An empty `And` holds and an empty `Or` does not.
#[derive(Debug)]
pub enum Condition {
    And { conditions: Vec<Condition> },
    Or { conditions: Vec<Condition> },
    Single { constraint: Constraint },
}

/// Whether a query asks for one row or for all of them.
#[derive(Debug, Clone, Copy, PartialEq, Eq, Structural)]
pub enum ReturnType {
    Single,
    Many,
}

/// Sort column and direction.
#[derive(Debug, Clone)]
pub enum OrderBy {
    Asc(String),
    Desc(String),
}

/// Pagination: page size, rows to skip, and order.
#[derive(Debug, Clone)]
pub struct PaginateOptions {
    pub per_page: u64,
    pub offset: Option<u64>,
    pub order_by: Option<OrderBy>,
}

/// A read query on one table.
#[derive(Debug)]
pub struct QueryTree {
    pub return_type: ReturnType,
    pub table: String,
    pub condition: Option<Condition>,
    pub paginate: Option<PaginateOptions>,
}

/// Rows returned by a query: at most one, or a list.
#[derive(Debug, Clone)]
pub enum QueryData<D> {
    Single(Option<D>),
    Many(Vec<D>),
}

impl<D> QueryData<D> {
    /// The one row of a single-row result that found a row.
    pub fn unwrap_single(self) -> (r: D)
        requires
            self is Single && self->Single_0 is Some,
        ensures
            self == QueryData::<D>::Single(Some(r)),
    {
        match self {
            QueryData::Single(Some(data)) => data,
            QueryData::Single(None) => { proof { assert(false); } unreached() },
            QueryData::Many(_) => { proof { assert(false); } unreached() },
        }
    }

    /// The row of a single-row result, if one was found.
    pub fn unwrap_optional_single(self) -> (r: Option<D>)
        requires
            self is Single,
        ensures
            self == QueryData::<D>::Single(r),
    {
        match self {
            QueryData::Single(data) => data,
            QueryData::Many(_) => { proof { assert(false); } unreached() },
        }
    }

    /// The rows of a many-row result.
    pub fn unwrap_many(self) -> (r: Vec<D>)
        requires
            self is Many,
        ensures
            self == QueryData::<D>::Many(r),
    {
        match self {
            QueryData::Single(_) => { proof { assert(false); } unreached() },
            QueryData::Many(data) => data,
        }
    }
}

/// Why a condition could not be evaluated against a row.
#[derive(Debug, Clone, Copy, PartialEq, Eq, Structural)]
pub enum EvalError {
    /// The row has no value for the constraint's column.
    MissingColumn,
    /// The row's value for the column is an array or an object.
    IncompatibleValue,
    /// `in` without a list, or a list with another operator.
    OperatorMismatch,
}

/// `left op right` on scalars, `left` being the row's value. For `like` and
/// `ilike` the right operand is the pattern and the left one the text.
pub open spec fn scalar_holds(left: FinalType, op: Operator, right: FinalType) -> bool {
    match op {
        Operator::Equal => scalar_eq(left, right),
        Operator::LessThan => scalar_lt(left, right),
        Operator::GreaterThan => scalar_lt(right, left),
        Operator::LessThanOrEqual => scalar_lt(left, right) || scalar_eq(left, right),
        Operator::GreaterThanOrEqual => scalar_lt(right, left) || scalar_eq(left, right),
        Operator::NotEqual => !scalar_eq(left, right),
        Operator::Like => match (left, right) {
            (FinalType::String(t), FinalType::String(p)) => like(p@, t@),
            _ => false,
        },
        Operator::ILike => match (left, right) {
            (FinalType::String(t), FinalType::String(p)) => like(
                lowercase_of(p@),
                lowercase_of(t@),
            ),
            _ => false,
        },
        Operator::In => false,
    }
}

/// `left op right` where `right` is a constraint's value: `in` asks for a
/// list holding an element equal to `left`, every other operator for a scalar.
pub open spec fn value_holds(left: FinalType, op: Operator, right: ConstraintValue) -> Result<
    bool,
    EvalError,
> {
    match right {
        ConstraintValue::Final(v) => if op is In {
            Err(EvalError::OperatorMismatch)
        } else {
            Ok(scalar_holds(left, op, v))
        },
        ConstraintValue::List(l) => if op is In {
            Ok(exists|i: int| 0 <= i < l@.len() && scalar_eq(#[trigger] l@[i], left))
        } else {
            Err(EvalError::OperatorMismatch)
        },
    }
}

/// The outcome of a constraint on a row.
pub open spec fn constraint_eval(c: Constraint, row: JsonObject) -> Result<bool, EvalError> {
    match row.lookup(c.column@) {
        None => Err(EvalError::MissingColumn),
        Some(v) => match scalar_of(v) {
            None => Err(EvalError::IncompatibleValue),
            Some(s) => value_holds(s, c.operator, c.value),
        },
    }
}

/// The outcome of a condition on a row; `and` and `or` stop at the first
/// child that decides them, and at the first error.
pub open spec fn condition_eval(c: Condition, row: JsonObject) -> Result<bool, EvalError>
    decreases c,
{
    match c {
        Condition::Single { constraint } => constraint_eval(constraint, row),
        Condition::And { conditions } => all_eval(conditions@, row),
        Condition::Or { conditions } => any_eval(conditions@, row),
    }
}

/// Conjunction of a list of conditions, left to right.
pub open spec fn all_eval(cs: Seq<Condition>, row: JsonObject) -> Result<bool, EvalError>
    decreases cs,
{
    if cs.len() == 0 {
        Ok(true)
    } else {
        match condition_eval(cs[0], row) {
            Err(e) => Err(e),
            Ok(false) => Ok(false),
            Ok(true) => all_eval(cs.drop_first(), row),
        }
    }
}

/// Disjunction of a list of conditions, left to right.
pub open spec fn any_eval(cs: Seq<Condition>, row: JsonObject) -> Result<bool, EvalError>
    decreases cs,
{
    if cs.len() == 0 {
        Ok(false)
    } else {
        match condition_eval(cs[0], row) {
            Err(e) => Err(e),
            Ok(true) => Ok(true),
            Ok(false) => any_eval(cs.drop_first(), row),
        }
    }
}

/// The outcome of a query's filter on a row; a query without one matches.
pub open spec fn query_eval(q: QueryTree, row: JsonObject) -> Result<bool, EvalError> {
    match q.condition {
        None => Ok(true),
        Some(c) => condition_eval(c, row),
    }
}

} // verus!

verus! {

broadcast use vstd::std_specs::vec::group_vec_axioms;

impl FinalType {
    /// `self op other`, `self` being the row's value and `other` the
    /// constraint's; `in` compares against a list and is not handled here.
    pub fn compare(&self, other: &FinalType, operator: &Operator) -> (r: bool)
        requires
            !(*operator is In),
        ensures
            r == scalar_holds(*self, *operator, *other),
    {
        match operator {
            Operator::Equal => self.equals(other),
            Operator::LessThan => self.less_than(other),
            Operator::GreaterThan => self.greater_than(other),
            Operator::LessThanOrEqual => self.less_than_or_equal(other),
            Operator::GreaterThanOrEqual => self.greater_than_or_equal(other),
            Operator::NotEqual => !self.equals(other),
            Operator::Like => match (self, other) {
                (FinalType::String(t), FinalType::String(p)) => sql_like(p.as_str(), t.as_str()),
                _ => false,
            },
            Operator::ILike => match (self, other) {
                (FinalType::String(t), FinalType::String(p)) => sql_ilike(p.as_str(), t.as_str()),
                _ => false,
            },
            Operator::In => false,
        }
    }
}

impl ConstraintValue {
    /// `other operator self`: the constraint value is the right operand.
    pub fn compare(&self, other: &FinalType, operator: &Operator) -> (r: Result<bool, EvalError>)
        ensures
            r == value_holds(*other, *operator, *self),
    {
        match self {
            ConstraintValue::Final(v) => {
                if *operator == Operator::In {
                    Err(EvalError::OperatorMismatch)
                } else {
                    Ok(other.compare(v, operator))
                }
            },
            ConstraintValue::List(list) => {
                if *operator != Operator::In {
                    return Err(EvalError::OperatorMismatch);
                }
                let mut i: usize = 0;
                while i < list.len()
                    invariant
                        i <= list@.len(),
                        *operator is In,
                        *self == ConstraintValue::List(*list),
                        forall|k: int| 0 <= k < i ==> !scalar_eq(#[trigger] list@[k], *other),
                    decreases list.len() - i,
                {
                    if list[i].equals(other) {
                        assert(exists|k: int|
                            0 <= k < list@.len() && scalar_eq(#[trigger] list@[k], *other));
                        assert(self->List_0 == *list);
                        return Ok(true);
                    }
                    i = i + 1;
                }
                Ok(false)
            },
        }
    }
}

/// Something that a row either satisfies or not.
pub trait Checkable {
    /// The outcome of the check on `row`.
    spec fn eval_on(&self, row: JsonObject) -> Result<bool, EvalError>;

    /// Whether `object` satisfies `self`.
    fn check(&self, object: &JsonObject) -> (r: Result<bool, EvalError>)
        ensures
            r == self.eval_on(*object),
    ;
}

impl Checkable for Constraint {
    open spec fn eval_on(&self, row: JsonObject) -> Result<bool, EvalError> {
        constraint_eval(*self, row)
    }

    fn check(&self, object: &JsonObject) -> (r: Result<bool, EvalError>) {
        match object.get(&self.column) {
            None => Err(EvalError::MissingColumn),
            Some(v) => match FinalType::from_json_ref(v) {
                None => Err(EvalError::IncompatibleValue),
                Some(s) => self.value.compare(&s, &self.operator),
            },
        }
    }
}

fn check_condition(c: &Condition, object: &JsonObject) -> (r: Result<bool, EvalError>)
    ensures
        r == condition_eval(*c, *object),
    decreases c,
{
    match c {
        Condition::Single { constraint } => constraint.check(object),
        Condition::And { conditions } => {
            let mut i: usize = 0;
            assert(conditions@.subrange(0, conditions@.len() as int) =~= conditions@);
            while i < conditions.len()
                invariant
                    i <= conditions@.len(),
                    *c == (Condition::And { conditions: *conditions }),
                    all_eval(conditions@, *object) == all_eval(
                        conditions@.subrange(i as int, conditions@.len() as int),
                        *object,
                    ),
                decreases conditions.len() - i,
            {
                let ghost rest = conditions@.subrange(i as int, conditions@.len() as int);
                assert(rest[0] == conditions@[i as int]);
                assert(rest.drop_first() =~= conditions@.subrange(
                    i + 1,
                    conditions@.len() as int,
                ));
                match check_condition(&conditions[i], object) {
                    Err(e) => {
                        return Err(e);
                    },
                    Ok(false) => {
                        return Ok(false);
                    },
                    Ok(true) => {},
                }
                i = i + 1;
            }
            Ok(true)
        },
        Condition::Or { conditions } => {
            let mut i: usize = 0;
            assert(conditions@.subrange(0, conditions@.len() as int) =~= conditions@);
            while i < conditions.len()
                invariant
                    i <= conditions@.len(),
                    *c == (Condition::Or { conditions: *conditions }),
                    any_eval(conditions@, *object) == any_eval(
                        conditions@.subrange(i as int, conditions@.len() as int),
                        *object,
                    ),
                decreases conditions.len() - i,
            {
                let ghost rest = conditions@.subrange(i as int, conditions@.len() as int);
                assert(rest[0] == conditions@[i as int]);
                assert(rest.drop_first() =~= conditions@.subrange(
                    i + 1,
                    conditions@.len() as int,
                ));
                match check_condition(&conditions[i], object) {
                    Err(e) => {
                        return Err(e);
                    },
                    Ok(true) => {
                        return Ok(true);
                    },
                    Ok(false) => {},
                }
                i = i + 1;
            }
            Ok(false)
        },
    }
}

impl Checkable for Condition {
    open spec fn eval_on(&self, row: JsonObject) -> Result<bool, EvalError> {
        condition_eval(*self, row)
    }

    fn check(&self, object: &JsonObject) -> (r: Result<bool, EvalError>) {
        check_condition(self, object)
    }
}

impl Checkable for QueryTree {
    open spec fn eval_on(&self, row: JsonObject) -> Result<bool, EvalError> {
        query_eval(*self, row)
    }

    fn check(&self, object: &JsonObject) -> (r: Result<bool, EvalError>) {
        match &self.condition {
            None => Ok(true),
            Some(c) => check_condition(c, object),
        }
    }
}

} // verus!
