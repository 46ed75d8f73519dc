//! Conditions for a relational query, built from filter expressions.
//!
//! A [`Condition`] says, as plain values, what a query condition of the
//! SeaORM query builder holds: which column is compared, how, and with
//! which value, and how the comparisons are combined.

use vstd::prelude::*;

use super::ast::{Comparator, Expression, ExpressionModel, Restriction, RestrictionModel, ValueModel, Value};
use super::error::{filter_error_text, FilterError};
use crate::text::push_char;

verus! {

/// The type of a database column, as far as filtering cares about it.
#[derive(Debug, Clone, PartialEq)]
pub enum ColumnType {
    Uuid,
    TimestampWithTimeZone,
    Timestamp,
    Date,
    Time,
    /// A PostgreSQL enum type with the given name.
    Enum(String),
    /// A floating-point column (`FLOAT`, `DOUBLE`).
    Float,
    /// Any other column type.
    Other,
}

/// A comparison operator of SQL.
#[derive(Debug, Clone, Copy, PartialEq, Eq, Structural)]
pub enum ComparisonOp {
    Eq,
    Ne,
    Gt,
    Gte,
    Lt,
    Lte,
}

/// How a number is bound into a query.
#[derive(Debug, Clone, Copy, PartialEq, Eq, Structural)]
pub enum NumberBinding {
    /// As a float, whatever its value (the column holds floats).
    Float,
    /// As an integer where the number is integral, else as a float.
    IntegerWhereIntegral,
}

/// The value side of a comparison.
#[derive(Debug, Clone, PartialEq)]
pub enum SqlValue {
    /// A string.
    Text(String),
    /// A string cast to the named SQL type: `CAST(value AS type)`.
    Cast(String, String),
    /// A number, as written in the filter, and how it is bound.
    Number(String, NumberBinding),
    Boolean(bool),
    /// The SQL `NULL`.
    Null,
}

/// A single SQL predicate on a column.
#[derive(Debug, Clone, PartialEq)]
pub enum SqlExpr {
    /// `column IS NULL`.
    IsNull(String),
    /// `column IS NOT NULL`.
    IsNotNull(String),
    /// `column LIKE pattern`.
    Like(String, String),
    /// `column op value`.
    Compare(String, ComparisonOp, SqlValue),
}

/// A query condition.
#[derive(Debug, PartialEq)]
pub enum Condition {
    /// Both conditions hold (`Condition::all()` with the two added).
    All(Box<Condition>, Box<Condition>),
    /// Either condition holds (`Condition::any()` with the two added).
    Any(Box<Condition>, Box<Condition>),
    /// The condition does not hold.
    Not(Box<Condition>),
    /// A single predicate (`Condition::all()` with the predicate added).
    Single(SqlExpr),
}

/// A value side, with its text as characters.
pub enum SqlValueModel {
    Text(Seq<char>),
    Cast(Seq<char>, Seq<char>),
    Number(Seq<char>, NumberBinding),
    Boolean(bool),
    Null,
}

/// A predicate, with its text as characters.
pub enum SqlExprModel {
    IsNull(Seq<char>),
    IsNotNull(Seq<char>),
    Like(Seq<char>, Seq<char>),
    Compare(Seq<char>, ComparisonOp, SqlValueModel),
}

/// A condition, with its text as characters.
pub enum ConditionModel {
    All(Box<ConditionModel>, Box<ConditionModel>),
    Any(Box<ConditionModel>, Box<ConditionModel>),
    Not(Box<ConditionModel>),
    Single(SqlExprModel),
}

impl View for SqlValue {
    type V = SqlValueModel;

    open spec fn view(&self) -> SqlValueModel {
        match self {
            SqlValue::Text(s) => SqlValueModel::Text(s@),
            SqlValue::Cast(s, t) => SqlValueModel::Cast(s@, t@),
            SqlValue::Number(n, b) => SqlValueModel::Number(n@, *b),
            SqlValue::Boolean(b) => SqlValueModel::Boolean(*b),
            SqlValue::Null => SqlValueModel::Null,
        }
    }
}

impl View for SqlExpr {
    type V = SqlExprModel;

    open spec fn view(&self) -> SqlExprModel {
        match self {
            SqlExpr::IsNull(c) => SqlExprModel::IsNull(c@),
            SqlExpr::IsNotNull(c) => SqlExprModel::IsNotNull(c@),
            SqlExpr::Like(c, p) => SqlExprModel::Like(c@, p@),
            SqlExpr::Compare(c, op, v) => SqlExprModel::Compare(c@, *op, v@),
        }
    }
}

/// The model of a condition.
pub open spec fn condition_model(c: Condition) -> ConditionModel
    decreases c,
{
    match c {
        Condition::All(l, r) => ConditionModel::All(
            Box::new(condition_model(*l)),
            Box::new(condition_model(*r)),
        ),
        Condition::Any(l, r) => ConditionModel::Any(
            Box::new(condition_model(*l)),
            Box::new(condition_model(*r)),
        ),
        Condition::Not(x) => ConditionModel::Not(Box::new(condition_model(*x))),
        Condition::Single(e) => ConditionModel::Single(e@),
    }
}

impl View for Condition {
    type V = ConditionModel;

    open spec fn view(&self) -> ConditionModel {
        condition_model(*self)
    }
}

/// The SQL type a string compared with a column of type `t` is cast to,
/// if any.
pub open spec fn cast_type(t: ColumnType) -> Option<Seq<char>> {
    match t {
        ColumnType::Uuid => Some("uuid"@),
        ColumnType::TimestampWithTimeZone => Some("timestamptz"@),
        ColumnType::Timestamp => Some("timestamp"@),
        ColumnType::Date => Some("date"@),
        ColumnType::Time => Some("time"@),
        ColumnType::Enum(name) => Some(name@),
        ColumnType::Float => None,
        ColumnType::Other => None,
    }
}

/// How a number compared with a column of type `t` is bound: as a float
/// in a floating-point column, otherwise as an integer where it is
/// integral.
pub open spec fn number_binding(t: ColumnType) -> NumberBinding {
    match t {
        ColumnType::Float => NumberBinding::Float,
        _ => NumberBinding::IntegerWhereIntegral,
    }
}

/// The value side for a filter value compared with a column of type `t`:
/// strings are cast to the column's type where it has one, and numbers are
/// bound as [`number_binding`] says.
pub open spec fn sql_value_of(v: ValueModel, t: ColumnType) -> SqlValueModel {
    match v {
        ValueModel::Str(s) => match cast_type(t) {
            Some(ty) => SqlValueModel::Cast(s, ty),
            None => SqlValueModel::Text(s),
        },
        ValueModel::Number(n) => SqlValueModel::Number(n, number_binding(t)),
        ValueModel::Boolean(b) => SqlValueModel::Boolean(b),
        ValueModel::Null => SqlValueModel::Null,
    }
}

/// The SQL operator of a comparator other than `:`.
pub open spec fn comparison_op(c: Comparator) -> ComparisonOp {
    match c {
        Comparator::Equal => ComparisonOp::Eq,
        Comparator::NotEqual => ComparisonOp::Ne,
        Comparator::GreaterThan => ComparisonOp::Gt,
        Comparator::GreaterThanOrEqual => ComparisonOp::Gte,
        Comparator::LessThan => ComparisonOp::Lt,
        _ => ComparisonOp::Lte,
    }
}

/// The message of the error for `:` with a value that is not a string.
pub open spec fn has_needs_string_message() -> Seq<char> {
    "Has operator (:) requires a string value"@
}

/// The message of the error for a sequence.
pub open spec fn sequence_unsupported_message() -> Seq<char> {
    "Sequences are not yet supported in SeaORM conversion"@
}

/// The condition for a restriction on `column`, of type `t`; `None` where
/// `:` is used with a value that is not a string.
///
/// `= null` and `!= null` test for (non-)nullness, `:` matches the string
/// anywhere in the column (`LIKE '%s%'`), and the other comparisons compare
/// the column with [`sql_value_of`].
pub open spec fn restriction_condition(column: Seq<char>, t: ColumnType, r: RestrictionModel) -> Option<
    ConditionModel,
> {
    match (r.comparator, r.value) {
        (Comparator::Equal, ValueModel::Null) => Some(ConditionModel::Single(SqlExprModel::IsNull(column))),
        (Comparator::NotEqual, ValueModel::Null) => Some(
            ConditionModel::Single(SqlExprModel::IsNotNull(column)),
        ),
        (Comparator::Has, ValueModel::Str(s)) => Some(
            ConditionModel::Single(SqlExprModel::Like(column, seq!['%'] + s + seq!['%'])),
        ),
        (Comparator::Has, _) => None,
        (c, v) => Some(
            ConditionModel::Single(SqlExprModel::Compare(column, comparison_op(c), sql_value_of(v, t))),
        ),
    }
}

/// The condition `c` is one that the expression `e` converts to, for some
/// answers about the columns of its fields: the logical structure is kept,
/// and each restriction becomes its [`restriction_condition`] on some
/// column and type. No sequence converts.
pub open spec fn converts_to(e: ExpressionModel, c: ConditionModel) -> bool
    decreases e,
{
    match e {
        ExpressionModel::And(l, r) => match c {
            ConditionModel::All(cl, cr) => converts_to(*l, *cl) && converts_to(*r, *cr),
            _ => false,
        },
        ExpressionModel::Or(l, r) => match c {
            ConditionModel::Any(cl, cr) => converts_to(*l, *cl) && converts_to(*r, *cr),
            _ => false,
        },
        ExpressionModel::Not(x) => match c {
            ConditionModel::Not(cx) => converts_to(*x, *cx),
            _ => false,
        },
        ExpressionModel::Restriction(r) => exists|column: Seq<char>, t: ColumnType|
            restriction_condition(column, t, r) == Some(c),
        ExpressionModel::Sequence(_) => false,
    }
}

/// The result of a conversion, with the condition taken by its model.
pub open spec fn condition_result(r: Result<Condition, FilterError>) -> Result<ConditionModel, FilterError> {
    match r {
        Ok(c) => Ok(c@),
        Err(e) => Err(e),
    }
}

/// `r` is what the restriction `x` on the column `column`, of type `t`,
/// converts to: its [`restriction_condition`], or the error for `:` with a
/// value that is not a string.
pub open spec fn restriction_result(
    column: Seq<char>,
    t: ColumnType,
    x: RestrictionModel,
    r: Result<ConditionModel, FilterError>,
) -> bool {
    match restriction_condition(column, t, x) {
        Some(c) => r == Ok::<ConditionModel, FilterError>(c),
        None => r matches Err(FilterError::UnsupportedOperation(m)) && m@ == has_needs_string_message(),
    }
}

/// The outcome of converting a part of an expression; it names the
/// outcomes that [`converts_with`] speaks of.
pub open spec fn part_outcome(r: Result<ConditionModel, FilterError>) -> Result<ConditionModel, FilterError> {
    r
}

/// `r` is what the expression `e` converts to, with `m` mapping its
/// fields to columns, for some answers of `m.map_field`. The parts of
/// `AND` and `OR` are converted left before right, and the first error
/// is the result; otherwise `AND` gives [`ConditionModel::All`], `OR`
/// [`ConditionModel::Any`] and `NOT` [`ConditionModel::Not`] of what the
/// parts give. A restriction asks the mapper for the column of its field:
/// the mapper's error is the result as it is; otherwise the restriction
/// converts on that column and type ([`restriction_result`]). A sequence
/// gives the error that sequences are not supported.
pub open spec fn converts_with<M: FieldMapper>(
    m: &M,
    e: ExpressionModel,
    r: Result<ConditionModel, FilterError>,
) -> bool
    decreases e,
{
    match e {
        ExpressionModel::And(l, rt) => exists|a: Result<ConditionModel, FilterError>|
            converts_with(m, *l, #[trigger] part_outcome(a)) && match a {
                Err(x) => r == Err::<ConditionModel, FilterError>(x),
                Ok(cl) => exists|b: Result<ConditionModel, FilterError>|
                    converts_with(m, *rt, #[trigger] part_outcome(b)) && match b {
                        Err(x) => r == Err::<ConditionModel, FilterError>(x),
                        Ok(cr) => r == Ok::<ConditionModel, FilterError>(
                            ConditionModel::All(Box::new(cl), Box::new(cr)),
                        ),
                    },
            },
        ExpressionModel::Or(l, rt) => exists|a: Result<ConditionModel, FilterError>|
            converts_with(m, *l, #[trigger] part_outcome(a)) && match a {
                Err(x) => r == Err::<ConditionModel, FilterError>(x),
                Ok(cl) => exists|b: Result<ConditionModel, FilterError>|
                    converts_with(m, *rt, #[trigger] part_outcome(b)) && match b {
                        Err(x) => r == Err::<ConditionModel, FilterError>(x),
                        Ok(cr) => r == Ok::<ConditionModel, FilterError>(
                            ConditionModel::Any(Box::new(cl), Box::new(cr)),
                        ),
                    },
            },
        ExpressionModel::Not(x) => exists|a: Result<ConditionModel, FilterError>|
            converts_with(m, *x, #[trigger] part_outcome(a)) && match a {
                Err(y) => r == Err::<ConditionModel, FilterError>(y),
                Ok(c) => r == Ok::<ConditionModel, FilterError>(ConditionModel::Not(Box::new(c))),
            },
        ExpressionModel::Restriction(x) => exists|
            field: &str,
            answer: Result<(String, ColumnType), FilterError>,
        |
            field@ == x.field && #[trigger] call_ensures(M::map_field, (m, field), answer)
                && match answer {
                Err(y) => r == Err::<ConditionModel, FilterError>(y),
                Ok((column, t)) => restriction_result(column@, t, x, r),
            },
        ExpressionModel::Sequence(_) => r matches Err(FilterError::UnsupportedOperation(msg)) && msg@
            == sequence_unsupported_message(),
    }
}

/// Two results agree: the same condition, or errors shown the same way.
pub open spec fn same_result<T>(r1: Result<T, FilterError>, r2: Result<T, FilterError>) -> bool {
    match (r1, r2) {
        (Ok(a), Ok(b)) => a == b,
        (Err(x), Err(y)) => filter_error_text(x) == filter_error_text(y),
        _ => false,
    }
}

/// The mapper answers every field the same way, however often it is asked.
pub open spec fn answers_by_field<M: FieldMapper>(m: &M) -> bool {
    forall|f1: &str, f2: &str, a1: Result<(String, ColumnType), FilterError>, a2: Result<(String, ColumnType), FilterError>|
        #![trigger call_ensures(M::map_field, (m, f1), a1), call_ensures(M::map_field, (m, f2), a2)]
        f1@ == f2@ && call_ensures(M::map_field, (m, f1), a1) && call_ensures(
            M::map_field,
            (m, f2),
            a2,
        ) ==> a1 == a2
}

/// With a mapper that answers every field the same way, an expression
/// converts to one result only, up to how errors are shown.
pub proof fn lemma_conversion_unique<M: FieldMapper>(
    m: &M,
    e: ExpressionModel,
    r1: Result<ConditionModel, FilterError>,
    r2: Result<ConditionModel, FilterError>,
)
    requires
        answers_by_field(m),
        converts_with(m, e, r1),
        converts_with(m, e, r2),
    ensures
        same_result(r1, r2),
    decreases e,
{
    match e {
        ExpressionModel::And(l, rt) => {
            let a1 = choose|a: Result<ConditionModel, FilterError>|
                converts_with(m, *l, #[trigger] part_outcome(a)) && match a {
                    Err(x) => r1 == Err::<ConditionModel, FilterError>(x),
                    Ok(cl) => exists|b: Result<ConditionModel, FilterError>|
                        converts_with(m, *rt, #[trigger] part_outcome(b)) && match b {
                            Err(x) => r1 == Err::<ConditionModel, FilterError>(x),
                            Ok(cr) => r1 == Ok::<ConditionModel, FilterError>(
                                ConditionModel::All(Box::new(cl), Box::new(cr)),
                            ),
                        },
                };
            let a2 = choose|a: Result<ConditionModel, FilterError>|
                converts_with(m, *l, #[trigger] part_outcome(a)) && match a {
                    Err(x) => r2 == Err::<ConditionModel, FilterError>(x),
                    Ok(cl) => exists|b: Result<ConditionModel, FilterError>|
                        converts_with(m, *rt, #[trigger] part_outcome(b)) && match b {
                            Err(x) => r2 == Err::<ConditionModel, FilterError>(x),
                            Ok(cr) => r2 == Ok::<ConditionModel, FilterError>(
                                ConditionModel::All(Box::new(cl), Box::new(cr)),
                            ),
                        },
                };
            lemma_conversion_unique(m, *l, a1, a2);
            if a1 is Ok {
                let b1 = choose|b: Result<ConditionModel, FilterError>|
                    converts_with(m, *rt, #[trigger] part_outcome(b)) && match b {
                        Err(x) => r1 == Err::<ConditionModel, FilterError>(x),
                        Ok(cr) => r1 == Ok::<ConditionModel, FilterError>(
                            ConditionModel::All(Box::new(a1->Ok_0), Box::new(cr)),
                        ),
                    };
                let b2 = choose|b: Result<ConditionModel, FilterError>|
                    converts_with(m, *rt, #[trigger] part_outcome(b)) && match b {
                        Err(x) => r2 == Err::<ConditionModel, FilterError>(x),
                        Ok(cr) => r2 == Ok::<ConditionModel, FilterError>(
                            ConditionModel::All(Box::new(a2->Ok_0), Box::new(cr)),
                        ),
                    };
                lemma_conversion_unique(m, *rt, b1, b2);
            }
        },
        ExpressionModel::Or(l, rt) => {
            let a1 = choose|a: Result<ConditionModel, FilterError>|
                converts_with(m, *l, #[trigger] part_outcome(a)) && match a {
                    Err(x) => r1 == Err::<ConditionModel, FilterError>(x),
                    Ok(cl) => exists|b: Result<ConditionModel, FilterError>|
                        converts_with(m, *rt, #[trigger] part_outcome(b)) && match b {
                            Err(x) => r1 == Err::<ConditionModel, FilterError>(x),
                            Ok(cr) => r1 == Ok::<ConditionModel, FilterError>(
                                ConditionModel::Any(Box::new(cl), Box::new(cr)),
                            ),
                        },
                };
            let a2 = choose|a: Result<ConditionModel, FilterError>|
                converts_with(m, *l, #[trigger] part_outcome(a)) && match a {
                    Err(x) => r2 == Err::<ConditionModel, FilterError>(x),
                    Ok(cl) => exists|b: Result<ConditionModel, FilterError>|
                        converts_with(m, *rt, #[trigger] part_outcome(b)) && match b {
                            Err(x) => r2 == Err::<ConditionModel, FilterError>(x),
                            Ok(cr) => r2 == Ok::<ConditionModel, FilterError>(
                                ConditionModel::Any(Box::new(cl), Box::new(cr)),
                            ),
                        },
                };
            lemma_conversion_unique(m, *l, a1, a2);
            if a1 is Ok {
                let b1 = choose|b: Result<ConditionModel, FilterError>|
                    converts_with(m, *rt, #[trigger] part_outcome(b)) && match b {
                        Err(x) => r1 == Err::<ConditionModel, FilterError>(x),
                        Ok(cr) => r1 == Ok::<ConditionModel, FilterError>(
                            ConditionModel::Any(Box::new(a1->Ok_0), Box::new(cr)),
                        ),
                    };
                let b2 = choose|b: Result<ConditionModel, FilterError>|
                    converts_with(m, *rt, #[trigger] part_outcome(b)) && match b {
                        Err(x) => r2 == Err::<ConditionModel, FilterError>(x),
                        Ok(cr) => r2 == Ok::<ConditionModel, FilterError>(
                            ConditionModel::Any(Box::new(a2->Ok_0), Box::new(cr)),
                        ),
                    };
                lemma_conversion_unique(m, *rt, b1, b2);
            }
        },
        ExpressionModel::Not(x) => {
            let a1 = choose|a: Result<ConditionModel, FilterError>|
                converts_with(m, *x, #[trigger] part_outcome(a)) && match a {
                    Err(y) => r1 == Err::<ConditionModel, FilterError>(y),
                    Ok(c) => r1 == Ok::<ConditionModel, FilterError>(ConditionModel::Not(Box::new(c))),
                };
            let a2 = choose|a: Result<ConditionModel, FilterError>|
                converts_with(m, *x, #[trigger] part_outcome(a)) && match a {
                    Err(y) => r2 == Err::<ConditionModel, FilterError>(y),
                    Ok(c) => r2 == Ok::<ConditionModel, FilterError>(ConditionModel::Not(Box::new(c))),
                };
            lemma_conversion_unique(m, *x, a1, a2);
        },
        ExpressionModel::Restriction(x) => {
            let (f1, n1) = choose|field: &str, answer: Result<(String, ColumnType), FilterError>|
                field@ == x.field && #[trigger] call_ensures(M::map_field, (m, field), answer)
                    && match answer {
                    Err(y) => r1 == Err::<ConditionModel, FilterError>(y),
                    Ok((column, t)) => restriction_result(column@, t, x, r1),
                };
            let (f2, n2) = choose|field: &str, answer: Result<(String, ColumnType), FilterError>|
                field@ == x.field && #[trigger] call_ensures(M::map_field, (m, field), answer)
                    && match answer {
                    Err(y) => r2 == Err::<ConditionModel, FilterError>(y),
                    Ok((column, t)) => restriction_result(column@, t, x, r2),
                };
            assert(n1 == n2);
        },
        ExpressionModel::Sequence(_) => {},
    }
}

/// With a mapper that answers every field the same way, the parts of an
/// `AND` or an `OR` that convert on their own to `cl` and `cr` make it
/// convert to the `All` or the `Any` of the two.
pub proof fn lemma_conversion_combines<M: FieldMapper>(
    m: &M,
    l: ExpressionModel,
    rt: ExpressionModel,
    cl: ConditionModel,
    cr: ConditionModel,
    r: Result<ConditionModel, FilterError>,
)
    requires
        answers_by_field(m),
        converts_with(m, l, Ok(cl)),
        converts_with(m, rt, Ok(cr)),
    ensures
        converts_with(m, ExpressionModel::And(Box::new(l), Box::new(rt)), r) ==> r == Ok::<
            ConditionModel,
            FilterError,
        >(ConditionModel::All(Box::new(cl), Box::new(cr))),
        converts_with(m, ExpressionModel::Or(Box::new(l), Box::new(rt)), r) ==> r == Ok::<
            ConditionModel,
            FilterError,
        >(ConditionModel::Any(Box::new(cl), Box::new(cr))),
{
    let a = Ok::<ConditionModel, FilterError>(cl);
    let b = Ok::<ConditionModel, FilterError>(cr);
    assert(converts_with(m, l, part_outcome(a)));
    assert(converts_with(m, rt, part_outcome(b)));
    let and_e = ExpressionModel::And(Box::new(l), Box::new(rt));
    let or_e = ExpressionModel::Or(Box::new(l), Box::new(rt));
    let all = Ok::<ConditionModel, FilterError>(ConditionModel::All(Box::new(cl), Box::new(cr)));
    let any = Ok::<ConditionModel, FilterError>(ConditionModel::Any(Box::new(cl), Box::new(cr)));
    assert(converts_with(m, and_e, all));
    assert(converts_with(m, or_e, any));
    if converts_with(m, and_e, r) {
        lemma_conversion_unique(m, and_e, r, all);
    }
    if converts_with(m, or_e, r) {
        lemma_conversion_unique(m, or_e, r, any);
    }
}

/// With a mapper that answers every field the same way, an expression that
/// converts on its own to `c` makes its negation convert to `Not` of `c`.
pub proof fn lemma_conversion_negates<M: FieldMapper>(
    m: &M,
    x: ExpressionModel,
    c: ConditionModel,
    r: Result<ConditionModel, FilterError>,
)
    requires
        answers_by_field(m),
        converts_with(m, x, Ok(c)),
    ensures
        converts_with(m, ExpressionModel::Not(Box::new(x)), r) ==> r == Ok::<
            ConditionModel,
            FilterError,
        >(ConditionModel::Not(Box::new(c))),
{
    let a = Ok::<ConditionModel, FilterError>(c);
    assert(converts_with(m, x, part_outcome(a)));
    let not_e = ExpressionModel::Not(Box::new(x));
    let neg = Ok::<ConditionModel, FilterError>(ConditionModel::Not(Box::new(c)));
    assert(converts_with(m, not_e, neg));
    if converts_with(m, not_e, r) {
        lemma_conversion_unique(m, not_e, r, neg);
    }
}

/// Where a column's value stands against the value it is compared with.
pub enum Relation {
    Below,
    Same,
    Above,
}

/// Whether a filter comparator holds where the field's value stands as `r`
/// against the filter's value: `=` equal, `!=` not equal, `>` greater,
/// `>=` greater or equal, `<` less, `<=` less or equal.
pub open spec fn comparator_admits(c: Comparator, r: Relation) -> bool {
    match c {
        Comparator::Equal => r is Same,
        Comparator::NotEqual => !(r is Same),
        Comparator::GreaterThan => r is Above,
        Comparator::GreaterThanOrEqual => r is Above || r is Same,
        Comparator::LessThan => r is Below,
        Comparator::LessThanOrEqual => r is Below || r is Same,
        Comparator::Has => false,
    }
}

/// Whether an SQL comparison holds where the column's value stands as `r`
/// against the compared value: `=`, `<>`, `>`, `>=`, `<`, `<=`.
pub open spec fn sql_admits(op: ComparisonOp, r: Relation) -> bool {
    match op {
        ComparisonOp::Eq => r is Same,
        ComparisonOp::Ne => !(r is Same),
        ComparisonOp::Gt => r is Above,
        ComparisonOp::Gte => r is Above || r is Same,
        ComparisonOp::Lt => r is Below,
        ComparisonOp::Lte => r is Below || r is Same,
    }
}

/// A comparison keeps its meaning: a restriction with one of the six
/// comparators (other than `= null` and `!= null`) becomes a comparison of
/// its column with the value side for its value, by an SQL operator that
/// holds exactly where the comparator holds, wherever the column's value
/// stands against the value.
pub proof fn lemma_comparison_keeps_meaning(
    column: Seq<char>,
    t: ColumnType,
    x: RestrictionModel,
    r: Relation,
)
    requires
        !(x.comparator is Has),
        !(x.value is Null && (x.comparator is Equal || x.comparator is NotEqual)),
    ensures
        restriction_condition(column, t, x) matches Some(
            ConditionModel::Single(SqlExprModel::Compare(c, op, v)),
        ) && c == column && v == sql_value_of(x.value, t) && sql_admits(op, r)
            == comparator_admits(x.comparator, r),
{
}

/// The restrictions that are no comparison: `= null` tests that the
/// column is null and `!= null` that it is not; `:` with a string `s`
/// matches the column against the pattern `%s%` (the column holds `s`
/// anywhere), and `:` with any other value is refused with the error that
/// it needs a string.
pub proof fn lemma_null_tests_and_contains(column: Seq<char>, t: ColumnType, x: RestrictionModel)
    ensures
        (x.comparator is Equal && x.value is Null) ==> restriction_condition(column, t, x) == Some(
            ConditionModel::Single(SqlExprModel::IsNull(column)),
        ),
        (x.comparator is NotEqual && x.value is Null) ==> restriction_condition(column, t, x)
            == Some(ConditionModel::Single(SqlExprModel::IsNotNull(column))),
        x.comparator is Has ==> match x.value {
            ValueModel::Str(text) => restriction_condition(column, t, x) == Some(
                ConditionModel::Single(SqlExprModel::Like(column, seq!['%'] + text + seq!['%'])),
            ),
            _ => restriction_condition(column, t, x) is None,
        },
        restriction_condition(column, t, x) is None ==> x.comparator is Has && !(x.value is Str),
{
}

/// The value side of a comparison: a string compared with a UUID,
/// timestamp (with or without time zone), date, time or enum column is cast
/// to `uuid`, `timestamptz`, `timestamp`, `date`, `time` or the enum's
/// type, and is plain text on other columns; a number is bound as a float
/// on a floating-point column and otherwise as an integer where it is
/// integral; booleans and null stay as they are.
pub proof fn lemma_value_side(v: ValueModel, t: ColumnType)
    ensures
        sql_value_of(v, t) == match v {
            ValueModel::Str(s) => match t {
                ColumnType::Uuid => SqlValueModel::Cast(s, seq!['u', 'u', 'i', 'd']),
                ColumnType::TimestampWithTimeZone => SqlValueModel::Cast(
                    s,
                    seq!['t', 'i', 'm', 'e', 's', 't', 'a', 'm', 'p', 't', 'z'],
                ),
                ColumnType::Timestamp => SqlValueModel::Cast(
                    s,
                    seq!['t', 'i', 'm', 'e', 's', 't', 'a', 'm', 'p'],
                ),
                ColumnType::Date => SqlValueModel::Cast(s, seq!['d', 'a', 't', 'e']),
                ColumnType::Time => SqlValueModel::Cast(s, seq!['t', 'i', 'm', 'e']),
                ColumnType::Enum(name) => SqlValueModel::Cast(s, name@),
                ColumnType::Float => SqlValueModel::Text(s),
                ColumnType::Other => SqlValueModel::Text(s),
            },
            ValueModel::Number(n) => SqlValueModel::Number(
                n,
                if t is Float {
                    NumberBinding::Float
                } else {
                    NumberBinding::IntegerWhereIntegral
                },
            ),
            ValueModel::Boolean(b) => SqlValueModel::Boolean(b),
            ValueModel::Null => SqlValueModel::Null,
        },
{
    reveal_strlit("uuid");
    reveal_strlit("timestamptz");
    reveal_strlit("timestamp");
    reveal_strlit("date");
    reveal_strlit("time");
    assert("uuid"@ =~= seq!['u', 'u', 'i', 'd']);
    assert("timestamptz"@ =~= seq!['t', 'i', 'm', 'e', 's', 't', 'a', 'm', 'p', 't', 'z']);
    assert("timestamp"@ =~= seq!['t', 'i', 'm', 'e', 's', 't', 'a', 'm', 'p']);
    assert("date"@ =~= seq!['d', 'a', 't', 'e']);
    assert("time"@ =~= seq!['t', 'i', 'm', 'e']);
}

/// The value side for `value` compared with a column of type `t`.
pub fn sql_value(value: &Value, t: &ColumnType) -> (r: SqlValue)
    ensures
        r@ == sql_value_of(value@, *t),
{
    match value {
        Value::String(s) => match t {
            ColumnType::Uuid => SqlValue::Cast(s.clone(), "uuid".to_owned()),
            ColumnType::TimestampWithTimeZone => SqlValue::Cast(s.clone(), "timestamptz".to_owned()),
            ColumnType::Timestamp => SqlValue::Cast(s.clone(), "timestamp".to_owned()),
            ColumnType::Date => SqlValue::Cast(s.clone(), "date".to_owned()),
            ColumnType::Time => SqlValue::Cast(s.clone(), "time".to_owned()),
            ColumnType::Enum(name) => SqlValue::Cast(s.clone(), name.clone()),
            ColumnType::Float => SqlValue::Text(s.clone()),
            ColumnType::Other => SqlValue::Text(s.clone()),
        },
        Value::Number(n) => {
            let binding = match t {
                ColumnType::Float => NumberBinding::Float,
                _ => NumberBinding::IntegerWhereIntegral,
            };
            SqlValue::Number(n.clone(), binding)
        },
        Value::Boolean(b) => SqlValue::Boolean(*b),
        Value::Null => SqlValue::Null,
    }
}

/// The condition for `restriction` on the column named `column`, of type
/// `t`; an error for `:` with a value that is not a string.
pub fn restriction_to_condition(column: String, t: &ColumnType, restriction: &Restriction) -> (r: Result<
    Condition,
    FilterError,
>)
    ensures
        match restriction_condition(column@, *t, restriction@) {
            Some(c) => r matches Ok(x) && x@ == c,
            None => r matches Err(FilterError::UnsupportedOperation(m)) && m@
                == has_needs_string_message(),
        },
{
    let e = match (&restriction.comparator, &restriction.value) {
        (Comparator::Equal, Value::Null) => SqlExpr::IsNull(column),
        (Comparator::NotEqual, Value::Null) => SqlExpr::IsNotNull(column),
        (Comparator::Has, Value::String(s)) => {
            let mut pattern = String::new();
            push_char(&mut pattern, '%');
            pattern.append(s.as_str());
            push_char(&mut pattern, '%');
            assert(pattern@ =~= seq!['%'] + s@ + seq!['%']);
            SqlExpr::Like(column, pattern)
        },
        (Comparator::Has, _) => {
            return Err(
                FilterError::UnsupportedOperation(
                    "Has operator (:) requires a string value".to_owned(),
                ),
            );
        },
        (Comparator::Equal, _) => SqlExpr::Compare(column, ComparisonOp::Eq, sql_value(&restriction.value, t)),
        (Comparator::NotEqual, _) => SqlExpr::Compare(column, ComparisonOp::Ne, sql_value(&restriction.value, t)),
        (Comparator::GreaterThan, _) => SqlExpr::Compare(column, ComparisonOp::Gt, sql_value(&restriction.value, t)),
        (Comparator::GreaterThanOrEqual, _) => SqlExpr::Compare(
            column,
            ComparisonOp::Gte,
            sql_value(&restriction.value, t),
        ),
        (Comparator::LessThan, _) => SqlExpr::Compare(column, ComparisonOp::Lt, sql_value(&restriction.value, t)),
        (Comparator::LessThanOrEqual, _) => SqlExpr::Compare(
            column,
            ComparisonOp::Lte,
            sql_value(&restriction.value, t),
        ),
    };
    Ok(Condition::Single(e))
}

/// Maps the field names of a filter to columns.
pub trait FieldMapper {
    /// The column for `field` (its name, as it is written in queries) and
    /// its type, or an error where the field names no column.
    fn map_field(&self, field: &str) -> Result<(String, ColumnType), FilterError>;
}

/// The condition for `expr`, with the columns of its fields given by
/// `mapper`: `AND` becomes [`Condition::All`], `OR` [`Condition::Any`],
/// `NOT` [`Condition::Not`], each restriction its
/// [`restriction_to_condition`] on the column the mapper gives; sequences
/// are not supported.
///
/// Whatever the mapper answers, a condition that comes back is one the
/// expression [`converts_to`], and an expression holding a sequence, or a
/// `:` with a value that is not a string, gives an error; a sequence on its
/// own gives the error that sequences are not supported.
pub fn expression_to_condition<M: FieldMapper>(mapper: &M, expr: &Expression) -> (r: Result<
    Condition,
    FilterError,
>)
    ensures
        converts_with(mapper, expr@, condition_result(r)),
        r matches Ok(c) ==> converts_to(expr@, c@),
        expr@ is Sequence ==> (r matches Err(FilterError::UnsupportedOperation(m)) && m@
            == sequence_unsupported_message()),
    decreases expr,
{
    match expr {
        Expression::And(left, right) => {
            assert(expr@ == ExpressionModel::And(Box::new(left@), Box::new(right@)));
            let lr = expression_to_condition(mapper, left);
            let ghost la = condition_result(lr);
            let l = match lr {
                Ok(l) => l,
                Err(e) => {
                    assert(converts_with(mapper, left@, part_outcome(la)));
                    return Err(e);
                },
            };
            let rr = expression_to_condition(mapper, right);
            let ghost ra = condition_result(rr);
            let r = match rr {
                Ok(r) => r,
                Err(e) => {
                    assert(converts_with(mapper, right@, part_outcome(ra)));
                    return Err(e);
                },
            };
            let c = Condition::All(Box::new(l), Box::new(r));
            assert(c@ == ConditionModel::All(Box::new(l@), Box::new(r@)));
            assert(converts_with(mapper, left@, part_outcome(la)));
            assert(converts_with(mapper, right@, part_outcome(ra)));
            Ok(c)
        },
        Expression::Or(left, right) => {
            assert(expr@ == ExpressionModel::Or(Box::new(left@), Box::new(right@)));
            let lr = expression_to_condition(mapper, left);
            let ghost la = condition_result(lr);
            let l = match lr {
                Ok(l) => l,
                Err(e) => {
                    assert(converts_with(mapper, left@, part_outcome(la)));
                    return Err(e);
                },
            };
            let rr = expression_to_condition(mapper, right);
            let ghost ra = condition_result(rr);
            let r = match rr {
                Ok(r) => r,
                Err(e) => {
                    assert(converts_with(mapper, right@, part_outcome(ra)));
                    return Err(e);
                },
            };
            let c = Condition::Any(Box::new(l), Box::new(r));
            assert(c@ == ConditionModel::Any(Box::new(l@), Box::new(r@)));
            assert(converts_with(mapper, left@, part_outcome(la)));
            assert(converts_with(mapper, right@, part_outcome(ra)));
            Ok(c)
        },
        Expression::Not(inner) => {
            let xr = expression_to_condition(mapper, inner);
            let ghost xa = condition_result(xr);
            assert(expr@ == ExpressionModel::Not(Box::new(inner@)));
            let x = match xr {
                Ok(x) => x,
                Err(e) => {
                    assert(converts_with(mapper, inner@, part_outcome(xa)));
                    return Err(e);
                },
            };
            let c = Condition::Not(Box::new(x));
            assert(c@ == ConditionModel::Not(Box::new(x@)));
            assert(converts_with(mapper, inner@, part_outcome(xa)));
            Ok(c)
        },
        Expression::Restriction(restriction) => {
            let field = restriction.field.as_str();
            let answer = mapper.map_field(field);
            let ghost given = answer;
            proof {
                assert(call_ensures(M::map_field, (mapper, field), given));
            }
            match answer {
                Ok((column, t)) => {
                    let ghost col = column@;
                    let r = restriction_to_condition(column, &t, restriction);
                    proof {
                        assert(restriction_result(col, t, restriction@, condition_result(r)));
                        if r is Ok {
                            assert(restriction_condition(col, t, restriction@) == Some(r->Ok_0@));
                        }
                    }
                    r
                },
                Err(e) => Err(e),
            }
        },
        Expression::Sequence(_) => Err(
            FilterError::UnsupportedOperation(
                "Sequences are not yet supported in SeaORM conversion".to_owned(),
            ),
        ),
    }
}

} // verus!
