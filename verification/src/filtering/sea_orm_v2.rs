//! Conversion of filters into query conditions, with columns given by a
//! [`FieldMapper`].

use vstd::prelude::*;

use super::ast::{ExpressionModel, Filter};
use super::condition::{
    condition_result, converts_to, converts_with, expression_to_condition,
    sequence_unsupported_message, Condition,
};
use super::error::FilterError;

pub use super::condition::FieldMapper;
pub use super::sea_orm::{column_from_str, get_column, ColumnsOf};

verus! {

/// Converts a filter to a query condition, with the columns given by a
/// mapper.
pub trait ToSeaOrmCondition {
    /// The expression that is converted.
    spec fn converted_expression(&self) -> ExpressionModel;

    /// The condition for the filter, with its fields mapped to columns by
    /// `mapper`.
    fn to_condition<M: FieldMapper>(&self, mapper: &M) -> (r: Result<Condition, FilterError>)
        ensures
            converts_with(mapper, self.converted_expression(), condition_result(r)),
            r matches Ok(c) ==> converts_to(self.converted_expression(), c@),
            self.converted_expression() is Sequence ==> (r matches Err(
                FilterError::UnsupportedOperation(m),
            ) && m@ == sequence_unsupported_message()),
    ;
}

impl ToSeaOrmCondition for Filter {
    open spec fn converted_expression(&self) -> ExpressionModel {
        self@
    }

    fn to_condition<M: FieldMapper>(&self, mapper: &M) -> (r: Result<Condition, FilterError>) {
        expression_to_condition(mapper, &self.expression)
    }
}

} // verus!
