//! AIP-160: filtering.

pub mod ast;
pub mod condition;
pub mod error;
pub mod grammar;
pub mod leading_space;
pub mod parser;
pub mod precedence;
pub mod round_trip;
pub mod sea_orm;
pub mod sea_orm_v2;
pub mod trailing_space;

pub use ast::{Comparator, Expression, Filter, Restriction, Sequence, Value};
pub use error::FilterError;
pub use parser::{parse_filter, FilterParser};
