//! Google API Improvement Proposals: AIP-160 filter expressions and
//! AIP-193 structured errors.

pub mod text;

pub mod errors;
pub mod filtering;
