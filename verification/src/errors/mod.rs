//! AIP-193: error handling.

mod code;
pub mod derive_support;
mod error_details;
mod http_impl;
mod metadata;
mod status;
mod traits;

pub use code::{
    code_http_status, code_name, code_number, code_of_http_status, lemma_code_name_identifies,
    lemma_code_number_identifies, lemma_http_status_round_trip, Code, UnknownCode,
};
pub use http_impl::status_code_number;
pub use metadata::{
    keys_distinct, lemma_map_of_finite, lemma_read_after_insert, map_of, pairs_view, Metadata,
};
pub use error_details::{is_digit, is_upper, valid_reason, ErrorInfo, ErrorInfoBuilder};
pub use status::{Status, StatusDetails};
pub use traits::{status_of, IntoStatus};
