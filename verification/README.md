# aip

Google AIP-160 filters and AIP-193 errors, verified with Verus.

- `src/filtering`: the AIP-160 filter grammar (`grammar.rs`, as spec
  functions), a parser proved to follow it (`parser.rs`), the filter AST
  and how it is printed (`ast.rs`), the proof that a printed filter parses
  back to itself (`round_trip.rs`), how `AND`, `OR` and `NOT` group
  (`precedence.rs`), and the conversion of filters into
  query conditions (`condition.rs`, `sea_orm.rs`, `sea_orm_v2.rs`).
- `src/errors`: the canonical codes and their names, numbers and HTTP
  mapping (`code.rs`, `http_impl.rs`), error details with a metadata map
  (`error_details.rs`, `metadata.rs`), statuses (`status.rs`, `traits.rs`)
  and the decisions behind the `IntoStatus` derive (`derive_support.rs`).
- `app/`: the JSON wire form of statuses (serde), HTTP responses
  (axum-core), `std::error::Error` for filter errors (thiserror), the
  floating-point reading of filter numbers, and the hand-over of the
  library's conditions to SeaORM's query builder (sea-orm).
