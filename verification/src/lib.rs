//! Verified core of a PostgreSQL inspection backend.
//!
//! The library holds the logic that turns raw catalog rows and raw query
//! results into structured values: enumerating base tables, deriving rich
//! column metadata (nullability, defaults, generated/identity status,
//! primary and foreign keys), and marshaling arbitrary result sets into a
//! uniform tagged-value representation. Network I/O against the database
//! lives outside the library and hands it plain values.

pub mod commands;
pub mod errors;
pub mod schema;
pub mod strings;
pub mod tables;
pub mod values;
