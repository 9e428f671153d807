//! Schema-based validation of columnar data frames: built-in column checks,
//! column specifications, schemas and schema inference.

pub mod errors;
pub mod frame;
pub mod text;
pub mod checks;
pub mod column;
pub mod schema;
pub mod inference;
