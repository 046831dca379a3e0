//! Conversions between the JSON transport form of values, schemas and
//! session options and the in-memory form that the encoder works on.

pub mod codec;
pub mod decimal;
pub mod error;
pub mod transport;
pub mod schema;
pub mod session;
