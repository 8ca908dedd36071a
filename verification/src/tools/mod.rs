//! The file tools offered to the model: argument extraction, descriptions, the
//! decisions behind each call, and the tool schemas.
pub mod args;
pub mod describe;
pub mod dispatch;
pub mod plan;
pub mod schema;
