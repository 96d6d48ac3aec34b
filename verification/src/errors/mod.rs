//! Error types of the library.

pub mod observable_errors;

pub use observable_errors::{EmptyError, ObservableError};
