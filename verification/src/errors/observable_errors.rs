//! Errors reported by observables.
use vstd::prelude::*;
use vstd::string::StringExecFns;

verus! {

/// An error an observable reports, with or without the name of the observable
/// and the error that caused it (`S`).
#[derive(Debug)]
pub enum ObservableError<S> {
    /// The named observable failed because of `source`.
    InfoRoot { name: &'static str, source: S },
    /// An observable failed because of the given error.
    Root(S),
    /// The named observable failed.
    Info(String),
    /// An observable failed.
    NoInfo,
}

impl<S> ObservableError<S> {
    /// Kept for callers that name an observable and its error; it records
    /// nothing.
    pub fn new(_name: &str, _s: S) {
    }

    /// The error that caused this one, if it is recorded.
    pub fn source(&self) -> (r: Option<&S>)
        ensures
            r == match self {
                ObservableError::InfoRoot { source, .. } => Some(source),
                ObservableError::Root(source) => Some(source),
                _ => None::<&S>,
            },
    {
        match self {
            ObservableError::InfoRoot { source, .. } => Some(source),
            ObservableError::Root(source) => Some(source),
            _ => None,
        }
    }

    /// The message describing the error: it names the failed observable when
    /// the name is recorded.
    pub fn message(&self) -> (r: String)
        ensures
            r@ == match self {
                ObservableError::InfoRoot { name, .. } => name@ + " observable emitted an error"@,
                ObservableError::Info(name) => name@ + " observable emitted an error"@,
                _ => "observable emitted an error"@,
            },
    {
        match self {
            ObservableError::InfoRoot { name, .. } => {
                let mut m = String::from_str(name);
                m.append(" observable emitted an error");
                m
            },
            ObservableError::Info(name) => {
                let mut m = name.clone();
                m.append(" observable emitted an error");
                m
            },
            _ => String::from_str("observable emitted an error"),
        }
    }

    /// Whether the name of the failed observable is recorded, which the
    /// message then mentions.
    pub fn is_named(&self) -> (r: bool)
        ensures
            r == (self is InfoRoot || self is Info),
    {
        match self {
            ObservableError::InfoRoot { .. } | ObservableError::Info(_) => true,
            _ => false,
        }
    }
}

/// The error an observable sequence reports when it holds no element that an
/// operator needed (`first` with no match and no default value).
#[derive(Debug, Clone)]
pub struct EmptyError;

impl EmptyError {
    /// The message describing the error.
    pub fn message(&self) -> (r: &'static str)
        ensures
            r@ == "no elements in sequence"@,
    {
        "no elements in sequence"
    }
}

} // verus!
