//! The error taxonomy that crosses the subsystem boundary. Nothing in the
//! core terminates the process; failures degrade to empty or cached data,
//! and what the HTTP layer reports it reports through these values.

use vstd::prelude::*;

verus! {

/// An error surfaced to the HTTP layer, each variant carrying its message.
#[derive(Debug)]
pub enum AppError {
    /// Configuration could not be read or understood.
    Config(String),
    /// Metrics collection failed outright.
    Metrics(String),
    /// Anything else inside the server.
    Internal(String),
}

impl AppError {
    /// The full message of this error: its category's prefix followed by
    /// the carried text.
    pub open spec fn message_spec(&self) -> Seq<char> {
        match self {
            AppError::Config(m) => "Configuration error: "@ + m@,
            AppError::Metrics(m) => "Metrics collection error: "@ + m@,
            AppError::Internal(m) => "Internal server error: "@ + m@,
        }
    }

    /// Renders the full message of this error.
    pub fn message(&self) -> (r: String)
        ensures
            r@ == self.message_spec(),
    {
        match self {
            AppError::Config(m) => {
                let mut r = String::from_str("Configuration error: ");
                r.append(m.as_str());
                r
            },
            AppError::Metrics(m) => {
                let mut r = String::from_str("Metrics collection error: ");
                r.append(m.as_str());
                r
            },
            AppError::Internal(m) => {
                let mut r = String::from_str("Internal server error: ");
                r.append(m.as_str());
                r
            },
        }
    }
}

} // verus!
