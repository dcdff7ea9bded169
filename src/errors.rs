use vstd::prelude::*;

verus! {

/// The three kinds of failure that the library reports, each with its detail.
#[derive(Debug, Clone, PartialEq, Eq)]
pub enum AppError {
    /// Storage or process failure that the caller's input did not cause.
    Io(String),
    /// A value the caller supplied cannot be used.
    InvalidInput(String),
    /// What was referred to does not exist.
    NotFound(String),
}

pub type AppResult<T> = Result<T, AppError>;

impl AppError {
    /// The detail text that the error carries.
    pub open spec fn detail(&self) -> Seq<char> {
        match self {
            AppError::Io(m) => m@,
            AppError::InvalidInput(m) => m@,
            AppError::NotFound(m) => m@,
        }
    }

    /// The human-readable message: the kind's prefix, then the detail.
    pub open spec fn message_spec(&self) -> Seq<char> {
        match self {
            AppError::Io(m) => "I/O error: "@ + m@,
            AppError::InvalidInput(m) => "Invalid input: "@ + m@,
            AppError::NotFound(m) => "Not found: "@ + m@,
        }
    }

    pub fn message(&self) -> (r: String)
        ensures
            r@ == self.message_spec(),
    {
        let mut s = match self {
            AppError::Io(_) => String::from_str("I/O error: "),
            AppError::InvalidInput(_) => String::from_str("Invalid input: "),
            AppError::NotFound(_) => String::from_str("Not found: "),
        };
        match self {
            AppError::Io(m) => s.append(m.as_str()),
            AppError::InvalidInput(m) => s.append(m.as_str()),
            AppError::NotFound(m) => s.append(m.as_str()),
        }
        s
    }
}

} // verus!
