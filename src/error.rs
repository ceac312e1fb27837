use vstd::prelude::*;

verus! {

/// The kinds of failure that the reminder operations report.
#[derive(Debug, Clone, PartialEq, Eq)]
pub enum AppError {
    DataAccess(String),
    Validation(String),
    NotFound(String),
    Scheduler(String),
    Persistence(String),
    Internal(String),
}

pub type AppResult<T> = Result<T, AppError>;

/// The human-readable prefix that names an error kind.
pub open spec fn kind_label(e: AppError) -> Seq<char> {
    match e {
        AppError::DataAccess(_) => "Data access error: "@,
        AppError::Validation(_) => "Validation error: "@,
        AppError::NotFound(_) => "Not found: "@,
        AppError::Scheduler(_) => "Scheduler error: "@,
        AppError::Persistence(_) => "Persistence error: "@,
        AppError::Internal(_) => "Internal error: "@,
    }
}

impl AppError {
    pub open spec fn detail(&self) -> Seq<char> {
        match self {
            AppError::DataAccess(m) => m@,
            AppError::Validation(m) => m@,
            AppError::NotFound(m) => m@,
            AppError::Scheduler(m) => m@,
            AppError::Persistence(m) => m@,
            AppError::Internal(m) => m@,
        }
    }

    /// The message shown to a user: the kind's label followed by the detail.
    pub fn message(&self) -> (r: String)
        ensures
            r@ == kind_label(*self) + self.detail(),
    {
        let label = match self {
            AppError::DataAccess(_) => String::from_str("Data access error: "),
            AppError::Validation(_) => String::from_str("Validation error: "),
            AppError::NotFound(_) => String::from_str("Not found: "),
            AppError::Scheduler(_) => String::from_str("Scheduler error: "),
            AppError::Persistence(_) => String::from_str("Persistence error: "),
            AppError::Internal(_) => String::from_str("Internal error: "),
        };
        let detail = match self {
            AppError::DataAccess(m) => m,
            AppError::Validation(m) => m,
            AppError::NotFound(m) => m,
            AppError::Scheduler(m) => m,
            AppError::Persistence(m) => m,
            AppError::Internal(m) => m,
        };
        label.concat(detail.as_str())
    }
}

/// Joins two pieces of text.
pub fn join_text(a: &str, b: &str) -> (r: String)
    ensures
        r@ == a@ + b@,
{
    String::from_str(a).concat(b)
}

} // verus!
