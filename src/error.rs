use vstd::prelude::*;

verus! {

/// Why a task or subtask date was refused.
#[derive(Clone, Copy, Debug, PartialEq, Eq, Structural)]
pub enum TaskErrorKind {
    /// The text is not a `DD-MM-YYYY` (or, for meetings, `DD-MM-YYYY HH:MM`) date.
    InvalidFormat,
    /// A creation date lies after the current time.
    FutureCreationDate,
    /// A due date lies before the current time.
    PastDueDate,
}

/// A refused task or subtask date, with the text that was given for it.
#[derive(Debug)]
pub struct TaskError {
    pub kind: TaskErrorKind,
    pub value: String,
}

/// Why a meeting's start and end were refused; the rules are checked in the
/// order of the variants and only the first that fails is reported.
#[derive(Clone, Copy, Debug, PartialEq, Eq, Structural)]
pub enum MeetingsError {
    InvalidStartDate,
    InvalidEndDate,
    InvalidDateRange,
}

/// Errors of the store and of the services built on it.
#[derive(Debug)]
pub enum DatabaseError {
    /// The row is absent, or belongs to another user (the two are not told apart).
    NotFound,
    /// The user neither owns the entity nor holds an access grant for it.
    PermissionDenied,
    /// A subtask was created under a task that does not exist.
    TaskNotFound,
    /// A task was created under a project that does not exist: the reference
    /// to its project cannot be kept.
    ProjectNotFound,
    /// A task or subtask date was refused.
    InvalidTaskDate(TaskError),
    /// A meeting's dates were refused.
    InvalidMeetingDates(MeetingsError),
    /// A list of assignees names the same user twice.
    DuplicateAssignee,
    /// No identifier is left for a new row.
    StoreFull,
}

/// Failure of credential checks, raised outside this library.
#[derive(Clone, Copy, Debug, PartialEq, Eq, Structural)]
pub enum AuthError {
    InvalidCredentials,
}

/// Failure of a call to an outside web service, raised outside this library.
#[derive(Clone, Copy, Debug, PartialEq, Eq, Structural)]
pub enum ReqError {
    RequestError,
}

/// Every error that a request can end with.
#[derive(Debug)]
pub enum ApiError {
    DatabaseApiError(DatabaseError),
    AuthorizationError(AuthError),
    ReqwestError(ReqError),
}

/// HTTP status of each store error.
pub open spec fn database_status(e: DatabaseError) -> u16 {
    match e {
        DatabaseError::NotFound => 404,
        DatabaseError::PermissionDenied => 403,
        DatabaseError::TaskNotFound => 404,
        DatabaseError::ProjectNotFound => 409,
        DatabaseError::InvalidTaskDate(_) => 400,
        DatabaseError::InvalidMeetingDates(_) => 400,
        DatabaseError::DuplicateAssignee => 409,
        DatabaseError::StoreFull => 500,
    }
}

/// HTTP status of each request error.
pub open spec fn api_status(e: ApiError) -> u16 {
    match e {
        ApiError::DatabaseApiError(d) => database_status(d),
        ApiError::AuthorizationError(_) => 401,
        ApiError::ReqwestError(_) => 502,
    }
}

impl DatabaseError {
    /// The HTTP status code that this error is answered with.
    pub fn status_code(&self) -> (r: u16)
        ensures
            r == database_status(*self),
    {
        match self {
            DatabaseError::NotFound => 404,
            DatabaseError::PermissionDenied => 403,
            DatabaseError::TaskNotFound => 404,
            DatabaseError::ProjectNotFound => 409,
        DatabaseError::ProjectNotFound => 409,
            DatabaseError::InvalidTaskDate(_) => 400,
            DatabaseError::InvalidMeetingDates(_) => 400,
            DatabaseError::DuplicateAssignee => 409,
            DatabaseError::StoreFull => 500,
        }
    }
}

impl ApiError {
    /// The HTTP status code that this error is answered with.
    pub fn status_code(&self) -> (r: u16)
        ensures
            r == api_status(*self),
    {
        match self {
            ApiError::DatabaseApiError(d) => d.status_code(),
            ApiError::AuthorizationError(_) => 401,
            ApiError::ReqwestError(_) => 502,
        }
    }

    /// Wraps a store error.
    pub fn from_database(e: DatabaseError) -> (r: ApiError)
        ensures
            r == ApiError::DatabaseApiError(e),
    {
        ApiError::DatabaseApiError(e)
    }
}

/// The human-readable reason for each refusal of a meeting's dates.
pub open spec fn meetings_message(e: MeetingsError) -> Seq<char> {
    match e {
        MeetingsError::InvalidStartDate => "Start date cannot be in the past"@,
        MeetingsError::InvalidEndDate => "End date cannot be in the past"@,
        MeetingsError::InvalidDateRange => "End date must be after start date"@,
    }
}

impl MeetingsError {
    /// The human-readable reason for this refusal.
    pub fn message(&self) -> (r: &'static str)
        ensures
            r@ == meetings_message(*self),
            r@.len() > 0,
    {
        match self {
            MeetingsError::InvalidStartDate => {
                proof {
                    reveal_strlit("Start date cannot be in the past");
                }
                "Start date cannot be in the past"
            },
            MeetingsError::InvalidEndDate => {
                proof {
                    reveal_strlit("End date cannot be in the past");
                }
                "End date cannot be in the past"
            },
            MeetingsError::InvalidDateRange => {
                proof {
                    reveal_strlit("End date must be after start date");
                }
                "End date must be after start date"
            },
        }
    }
}

} // verus!
