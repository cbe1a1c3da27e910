use vstd::prelude::*;

verus! {

/// One failure surfaced to an RPC caller: a human-readable message and a
/// numeric code identifying the kind of failure.
#[derive(Debug)]
pub struct HandlingError {
    pub message: String,
    pub code: i32,
}

impl HandlingError {
    /// The backing store rejected an operation: a uniqueness constraint was
    /// violated.  The cause is not surfaced to the caller.
    pub fn storage_error() -> (e: HandlingError)
        ensures
            e.code == 300,
            e.message@ == "Database error"@,
    {
        HandlingError { message: "Database error".to_owned(), code: 300 }
    }

    /// A lookup by id found no matching row.
    pub fn not_found() -> (e: HandlingError)
        ensures
            e.code == 300,
            e.message@ == "Not found"@,
    {
        HandlingError { message: "Not found".to_owned(), code: 300 }
    }

    /// A time series was supplied with differing numbers of time points and
    /// values.
    pub fn validation_error() -> (e: HandlingError)
        ensures
            e.code == 420,
            e.message@ == "Inconsistent number of time_points and values in TimeSeries."@,
    {
        HandlingError {
            message: "Inconsistent number of time_points and values in TimeSeries.".to_owned(),
            code: 420,
        }
    }
}

} // verus!
