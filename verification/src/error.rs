//! API errors: the HTTP status each maps to and the JSON body it produces.
use vstd::prelude::*;
use crate::text::{concat, push_str, push_decimal, decimal};

verus! {

/// API error type mapped onto HTTP status codes with a JSON body.
#[derive(Debug)]
pub enum ApiError {
    NotFound(String),
    Validation(String),
    TooLarge { estimated_tiles: u64, max_tiles: u64 },
    RateLimited(String),
    Busy(String),
    Conflict(String),
    Gone(String),
    Internal(String),
}

/// The JSON error body: the message, plus the tile figures of a too-large
/// export.
#[derive(Debug)]
pub struct ErrorBody {
    pub error: String,
    pub estimated_tiles: Option<u64>,
    pub max_tiles: Option<u64>,
}

/// The HTTP status code of an error.
pub open spec fn status_of(e: ApiError) -> u16 {
    match e {
        ApiError::NotFound(_) => 404,
        ApiError::Validation(_) => 400,
        ApiError::TooLarge { .. } => 422,
        ApiError::RateLimited(_) => 429,
        ApiError::Busy(_) => 503,
        ApiError::Conflict(_) => 409,
        ApiError::Gone(_) => 410,
        ApiError::Internal(_) => 500,
    }
}

/// The message of an error.
pub open spec fn message_of(e: ApiError) -> Seq<char> {
    match e {
        ApiError::NotFound(m) => m@,
        ApiError::Validation(m) => m@,
        ApiError::TooLarge { estimated_tiles, max_tiles } => "export too large: estimated "@
            + decimal(estimated_tiles as nat) + " tiles exceeds the limit of "@ + decimal(
            max_tiles as nat,
        ),
        ApiError::RateLimited(m) => m@,
        ApiError::Busy(m) => m@,
        ApiError::Conflict(m) => m@,
        ApiError::Gone(m) => m@,
        ApiError::Internal(m) => "internal error: "@ + m@,
    }
}

impl ApiError {
    /// The HTTP status code the error is answered with.
    pub fn status(&self) -> (s: u16)
        ensures
            s == status_of(*self),
    {
        match self {
            ApiError::NotFound(_) => 404,
            ApiError::Validation(_) => 400,
            ApiError::TooLarge { .. } => 422,
            ApiError::RateLimited(_) => 429,
            ApiError::Busy(_) => 503,
            ApiError::Conflict(_) => 409,
            ApiError::Gone(_) => 410,
            ApiError::Internal(_) => 500,
        }
    }

    /// The human-readable message of the error.
    pub fn message(&self) -> (m: String)
        ensures
            m@ == message_of(*self),
    {
        match self {
            ApiError::NotFound(m) => m.clone(),
            ApiError::Validation(m) => m.clone(),
            ApiError::TooLarge { estimated_tiles, max_tiles } => {
                let mut m = String::from_str("export too large: estimated ");
                push_decimal(&mut m, *estimated_tiles);
                push_str(&mut m, " tiles exceeds the limit of ");
                push_decimal(&mut m, *max_tiles);
                m
            },
            ApiError::RateLimited(m) => m.clone(),
            ApiError::Busy(m) => m.clone(),
            ApiError::Conflict(m) => m.clone(),
            ApiError::Gone(m) => m.clone(),
            ApiError::Internal(m) => concat("internal error: ", m.as_str()),
        }
    }

    /// The JSON body the error is answered with.
    pub fn body(&self) -> (b: ErrorBody)
        ensures
            b.error@ == message_of(*self),
            match *self {
                ApiError::TooLarge { estimated_tiles, max_tiles } => b.estimated_tiles == Some(
                    estimated_tiles,
                ) && b.max_tiles == Some(max_tiles),
                _ => b.estimated_tiles is None && b.max_tiles is None,
            },
    {
        let (estimated_tiles, max_tiles) = match self {
            ApiError::TooLarge { estimated_tiles, max_tiles } => (
                Some(*estimated_tiles),
                Some(*max_tiles),
            ),
            _ => (None, None),
        };
        ErrorBody { error: self.message(), estimated_tiles, max_tiles }
    }

    /// A database failure, answered as an internal error.
    pub fn database(cause: &str) -> (e: ApiError)
        ensures
            e matches ApiError::Internal(m) && m@ == "database error: "@ + cause@,
    {
        ApiError::Internal(concat("database error: ", cause))
    }

    /// An I/O failure, answered as an internal error.
    pub fn io(cause: &str) -> (e: ApiError)
        ensures
            e matches ApiError::Internal(m) && m@ == "io error: "@ + cause@,
    {
        ApiError::Internal(concat("io error: ", cause))
    }
}

/// Only internal failures are answered with a server-error status; every
/// other error is the client's (4xx) or a temporary refusal (503).
pub proof fn lemma_status_classes(e: ApiError)
    ensures
        400 <= status_of(e) < 600,
        status_of(e) == 500 <==> e is Internal,
        status_of(e) == 503 <==> e is Busy,
        !(e is Internal || e is Busy) ==> 400 <= status_of(e) < 500,
{
}

/// The HTTP status of each error: not found 404, validation 400, too large
/// 422, rate limited 429, busy 503, conflict 409, gone 410, internal 500.
pub proof fn lemma_status_codes(e: ApiError)
    ensures
        e is NotFound ==> status_of(e) == 404,
        e is Validation ==> status_of(e) == 400,
        e is TooLarge ==> status_of(e) == 422,
        e is RateLimited ==> status_of(e) == 429,
        e is Busy ==> status_of(e) == 503,
        e is Conflict ==> status_of(e) == 409,
        e is Gone ==> status_of(e) == 410,
        e is Internal ==> status_of(e) == 500,
{
}

} // verus!
