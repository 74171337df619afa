//! The shapes of the API server's replies and the watch events it sends.

use vstd::prelude::*;

pub mod etcd;

verus! {

/// A successful reply: an optional message and optional data.
#[derive(Clone, Debug, PartialEq)]
pub struct Response<T> {
    pub msg: Option<String>,
    pub data: Option<T>,
}

impl<T> Response<T> {
    /// A reply with the given message and data.
    pub fn new(msg: Option<String>, data: Option<T>) -> (r: Self)
        ensures
            r.msg == msg,
            r.data == data,
    {
        Response { msg, data }
    }
}

/// The HTTP status of an internal server error.
pub const INTERNAL_SERVER_ERROR: u16 = 500;

/// The HTTP status of a missing resource.
pub const NOT_FOUND: u16 = 404;

/// The HTTP status of a malformed request.
pub const BAD_REQUEST: u16 = 400;

/// A failed reply: a message, an optional cause and the HTTP status.
#[derive(Clone, Debug, PartialEq)]
pub struct ErrResponse {
    pub msg: String,
    pub cause: Option<String>,
    pub status: u16,
}

impl ErrResponse {
    /// An internal server error.
    pub fn new(msg: String, cause: Option<String>) -> (r: Self)
        ensures
            r.msg == msg,
            r.cause == cause,
            r.status == INTERNAL_SERVER_ERROR,
    {
        ErrResponse { msg, cause, status: INTERNAL_SERVER_ERROR }
    }

    /// A missing resource.
    pub fn not_found(msg: String, cause: Option<String>) -> (r: Self)
        ensures
            r.msg == msg,
            r.cause == cause,
            r.status == NOT_FOUND,
    {
        ErrResponse { msg, cause, status: NOT_FOUND }
    }

    /// A malformed request.
    pub fn bad_request(msg: String, cause: Option<String>) -> (r: Self)
        ensures
            r.msg == msg,
            r.cause == cause,
            r.status == BAD_REQUEST,
    {
        ErrResponse { msg, cause, status: BAD_REQUEST }
    }
}

} // verus!
