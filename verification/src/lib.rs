//! A verified core of an RPC framework: request/response envelopes, request contexts and
//! trace contexts, wire encodings, connection framing state machines, and the bookkeeping that
//! servers and clients keep for in-flight requests.
#![allow(unused_imports)]

use vstd::prelude::*;
use std::time::Instant;

pub mod error_kind;
pub mod util;
pub mod protocol;
pub mod trace;
pub mod context;
pub mod server;
pub mod serde_transport;
pub mod client;
pub mod time;

pub use crate::error_kind::ErrorKind;

verus! {

/// A message from a client to a server.
#[derive(Debug)]
pub enum ClientMessage<T> {
    /// A request initiated by a user, to which the server responds.
    Request(Request<T>),
    /// A command to cancel an in-flight request, sent by the client when a response future is
    /// dropped.
    Cancel {
        /// Associates the message with a chain of causally related actions.
        trace_context: trace::Context,
        /// The ID of the request to cancel.
        request_id: u64,
    },
}

/// A request from a client to a server.
#[derive(Clone, Copy, Debug)]
pub struct Request<T> {
    /// Trace context, deadline, and other cross-cutting concerns.
    pub context: context::Context,
    /// Uniquely identifies the request across all requests sent over a single channel.
    pub id: u64,
    /// The request body.
    pub message: T,
}

/// Implemented by request types to name the request.
pub trait RequestName {
    /// The name this request goes by.
    spec fn name_spec(&self) -> Seq<char>;

    /// The name of a request.
    fn name(&self) -> (n: &'static str)
        ensures
            n@ == self.name_spec(),
    ;
}

impl<Req: RequestName> RequestName for std::sync::Arc<Req> {
    open spec fn name_spec(&self) -> Seq<char> {
        (**self).name_spec()
    }

    fn name(&self) -> (n: &'static str) {
        (**self).name()
    }
}

impl<Req: RequestName> RequestName for Box<Req> {
    open spec fn name_spec(&self) -> Seq<char> {
        (**self).name_spec()
    }

    fn name(&self) -> (n: &'static str) {
        (**self).name()
    }
}

impl RequestName for String {
    open spec fn name_spec(&self) -> Seq<char> {
        "string"@
    }

    fn name(&self) -> (n: &'static str)
        ensures
            n@ == "string"@,
    {
        proof {
            reveal_strlit("string");
        }
        "string"
    }
}

impl RequestName for char {
    open spec fn name_spec(&self) -> Seq<char> {
        "char"@
    }

    fn name(&self) -> (n: &'static str)
        ensures
            n@ == "char"@,
    {
        proof {
            reveal_strlit("char");
        }
        "char"
    }
}

impl RequestName for () {
    open spec fn name_spec(&self) -> Seq<char> {
        "unit"@
    }

    fn name(&self) -> (n: &'static str)
        ensures
            n@ == "unit"@,
    {
        proof {
            reveal_strlit("unit");
        }
        "unit"
    }
}

impl RequestName for i32 {
    open spec fn name_spec(&self) -> Seq<char> {
        "i32"@
    }

    fn name(&self) -> (n: &'static str)
        ensures
            n@ == "i32"@,
    {
        proof {
            reveal_strlit("i32");
        }
        "i32"
    }
}

impl RequestName for u32 {
    open spec fn name_spec(&self) -> Seq<char> {
        "u32"@
    }

    fn name(&self) -> (n: &'static str)
        ensures
            n@ == "u32"@,
    {
        proof {
            reveal_strlit("u32");
        }
        "u32"
    }
}

impl RequestName for i64 {
    open spec fn name_spec(&self) -> Seq<char> {
        "i64"@
    }

    fn name(&self) -> (n: &'static str)
        ensures
            n@ == "i64"@,
    {
        proof {
            reveal_strlit("i64");
        }
        "i64"
    }
}

impl RequestName for u64 {
    open spec fn name_spec(&self) -> Seq<char> {
        "u64"@
    }

    fn name(&self) -> (n: &'static str)
        ensures
            n@ == "u64"@,
    {
        proof {
            reveal_strlit("u64");
        }
        "u64"
    }
}

/// A response from a server to a client.
#[derive(Debug, PartialEq, Eq, Hash)]
pub struct Response<T> {
    /// The ID of the request being responded to.
    pub request_id: u64,
    /// The response body, or an error if the request failed.
    pub message: Result<T, ServerError>,
}

/// An error indicating the server aborted the request early, e.g., due to request throttling.
#[derive(Debug, PartialEq, Eq, Hash)]
pub struct ServerError {
    /// The type of error that occurred to fail the request.
    pub kind: ErrorKind,
    /// A message describing more detail about the error that occurred.
    pub detail: String,
}

impl Clone for ServerError {
    fn clone(&self) -> (e: ServerError)
        ensures
            e == *self,
    {
        ServerError { kind: self.kind, detail: self.detail.clone() }
    }
}

impl<T: Clone> Clone for Response<T> {
    fn clone(&self) -> (r: Response<T>)
        ensures
            r.request_id == self.request_id,
            match (self.message, r.message) {
                (Ok(a), Ok(b)) => cloned(a, b),
                (Err(a), Err(b)) => a == b,
                _ => false,
            },
    {
        let message = match &self.message {
            Ok(v) => Ok(v.clone()),
            Err(e) => Err(e.clone()),
        };
        Response { request_id: self.request_id, message }
    }
}

impl ServerError {
    /// Returns a new server error with `kind` and `detail`.
    pub fn new(kind: ErrorKind, detail: String) -> (e: ServerError)
        ensures
            e.kind == kind,
            e.detail == detail,
    {
        ServerError { kind, detail }
    }
}

impl<T> Request<T> {
    /// Returns the deadline for this request.
    pub fn deadline(&self) -> (d: &Instant)
        ensures
            *d == self.context.deadline,
    {
        &self.context.deadline
    }
}

} // verus!
