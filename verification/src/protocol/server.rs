//! The decisions of the blocking server: what its accept loop does with each incoming
//! connection, and what a connection handler does after each read.

use vstd::prelude::*;
use crate::ErrorKind;
use crate::protocol::{Error, timed_out};

verus! {

/// What the shutdown channel of the accept loop held when a connection came in.
#[derive(Clone, Copy, Debug, PartialEq, Eq, Structural)]
pub enum DieSignal {
    /// A shutdown request.
    Received,
    /// The shutdown handle is gone.
    Disconnected,
    /// Nothing.
    Empty,
}

/// What the accept loop does with an incoming connection.
#[derive(Clone, Copy, Debug, PartialEq, Eq, Structural)]
pub enum AcceptAction {
    /// Stop accepting, wait for the open connections to finish, and end.
    Shutdown,
    /// Stop accepting and end at once.
    Stop,
    /// Drop this connection and keep accepting.
    Skip,
    /// Hand the connection to a handler and keep accepting.
    Serve,
}

/// The accept loop that waits for open connections on shutdown: a shutdown request drains the
/// server; a lost shutdown handle, a failed accept or a failed read-timeout setting end it.
pub fn serve_async_step(die: DieSignal, accepted: bool, timeout_set: bool) -> (a: AcceptAction)
    ensures
        a == if die == DieSignal::Received {
            AcceptAction::Shutdown
        } else if die == DieSignal::Disconnected || !accepted || !timeout_set {
            AcceptAction::Stop
        } else {
            AcceptAction::Serve
        },
{
    match die {
        DieSignal::Received => AcceptAction::Shutdown,
        DieSignal::Disconnected => AcceptAction::Stop,
        DieSignal::Empty => {
            if !accepted || !timeout_set {
                AcceptAction::Stop
            } else {
                AcceptAction::Serve
            }
        },
    }
}

/// The accept loop of a spawned server: a shutdown request or a lost shutdown handle ends it,
/// as does a failed accept; a connection whose read timeout cannot be set or whose stream
/// cannot be cloned is dropped.
pub fn serve_step(die: DieSignal, accepted: bool, timeout_set: bool, cloned: bool) -> (a:
    AcceptAction)
    ensures
        a == if die != DieSignal::Empty || !accepted {
            AcceptAction::Stop
        } else if !timeout_set || !cloned {
            AcceptAction::Skip
        } else {
            AcceptAction::Serve
        },
{
    match die {
        DieSignal::Received | DieSignal::Disconnected => AcceptAction::Stop,
        DieSignal::Empty => {
            if !accepted {
                AcceptAction::Stop
            } else if !timeout_set || !cloned {
                AcceptAction::Skip
            } else {
                AcceptAction::Serve
            }
        },
    }
}

/// The outcome of reading the next request packet of a connection.
pub enum ConnRead {
    /// A request packet was read.
    Packet,
    /// Reading failed; `io_kind` is the kind of the I/O error when it was one.
    Failed { error: Error, io_kind: Option<ErrorKind> },
}

/// What a connection handler does after a read.
pub enum ConnAction {
    /// Serve the request and keep reading.
    ServeAndContinue,
    /// Serve the request, then close the connection (the server is shutting down).
    ServeAndClose,
    /// The read only timed out; read again.
    Retry,
    /// Close the connection without error.
    Close,
    /// Close the connection, reporting the error.
    Fail(Error),
}

/// The decision of a connection handler: requests are served; a read that timed out is retried
/// unless the server is shutting down, when the connection closes; any other failure closes the
/// connection with the error.
pub fn conn_step(read: ConnRead, shutdown: bool) -> (a: ConnAction)
    ensures
        match read {
            ConnRead::Packet => if shutdown {
                a is ServeAndClose
            } else {
                a is ServeAndContinue
            },
            ConnRead::Failed { error, io_kind } => match io_kind {
                Some(k) => if k == ErrorKind::TimedOut || k == ErrorKind::WouldBlock {
                    if shutdown {
                        a is Close
                    } else {
                        a is Retry
                    }
                } else {
                    a == ConnAction::Fail(error)
                },
                None => a == ConnAction::Fail(error),
            },
        },
{
    match read {
        ConnRead::Packet => {
            if shutdown {
                ConnAction::ServeAndClose
            } else {
                ConnAction::ServeAndContinue
            }
        },
        ConnRead::Failed { error, io_kind } => {
            match io_kind {
                Some(k) => {
                    if timed_out(k) {
                        if shutdown {
                            ConnAction::Close
                        } else {
                            ConnAction::Retry
                        }
                    } else {
                        ConnAction::Fail(error)
                    }
                },
                None => ConnAction::Fail(error),
            }
        },
    }
}

/// Counts the connections and calls a blocking server is still working on, so that shutdown
/// can wait until none is left.
pub struct InflightRpcs {
    count: u64,
}

impl InflightRpcs {
    /// The number of connections and calls in progress.
    pub closed spec fn count(&self) -> u64 {
        self.count
    }

    /// Nothing in progress.
    pub fn new() -> (r: InflightRpcs)
        ensures
            r.count() == 0,
    {
        InflightRpcs { count: 0 }
    }

    /// One more in progress.
    pub fn increment(&mut self)
        requires
            old(self).count() < u64::MAX,
        ensures
            final(self).count() == old(self).count() + 1,
    {
        self.count = self.count + 1;
    }

    /// One fewer in progress.
    pub fn decrement(&mut self)
        requires
            old(self).count() > 0,
        ensures
            final(self).count() == old(self).count() - 1,
    {
        self.count = self.count - 1;
    }

    /// The number in progress.
    pub fn get(&self) -> (n: u64)
        ensures
            n == self.count(),
    {
        self.count
    }

    /// Whether nothing is in progress.
    pub fn is_zero(&self) -> (b: bool)
        ensures
            b == (self.count() == 0),
    {
        self.count == 0
    }
}

} // verus!
