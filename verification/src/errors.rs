//! The application's error taxonomy. Payloads are plain strings; the shell
//! around the library attaches transport- and platform-specific sources.

use vstd::prelude::*;

verus! {

/// Advisory delivery outcome of the real-time channel: a broadcast found no
/// subscriber, or a unicast target is not connected. Neither tears down the
/// hub or any other client's connection.
#[derive(Clone, Copy, Debug, PartialEq, Eq, Structural)]
pub enum DeliveryError {
    NoSubscribers,
    NotFound,
}

/// One error of the application: an I/O failure, an image-processing
/// failure, a server failure (path resolution, binding, delivery), or a
/// configuration-file failure.
pub enum AppError {
    Io(String),
    Image(String),
    Server(String),
    Config(String),
}

impl AppError {
    /// True of server-class errors; the variant carrying path, bind and
    /// delivery failures.
    pub open spec fn is_server(&self) -> bool {
        matches!(self, AppError::Server(_))
    }

    /// The message carried by the error.
    pub fn message(&self) -> (r: &String)
        ensures
            r@ == self.message_spec(),
    {
        match self {
            AppError::Io(m) => m,
            AppError::Image(m) => m,
            AppError::Server(m) => m,
            AppError::Config(m) => m,
        }
    }

    /// The message carried by the error.
    pub open spec fn message_spec(&self) -> Seq<char> {
        match self {
            AppError::Io(m) => m@,
            AppError::Image(m) => m@,
            AppError::Server(m) => m@,
            AppError::Config(m) => m@,
        }
    }
}

} // verus!
