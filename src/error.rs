use vstd::prelude::*;

verus! {

/// The failure classes reported by the store, the providers and the orchestrator.
#[derive(Clone, Copy, Debug, PartialEq, Eq, Structural)]
pub enum ErrorKind {
    /// Missing or invalid provider configuration.
    Config,
    /// The provider rejected the credentials.
    Auth,
    /// The provider answered with a non-success HTTP status.
    RemoteApi(u16),
    /// A response did not have the expected shape.
    Protocol,
    /// An instance did not become ready within the polling bound.
    Timeout,
    /// The store could not be read or written.
    Io,
    /// The store's content is not a valid encoding of the schema.
    Decode,
    /// No entity has the requested id.
    NotFound,
    /// An entity with the same id already exists.
    DuplicateKey,
    /// A duration could not be understood.
    InvalidDuration,
}

/// An error: its class and a human-readable message.
#[derive(Debug)]
pub struct GmlError {
    pub kind: ErrorKind,
    pub message: String,
}

impl GmlError {
    pub fn new(kind: ErrorKind, message: String) -> (r: GmlError)
        ensures
            r.kind == kind,
            r.message == message,
    {
        GmlError { kind, message }
    }

    /// Builds an error whose message is `prefix` followed by `subject`.
    pub fn about(kind: ErrorKind, prefix: &str, subject: &str) -> (r: GmlError)
        ensures
            r.kind == kind,
            r.message@ == prefix@ + subject@,
    {
        let message = String::from_str(prefix).concat(subject);
        GmlError { kind, message }
    }
}

} // verus!
