//! What can go wrong in a decode call.

use vstd::prelude::*;

verus! {

/// The failures of the engine and of a decode call.
///
/// All but [`Error::Decode`] are failures of the sandbox itself; `Decode`
/// says that the codec rejected the image.
#[derive(Debug, Clone, PartialEq, Eq)]
pub enum Error {
    /// The engine could not be built: the module is malformed, or something
    /// that it imports could not be resolved.
    Initialization(String),
    /// No instance of the module could be made for a call.
    Instantiation(String),
    /// The instance faulted while it ran.
    ExecutionTrap(String),
    /// The output of the instance could not be taken over, because
    /// something else still held on to it.
    PipeOwnership,
    /// The bytes on one side of the boundary are not the encoding of any
    /// value that is sent across it.
    Serialization,
    /// The codec rejected the image; the text says why.
    Decode(String),
}

/// How the session of one call failed before its output could be taken.
#[derive(Debug, Clone, PartialEq, Eq)]
pub enum RunFailure {
    /// The execution context of the instance could not be made.
    Context(String),
    /// No instance of the module could be made.
    Instantiation(String),
    /// The entry point could not be run to its end.
    Trap(String),
}

impl Error {
    /// The error under which a failed session is reported: what keeps an
    /// instance from being made, its context included, is an instantiation
    /// error, and what stops its run is an execution trap. The reason is
    /// handed on unchanged.
    pub fn of_run(failure: RunFailure) -> (e: Error)
        ensures
            e == match failure {
                RunFailure::Context(reason) => Error::Instantiation(reason),
                RunFailure::Instantiation(reason) => Error::Instantiation(reason),
                RunFailure::Trap(reason) => Error::ExecutionTrap(reason),
            },
    {
        match failure {
            RunFailure::Context(reason) => Error::Instantiation(reason),
            RunFailure::Instantiation(reason) => Error::Instantiation(reason),
            RunFailure::Trap(reason) => Error::ExecutionTrap(reason),
        }
    }

    /// Whether the sandbox failed, rather than the image.
    pub open spec fn infrastructure(self) -> bool {
        !(self is Decode)
    }

    /// Whether the sandbox failed, rather than the image.
    pub fn is_infrastructure(&self) -> (yes: bool)
        ensures
            yes == self.infrastructure(),
    {
        match self {
            Error::Decode(_) => false,
            _ => true,
        }
    }

    /// Whether the codec rejected the image.
    pub fn is_decode(&self) -> (yes: bool)
        ensures
            yes == (*self is Decode),
    {
        match self {
            Error::Decode(_) => true,
            _ => false,
        }
    }
}

} // verus!
