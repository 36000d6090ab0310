use vstd::prelude::*;

verus! {

/// Errors of the managed layer.
#[derive(Debug, Clone, PartialEq, Eq)]
pub enum Error {
    /// An exception thrown by LHAPDF, with its message.
    LhapdfException(String),
    /// General error with a message.
    General(String),
    /// A 404 'file not found' answer to a download.
    Http404,
    /// An error from the file system, a lock file, the network or the configuration.
    Other(String),
    /// No write directory is configured, so no new data can be acquired.
    ReadOnly,
    /// No configured repository offers the set with this name.
    SetNotFound(String),
    /// A repository URL and an archive name do not make a URL; the parser's message.
    InvalidUrl(String),
    /// A reply or an event that does not fit the state of the operation it was given to.
    OutOfOrder,
}

/// Type definition for results with an [`Error`].
pub type Result<T> = core::result::Result<T, Error>;

} // verus!
