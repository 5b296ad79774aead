//! Errors of file operations, each with the path at which it occurred.

use std::io;
use std::path::PathBuf;
use vstd::prelude::*;
use vstd::string::StringExecFns;

verus! {

/// `std::path::PathBuf`: a path is carried through as it is, nothing is stated of it.
#[verifier::external_type_specification]
#[verifier::external_body]
pub struct ExPathBuf(std::path::PathBuf);

/// `std::io::Error`: the error of an operation is carried through, nothing is stated of it.
#[verifier::external_type_specification]
#[verifier::external_body]
pub struct ExIoError(std::io::Error);

/// An error of a file operation: what failed, at which path, and why.
#[derive(Debug)]
pub struct IoErrorAtPath {
    /// The operation that failed.
    pub message: String,
    /// The path at which the operation failed.
    pub path: PathBuf,
    /// The error that the operation gave.
    pub cause: io::Error,
}

impl IoErrorAtPath {
    /// Creates the error for the operation described by `message`, which failed at `path`
    /// because of `cause`.
    pub fn new(message: String, path: PathBuf, cause: io::Error) -> (error: IoErrorAtPath)
        ensures
            error.message == message,
            error.path == path,
            error.cause == cause,
    {
        IoErrorAtPath { message, path, cause }
    }

    /// Gives a function that turns the error of an operation into an [`IoErrorAtPath`] for the
    /// operation described by `message` at `path`.
    pub fn mapper(message: String, path: PathBuf) -> (map: impl FnOnce(io::Error) -> IoErrorAtPath)
        ensures
            forall|cause: io::Error| #[trigger] map.requires((cause,)),
            forall|cause: io::Error, error: IoErrorAtPath| #[trigger]
                map.ensures((cause,), error) ==> error.message == message && error.path == path
                    && error.cause == cause,
    {
        move |cause: io::Error| -> (error: IoErrorAtPath)
            ensures
                error.message == message,
                error.path == path,
                error.cause == cause,
            { IoErrorAtPath::new(message, path, cause) }
    }

    /// The message, the path and the cause in one line.
    pub fn to_string(&self) -> (text: String)
        ensures
            is_description(text@, self.message@),
    {
        let path = path_text(&self.path);
        let cause = cause_text(&self.cause);
        let mut text = self.message.clone();
        text.append(" ");
        text.append(path.as_str());
        text.append(": ");
        text.append(cause.as_str());
        assert(text@ =~= description(self.message@, path@, cause@));
        text
    }
}

/// The line that describes the error of a file operation: the message, a space, the text of
/// the path, a colon, a space and the text of the cause.
pub open spec fn description(message: Seq<char>, path: Seq<char>, cause: Seq<char>) -> Seq<char> {
    message + " "@ + path + ": "@ + cause
}

/// Whether `text` describes the error of the operation described by `message`, at some path
/// and with some cause.
pub open spec fn is_description(text: Seq<char>, message: Seq<char>) -> bool {
    exists|path: Seq<char>, cause: Seq<char>| text == #[trigger] description(message, path, cause)
}

/// `std::path::Path::display`: the text that shows the path. Where the path is no valid
/// Unicode the text differs from it, so nothing is stated of the text.
#[verifier::external_body]
fn path_text(path: &PathBuf) -> String {
    path.display().to_string()
}

/// The `Display` of `std::io::Error`: the text that tells the cause. For an error of the
/// operating system the text is what the operating system says, which is not known beforehand,
/// so nothing is stated of the text.
#[verifier::external_body]
fn cause_text(cause: &io::Error) -> String {
    cause.to_string()
}

/// Gives a function that turns the error of an operation into an [`IoErrorAtPath`] for the
/// operation described by `message` at `path`.
pub fn io_error(message: String, path: PathBuf) -> (map: impl FnOnce(io::Error) -> IoErrorAtPath)
    ensures
        forall|cause: io::Error| #[trigger] map.requires((cause,)),
        forall|cause: io::Error, error: IoErrorAtPath| #[trigger]
            map.ensures((cause,), error) ==> error.message == message && error.path == path
                && error.cause == cause,
{
    IoErrorAtPath::mapper(message, path)
}

} // verus!
