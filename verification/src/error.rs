//! Error values returned by every fallible operation of the library.

use vstd::prelude::*;
use vstd::string::StringExecFns;

verus! {

/// What went wrong in a call.
#[derive(Debug)]
pub enum OnagerError {
    /// No graph is registered under the given name.
    GraphNotFound(String),
    /// A graph is already registered under the given name.
    GraphAlreadyExists(String),
    /// The external identifier names no node of the graph.
    NodeNotFound(i64),
    /// An argument is malformed; the text says which.
    InvalidArgument(String),
    /// A failure raised by the graph engine underneath.
    GraphError(String),
    /// A value could not be written or read at a boundary.
    SerializationError(String),
}

/// The decimal digits of an integer, with a leading minus sign when negative,
/// as the standard formatter writes them.
pub uninterp spec fn decimal_text(n: int) -> Seq<char>;

/// Formats an integer with std's `format!("{}", n)`. The contract only gives
/// the outcome a name, so that two renderings of the same number are known to
/// agree; nothing is claimed about the digits themselves.
#[verifier::external_body]
pub(crate) fn decimal(n: i64) -> (text: String)
    ensures
        text@ == decimal_text(n as int),
{
    format!("{}", n)
}

impl OnagerError {
    /// The text of the error as a reader sees it: a fixed heading for the
    /// variant, followed by the payload.
    pub open spec fn message_text(self) -> Seq<char> {
        match self {
            OnagerError::GraphNotFound(name) => "Graph not found: "@ + name@,
            OnagerError::GraphAlreadyExists(name) => "Graph already exists: "@ + name@,
            OnagerError::NodeNotFound(id) => "Node not found: "@ + decimal_text(id as int),
            OnagerError::InvalidArgument(text) => "Invalid argument: "@ + text@,
            OnagerError::GraphError(text) => "Graph error: "@ + text@,
            OnagerError::SerializationError(text) => "Serialization error: "@ + text@,
        }
    }

    /// Renders the error for a human reader.
    pub fn message(&self) -> (text: String)
        ensures
            text@ == self.message_text(),
    {
        match self {
            OnagerError::GraphNotFound(name) => String::from_str("Graph not found: ").concat(
                name.as_str(),
            ),
            OnagerError::GraphAlreadyExists(name) => String::from_str(
                "Graph already exists: ",
            ).concat(name.as_str()),
            OnagerError::NodeNotFound(id) => {
                let digits = decimal(*id);
                String::from_str("Node not found: ").concat(digits.as_str())
            },
            OnagerError::InvalidArgument(text) => String::from_str("Invalid argument: ").concat(
                text.as_str(),
            ),
            OnagerError::GraphError(text) => String::from_str("Graph error: ").concat(
                text.as_str(),
            ),
            OnagerError::SerializationError(text) => String::from_str(
                "Serialization error: ",
            ).concat(text.as_str()),
        }
    }

    /// Whether the error reports a malformed call.
    pub fn is_invalid_argument(&self) -> (b: bool)
        ensures
            b == (self is InvalidArgument),
    {
        match self {
            OnagerError::InvalidArgument(_) => true,
            _ => false,
        }
    }
}

} // verus!
