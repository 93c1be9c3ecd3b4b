//! The error type of the integration, its model, and the conversions into it.

use crate::boundary::{client_error_text, json_error_text};
use vstd::prelude::*;
use vstd::std_specs::cmp::PartialEqSpecImpl;
use vstd::std_specs::convert::FromSpecImpl;
use vstd::string::StringExecFns;

verus! {

/// Everything that can go wrong between a tool provider and the agent side.
#[derive(Debug)]
pub enum McpRigIntegrationError {
    /// The provider could not be reached, the protocol exchange failed, or
    /// the provider took too long.
    McpError(String),
    /// The agent framework reported a failure.
    RigError(String),
    /// The tool ran and reported a failure of its own.
    ToolExecutionError(String),
    /// An adapter or toolset could not be set up.
    InitError(String),
    /// Arguments or results could not be converted to or from JSON.
    SerializationError(serde_json::Error),
    /// Anything else.
    Other(String),
}

/// What an error is, as far as its callers can tell: its kind, and its text
/// or, for a serialization error, the failure it wraps.
pub enum ErrorView {
    McpError(Seq<char>),
    RigError(Seq<char>),
    ToolExecutionError(Seq<char>),
    InitError(Seq<char>),
    SerializationError(serde_json::Error),
    Other(Seq<char>),
}

impl ErrorView {
    /// The words that name the kind at the start of an error's message.
    pub open spec fn prefix(self) -> Seq<char> {
        match self {
            ErrorView::McpError(_) => "MCP client error: "@,
            ErrorView::RigError(_) => "Rig error: "@,
            ErrorView::ToolExecutionError(_) => "Tool execution error: "@,
            ErrorView::InitError(_) => "Initialization error: "@,
            ErrorView::SerializationError(_) => "Serialization error: "@,
            ErrorView::Other(_) => "Other error: "@,
        }
    }

    /// The text that an error carries. A serialization error carries a
    /// failure in place of a text.
    pub open spec fn detail(self) -> Option<Seq<char>> {
        match self {
            ErrorView::McpError(m) => Some(m),
            ErrorView::RigError(m) => Some(m),
            ErrorView::ToolExecutionError(m) => Some(m),
            ErrorView::InitError(m) => Some(m),
            ErrorView::SerializationError(_) => None,
            ErrorView::Other(m) => Some(m),
        }
    }
}

/// The error for a provider operation that took longer than the time
/// allowed to it.
pub open spec fn timeout_failure_view() -> ErrorView {
    ErrorView::McpError("Request timed out"@)
}

impl View for McpRigIntegrationError {
    type V = ErrorView;

    open spec fn view(&self) -> ErrorView {
        match self {
            McpRigIntegrationError::McpError(m) => ErrorView::McpError(m@),
            McpRigIntegrationError::RigError(m) => ErrorView::RigError(m@),
            McpRigIntegrationError::ToolExecutionError(m) => ErrorView::ToolExecutionError(m@),
            McpRigIntegrationError::InitError(m) => ErrorView::InitError(m@),
            McpRigIntegrationError::SerializationError(e) => ErrorView::SerializationError(*e),
            McpRigIntegrationError::Other(m) => ErrorView::Other(m@),
        }
    }
}

/// A message: the words that name a kind, then the detail.
fn prefixed(prefix: &str, detail: &str) -> (r: String)
    ensures
        r@ == prefix@ + detail@,
        prefix@.is_prefix_of(r@),
{
    let r = String::from_str(prefix).concat(detail);
    assert((prefix@ + detail@).subrange(0, prefix@.len() as int) =~= prefix@);
    r
}

/// The message of a serialization error, given the text of the failure it
/// wraps.
pub fn serialization_message(detail: &str) -> (r: String)
    ensures
        r@ == "Serialization error: "@ + detail@,
{
    prefixed("Serialization error: ", detail)
}

impl McpRigIntegrationError {
    /// The error for a provider that could not be reached or an exchange
    /// that failed; `text` says what happened.
    pub fn provider_failure(text: String) -> (e: Self)
        ensures
            e@ == ErrorView::McpError(text@),
    {
        McpRigIntegrationError::McpError(text)
    }

    /// The error for a provider operation that took longer than the time
    /// allowed to it.
    pub fn timeout_failure() -> (e: Self)
        ensures
            e@ == timeout_failure_view(),
    {
        McpRigIntegrationError::McpError(String::from_str("Request timed out"))
    }

    /// The text shown for this error: the words that name its kind, then
    /// the text it carries. For a serialization error the text is that of
    /// the failure it wraps, whatever that is.
    pub fn message(&self) -> (r: String)
        ensures
            self@.prefix().is_prefix_of(r@),
            self@.detail() matches Some(detail) ==> r@ == self@.prefix() + detail,
    {
        match self {
            McpRigIntegrationError::McpError(m) => prefixed("MCP client error: ", m.as_str()),
            McpRigIntegrationError::RigError(m) => prefixed("Rig error: ", m.as_str()),
            McpRigIntegrationError::ToolExecutionError(m) => prefixed(
                "Tool execution error: ",
                m.as_str(),
            ),
            McpRigIntegrationError::InitError(m) => prefixed("Initialization error: ", m.as_str()),
            McpRigIntegrationError::SerializationError(e) => {
                let detail = json_error_text(e);
                let r = serialization_message(detail.as_str());
                assert(("Serialization error: "@ + detail@).subrange(
                    0,
                    "Serialization error: "@.len() as int,
                ) =~= "Serialization error: "@);
                r
            },
            McpRigIntegrationError::Other(m) => prefixed("Other error: ", m.as_str()),
        }
    }
}

impl PartialEq for McpRigIntegrationError {
    /// Two errors are equal when they are of the same kind and carry the
    /// same text. Two serialization errors are compared by the texts of the
    /// failures they wrap, of which nothing is known beforehand.
    fn eq(&self, other: &Self) -> (r: bool)
        ensures
            !(self is SerializationError && other is SerializationError) ==> r == (self@
                == other@),
    {
        match (self, other) {
            (McpRigIntegrationError::McpError(a), McpRigIntegrationError::McpError(b)) => *a == *b,
            (McpRigIntegrationError::RigError(a), McpRigIntegrationError::RigError(b)) => *a == *b,
            (
                McpRigIntegrationError::ToolExecutionError(a),
                McpRigIntegrationError::ToolExecutionError(b),
            ) => *a == *b,
            (McpRigIntegrationError::InitError(a), McpRigIntegrationError::InitError(b)) => *a
                == *b,
            (
                McpRigIntegrationError::SerializationError(a),
                McpRigIntegrationError::SerializationError(b),
            ) => {
                let left = json_error_text(a);
                let right = json_error_text(b);
                left == right
            },
            (McpRigIntegrationError::Other(a), McpRigIntegrationError::Other(b)) => *a == *b,
            _ => false,
        }
    }
}

impl PartialEqSpecImpl for McpRigIntegrationError {
    /// `==` has no meaning that holds of every pair: what it says of two
    /// serialization errors depends on texts that are not known here.
    open spec fn obeys_eq_spec() -> bool {
        false
    }

    open spec fn eq_spec(&self, other: &Self) -> bool {
        self@ == other@
    }
}

impl From<mcp_client::Error> for McpRigIntegrationError {
    /// A failure of the provider's client becomes a provider error that
    /// carries the failure's text.
    fn from(err: mcp_client::Error) -> (r: Self)
        ensures
            r@ is McpError,
    {
        McpRigIntegrationError::provider_failure(client_error_text(&err))
    }
}

impl FromSpecImpl<mcp_client::Error> for McpRigIntegrationError {
    /// The text of the result is not known before the conversion is made.
    open spec fn obeys_from_spec() -> bool {
        false
    }

    open spec fn from_spec(err: mcp_client::Error) -> Self {
        arbitrary()
    }
}

impl From<serde_json::Error> for McpRigIntegrationError {
    /// A JSON conversion failure is kept as it is.
    fn from(err: serde_json::Error) -> (r: Self) {
        McpRigIntegrationError::SerializationError(err)
    }
}

impl FromSpecImpl<serde_json::Error> for McpRigIntegrationError {
    open spec fn obeys_from_spec() -> bool {
        true
    }

    open spec fn from_spec(err: serde_json::Error) -> Self {
        McpRigIntegrationError::SerializationError(err)
    }
}

} // verus!
