//! The trusted boundary: outside types that the library carries, and the
//! outside functions it calls. Nothing here is proved; each contract states
//! what the named outside function is relied on to do, and a function
//! without a contract is relied on for nothing but to return.

use std::sync::Arc;
use std::time::Duration;
use vstd::prelude::*;

verus! {

/// A JSON value of `serde_json`, carried opaquely.
#[verifier::external_type_specification]
#[verifier::external_body]
pub struct ExValue(serde_json::Value);

/// The error of `serde_json`, carried opaquely.
#[verifier::external_type_specification]
#[verifier::external_body]
pub struct ExJsonError(serde_json::Error);

/// The error type of `mcp_client`'s client operations, carried opaquely.
#[verifier::external_type_specification]
#[verifier::external_body]
pub struct ExClientError(mcp_client::client::Error);

/// The error type of `mcp_client`'s transports, carried opaquely.
#[verifier::external_type_specification]
#[verifier::external_body]
pub struct ExTransportError(mcp_client::transport::Error);

/// One piece of content that a tool returns (`mcp_spec`), carried opaquely.
#[verifier::external_type_specification]
#[verifier::external_body]
pub struct ExContent(mcp_spec::content::Content);

/// The error with which `tokio` reports a task that did not run to its end,
/// carried opaquely.
#[verifier::external_type_specification]
#[verifier::external_body]
pub struct ExJoinError(tokio::task::JoinError);

/// The text that `Display` gives for a join error.
pub uninterp spec fn join_error_message(e: tokio::task::JoinError) -> Seq<char>;

/// The text that `Debug` gives for a list of content.
pub uninterp spec fn content_debug(content: Seq<mcp_spec::content::Content>) -> Seq<char>;

/// What `serde_json::to_value` makes of a list of content.
pub uninterp spec fn content_json(content: Seq<mcp_spec::content::Content>) -> Result<
    serde_json::Value,
    serde_json::Error,
>;

/// The duration of a whole number of seconds.
pub uninterp spec fn duration_of_secs(secs: u64) -> Duration;

/// `<serde_json::Value as Clone>::clone`: the copy is the same JSON value.
pub assume_specification[ <serde_json::Value as Clone>::clone ](v: &serde_json::Value) -> (r:
    serde_json::Value)
    ensures
        r == *v,
;

/// `ToString::to_string` on `mcp_client::Error`: the `Display` text of the
/// error. The text may come from the platform or from an error of another
/// library that the value wraps, so nothing is said of it.
#[verifier::external_body]
pub(crate) fn client_error_text(e: &mcp_client::client::Error) -> (s: String) {
    e.to_string()
}

/// `ToString::to_string` on `serde_json::Error`: the `Display` text of the
/// error. An error of input or output shows the platform's text, so nothing
/// is said of it.
#[verifier::external_body]
pub(crate) fn json_error_text(e: &serde_json::Error) -> (s: String) {
    e.to_string()
}

/// `ToString::to_string` on `mcp_client::transport::Error`: the `Display`
/// text of the error. An error of input or output shows the platform's
/// text, so nothing is said of it.
#[verifier::external_body]
pub(crate) fn transport_error_text(e: &mcp_client::transport::Error) -> (s: String) {
    e.to_string()
}

/// `ToString::to_string` on `tokio::task::JoinError`: the `Display` text of
/// the error, which depends on the error value alone.
#[verifier::external_body]
pub(crate) fn join_error_text(e: &tokio::task::JoinError) -> (s: String)
    ensures
        s@ == join_error_message(*e),
{
    e.to_string()
}

/// `Debug` formatting of a list of `mcp_spec::Content`: the text depends on
/// the list alone.
#[verifier::external_body]
pub(crate) fn content_debug_text(content: &Vec<mcp_spec::content::Content>) -> (s: String)
    ensures
        s@ == content_debug(content@),
{
    format!("{:?}", content)
}

/// `serde_json::to_value` on a list of `mcp_spec::Content`: the JSON value
/// that the list serializes to, or the error of the serializer; either
/// depends on the list alone.
#[verifier::external_body]
pub(crate) fn content_to_json(content: Vec<mcp_spec::content::Content>) -> (r: Result<
    serde_json::Value,
    serde_json::Error,
>)
    ensures
        r == content_json(content@),
{
    serde_json::to_value(content)
}

/// `Arc::clone`: a second handle to the same shared value.
#[verifier::external_body]
pub(crate) fn share<C>(handle: &Arc<C>) -> (r: Arc<C>)
    ensures
        r == *handle,
{
    Arc::clone(handle)
}

/// `Duration::from_secs`: the duration of that many whole seconds.
#[verifier::external_body]
pub(crate) fn duration_from_secs(secs: u64) -> (d: Duration)
    ensures
        d == duration_of_secs(secs),
{
    Duration::from_secs(secs)
}

} // verus!
