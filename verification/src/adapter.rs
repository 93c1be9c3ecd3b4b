//! The adapter that presents one remote tool as an invocable unit: its
//! descriptor, the request that an invocation forwards, and what the
//! provider's answer means.

use crate::boundary::{
    content_debug, content_debug_text, content_json, content_to_json, join_error_message,
    join_error_text, share,
};
use crate::error::{timeout_failure_view, ErrorView, McpRigIntegrationError};
use serde_json::Value;
use std::sync::Arc;
use vstd::prelude::*;
use vstd::string::StringExecFns;

verus! {

/// What a provider says of one tool: its name, what it does, and the schema
/// of the arguments it takes.
pub struct ToolDescriptor {
    pub name: Seq<char>,
    pub description: Seq<char>,
    pub parameters: Value,
}

/// The arguments of one invocation, as the agent side produced them.
pub struct McpToolArgs {
    pub args: Value,
}

/// A tool's descriptor as a record that can be stored and sent.
pub struct McpToolState {
    pub name: String,
    pub description: String,
    pub parameters: Value,
}

impl View for McpToolState {
    type V = ToolDescriptor;

    open spec fn view(&self) -> ToolDescriptor {
        ToolDescriptor {
            name: self.name@,
            description: self.description@,
            parameters: self.parameters,
        }
    }
}

impl Clone for McpToolState {
    fn clone(&self) -> (r: Self)
        ensures
            r@ == self@,
    {
        McpToolState {
            name: self.name.clone(),
            description: self.description.clone(),
            parameters: self.parameters.clone(),
        }
    }
}

/// A marker that names a provider; unlike a handle it can be stored and sent.
pub struct ClientId(pub String);

impl Clone for ClientId {
    fn clone(&self) -> (r: Self)
        ensures
            r.0@ == self.0@,
    {
        ClientId(self.0.clone())
    }
}

/// A tool as the agent side is told of it.
pub struct ToolDefinition {
    pub name: String,
    pub description: String,
    pub parameters: Value,
}

impl View for ToolDefinition {
    type V = ToolDescriptor;

    open spec fn view(&self) -> ToolDescriptor {
        ToolDescriptor {
            name: self.name@,
            description: self.description@,
            parameters: self.parameters,
        }
    }
}

/// What an invocation hands to the provider: which provider, which tool, and
/// the arguments.
pub struct ToolCallRequest<C> {
    pub mcp_client: Arc<C>,
    pub tool_name: String,
    pub arguments: Value,
}

/// A provider's answer to an invocation.
pub struct ToolCallResult {
    pub content: Vec<mcp_spec::content::Content>,
    pub is_error: Option<bool>,
}

/// How the forwarded invocation ended.
pub enum CallOutcome {
    /// The task that carried the invocation did not run to its end.
    JoinFailed(tokio::task::JoinError),
    /// The provider could not be reached, or the exchange failed.
    CallFailed(mcp_client::Error),
    /// The invocation took longer than the time allowed to it.
    TimedOut,
    /// The provider answered.
    Returned(ToolCallResult),
}

/// One remote tool together with the provider that runs it.
pub struct McpToolAdapter<C> {
    mcp_client: Arc<C>,
    tool_name: String,
    tool_description: String,
    parameters: Value,
}

/// What an adapter is: a tool's descriptor and the handle of its provider.
pub struct AdapterView<C> {
    pub client: Arc<C>,
    pub tool: ToolDescriptor,
}

impl<C> View for McpToolAdapter<C> {
    type V = AdapterView<C>;

    closed spec fn view(&self) -> AdapterView<C> {
        AdapterView {
            client: self.mcp_client,
            tool: ToolDescriptor {
                name: self.tool_name@,
                description: self.tool_description@,
                parameters: self.parameters,
            },
        }
    }
}

impl<C> Clone for McpToolAdapter<C> {
    /// A second adapter for the same tool, sharing the provider's handle.
    fn clone(&self) -> (r: Self)
        ensures
            r@ == self@,
    {
        McpToolAdapter {
            mcp_client: share(&self.mcp_client),
            tool_name: self.tool_name.clone(),
            tool_description: self.tool_description.clone(),
            parameters: self.parameters.clone(),
        }
    }
}

/// The result of an invocation with its error read by kind and text.
pub open spec fn result_view(r: Result<Value, McpRigIntegrationError>) -> Result<Value, ErrorView> {
    match r {
        Ok(v) => Ok(v),
        Err(e) => Err(e@),
    }
}

/// The error for a tool that ran and reported a failure, given the text of
/// what it returned.
pub open spec fn tool_failure_view(report: Seq<char>) -> ErrorView {
    ErrorView::ToolExecutionError("MCP tool error: "@ + report)
}

/// The error for an invocation whose task did not run to its end, given the
/// text of the reason.
pub open spec fn join_failure_view(reason: Seq<char>) -> ErrorView {
    ErrorView::McpError("Task join error: "@ + reason)
}

/// What a tool's content gives once it is converted to JSON: the value, or a
/// serialization error.
pub open spec fn output_view(converted: Result<Value, serde_json::Error>) -> Result<
    Value,
    ErrorView,
> {
    result_view(
        match converted {
            Ok(v) => Ok(v),
            Err(e) => Err(McpRigIntegrationError::SerializationError(e)),
        },
    )
}

/// Whether `r` is what an invocation yields, given how it ended. An answer
/// counts as a failure of the tool only where it is flagged so; an answer
/// without a flag is a success. A failure to reach the provider is a
/// provider error with the failure's own text, which is not known here.
pub open spec fn is_call_result(outcome: CallOutcome, r: Result<Value, ErrorView>) -> bool {
    match outcome {
        CallOutcome::JoinFailed(e) => r == Err::<Value, ErrorView>(
            join_failure_view(join_error_message(e)),
        ),
        CallOutcome::CallFailed(_) => r matches Err(ErrorView::McpError(_)),
        CallOutcome::TimedOut => r == Err::<Value, ErrorView>(timeout_failure_view()),
        CallOutcome::Returned(answer) => r == if answer.is_error == Some(true) {
            Err(tool_failure_view(content_debug(answer.content@)))
        } else {
            output_view(content_json(answer.content@))
        },
    }
}

/// An invocation that did not reach the provider's answer yields a provider
/// error, never a success.
pub proof fn lemma_failed_call_is_provider_error(outcome: CallOutcome, r: Result<Value, ErrorView>)
    requires
        is_call_result(outcome, r),
        !(outcome is Returned),
    ensures
        r matches Err(ErrorView::McpError(_)),
{
}

/// An invocation that took longer than the time allowed to it yields the
/// provider error that says so.
pub proof fn lemma_timed_out_call_says_so(r: Result<Value, ErrorView>)
    requires
        is_call_result(CallOutcome::TimedOut, r),
    ensures
        r == Err::<Value, ErrorView>(ErrorView::McpError("Request timed out"@)),
{
}

/// An invocation succeeds only on an answer that is not flagged as an error,
/// and then yields that answer's content as JSON.
pub proof fn lemma_success_is_unflagged_answer(outcome: CallOutcome, r: Result<Value, ErrorView>)
    requires
        is_call_result(outcome, r),
        r is Ok,
    ensures
        outcome matches CallOutcome::Returned(answer) && answer.is_error != Some(true)
            && content_json(answer.content@) == Ok::<Value, serde_json::Error>(r->Ok_0),
{
}

/// An answer that is flagged as an error yields a tool execution error that
/// carries the text of what the tool returned.
pub proof fn lemma_flagged_answer_is_tool_failure(
    answer: ToolCallResult,
    r: Result<Value, ErrorView>,
)
    requires
        is_call_result(CallOutcome::Returned(answer), r),
        answer.is_error == Some(true),
    ensures
        r == Err::<Value, ErrorView>(
            ErrorView::ToolExecutionError("MCP tool error: "@ + content_debug(answer.content@)),
        ),
{
}

/// The error for a tool that ran and reported a failure; `report` is the
/// text of what it returned.
pub fn tool_failure(report: String) -> (e: McpRigIntegrationError)
    ensures
        e@ == tool_failure_view(report@),
{
    McpRigIntegrationError::ToolExecutionError(
        String::from_str("MCP tool error: ").concat(report.as_str()),
    )
}

/// The error for an invocation whose task did not run to its end; `reason`
/// is the text of why.
pub fn join_failure(reason: String) -> (e: McpRigIntegrationError)
    ensures
        e@ == join_failure_view(reason@),
{
    McpRigIntegrationError::McpError(String::from_str("Task join error: ").concat(reason.as_str()))
}

/// The result of a successful invocation, given what converting the tool's
/// content to JSON gave.
pub fn tool_output(converted: Result<Value, serde_json::Error>) -> (r: Result<
    Value,
    McpRigIntegrationError,
>)
    ensures
        result_view(r) == output_view(converted),
{
    match converted {
        Ok(v) => Ok(v),
        Err(e) => Err(McpRigIntegrationError::from(e)),
    }
}

impl<C> McpToolAdapter<C> {
    /// An adapter for the tool described by the three last arguments, run by
    /// the provider behind `mcp_client`.
    pub fn new(
        mcp_client: Arc<C>,
        tool_name: String,
        tool_description: String,
        parameters: Value,
    ) -> (r: Self)
        ensures
            r@ == (AdapterView {
                client: mcp_client,
                tool: ToolDescriptor {
                    name: tool_name@,
                    description: tool_description@,
                    parameters,
                },
            }),
    {
        McpToolAdapter { mcp_client, tool_name, tool_description, parameters }
    }

    /// The tool as the agent side is told of it: the stored descriptor,
    /// whatever the prompt.
    pub fn definition(&self, _prompt: String) -> (r: ToolDefinition)
        ensures
            r@ == self@.tool,
    {
        ToolDefinition {
            name: self.tool_name.clone(),
            description: self.tool_description.clone(),
            parameters: self.parameters.clone(),
        }
    }

    /// The tool's name.
    pub fn name(&self) -> (r: String)
        ensures
            r@ == self@.tool.name,
    {
        self.tool_name.clone()
    }

    /// Whether the tool's name is `name`, character for character.
    pub fn is_named(&self, name: &String) -> (r: bool)
        ensures
            r == (self@.tool.name == name@),
    {
        self.tool_name == *name
    }

    /// What an invocation with `args` forwards: the adapter's provider and
    /// tool name, and the arguments as they came.
    pub fn prepare_call(&self, args: McpToolArgs) -> (r: ToolCallRequest<C>)
        ensures
            r.mcp_client == self@.client,
            r.tool_name@ == self@.tool.name,
            r.arguments == args.args,
    {
        ToolCallRequest {
            mcp_client: share(&self.mcp_client),
            tool_name: self.tool_name.clone(),
            arguments: args.args,
        }
    }

    /// What an invocation yields, by how the forwarded request ended. A
    /// failure to reach the provider is a provider error, as is an
    /// invocation that took too long; a failure that the tool reports is a
    /// tool execution error that carries what the tool returned, and any
    /// other answer is passed on as JSON.
    pub fn complete_call(&self, outcome: CallOutcome) -> (r: Result<
        Value,
        McpRigIntegrationError,
    >)
        ensures
            is_call_result(outcome, result_view(r)),
    {
        match outcome {
            CallOutcome::JoinFailed(e) => Err(join_failure(join_error_text(&e))),
            CallOutcome::CallFailed(e) => Err(McpRigIntegrationError::from(e)),
            CallOutcome::TimedOut => Err(McpRigIntegrationError::timeout_failure()),
            CallOutcome::Returned(answer) => {
                let flagged = match answer.is_error {
                    Some(flag) => flag,
                    None => false,
                };
                if flagged {
                    Err(tool_failure(content_debug_text(&answer.content)))
                } else {
                    tool_output(content_to_json(answer.content))
                }
            },
        }
    }

    /// Rebuilding an adapter from a stored descriptor and a provider marker
    /// is not supported: a marker does not lead back to a live handle.
    pub fn init(_state: McpToolState, _context: ClientId) -> (r: Result<
        Self,
        McpRigIntegrationError,
    >)
        ensures
            r matches Err(e) && e@ == ErrorView::InitError(
                "ClientId-based initialization not implemented"@,
            ),
    {
        Err(
            McpRigIntegrationError::InitError(
                String::from_str("ClientId-based initialization not implemented"),
            ),
        )
    }

    /// The texts under which the tool is indexed for retrieval: its
    /// description, its name, and its description again as a capability.
    pub fn embedding_docs(&self) -> (r: Vec<String>)
        ensures
            r@.len() == 3,
            r@[0]@ == self@.tool.description,
            r@[1]@ == "Tool name: "@ + self@.tool.name,
            r@[2]@ == "Tool capability: "@ + self@.tool.description,
    {
        let mut docs: Vec<String> = Vec::new();
        docs.push(self.tool_description.clone());
        docs.push(String::from_str("Tool name: ").concat(self.tool_name.as_str()));
        docs.push(String::from_str("Tool capability: ").concat(self.tool_description.as_str()));
        docs
    }

    /// The marker stored with the tool in place of its provider's handle.
    pub fn context(&self) -> (r: ClientId)
        ensures
            r.0@ == "client-id"@,
    {
        ClientId(String::from_str("client-id"))
    }
}

} // verus!
