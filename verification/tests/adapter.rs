use mcp_rig::adapter::{join_failure, tool_failure, tool_output};
use mcp_rig::{
    CallOutcome, ClientId, McpRigIntegrationError, McpToolAdapter, McpToolArgs, McpToolState,
    ToolCallResult,
};
use mcp_spec::content::Content;
use serde_json::Value;
use std::sync::Arc;

fn parse(text: &str) -> Value {
    serde_json::from_str(text).unwrap()
}

fn schema() -> Value {
    parse(r#"{"type":"object","properties":{"path":{"type":"string"}},"required":["path"]}"#)
}

fn adapter(handle: &Arc<String>) -> McpToolAdapter<String> {
    McpToolAdapter::new(
        Arc::clone(handle),
        "read_file".to_string(),
        "Reads a file".to_string(),
        schema(),
    )
}

fn call_adapter() -> McpToolAdapter<String> {
    adapter(&Arc::new("provider".to_string()))
}

fn cancelled_task() -> tokio::task::JoinError {
    let runtime = tokio::runtime::Builder::new_current_thread().build().unwrap();
    runtime.block_on(async {
        let task = tokio::spawn(std::future::pending::<()>());
        task.abort();
        task.await.unwrap_err()
    })
}

#[test]
fn definition_returns_the_descriptor_as_stored() {
    let handle = Arc::new("provider".to_string());
    let definition = adapter(&handle).definition("any prompt".to_string());
    assert_eq!(definition.name, "read_file");
    assert_eq!(definition.description, "Reads a file");
    assert_eq!(definition.parameters, schema());
}

#[test]
fn definition_does_not_depend_on_the_prompt() {
    let handle = Arc::new("provider".to_string());
    let tool = adapter(&handle);
    let first = tool.definition(String::new());
    let second = tool.definition("list the files in /tmp".to_string());
    assert_eq!(first.name, second.name);
    assert_eq!(first.description, second.description);
    assert_eq!(first.parameters, second.parameters);
}

#[test]
fn name_is_the_tool_name() {
    let handle = Arc::new("provider".to_string());
    assert_eq!(adapter(&handle).name(), "read_file");
}

#[test]
fn prepare_call_forwards_name_and_arguments_verbatim() {
    let handle = Arc::new("provider".to_string());
    let arguments = parse(r#"{"path":"/tmp/a.txt","lines":[1,2,3],"deep":{"k":null}}"#);
    let request = adapter(&handle).prepare_call(McpToolArgs { args: arguments.clone() });
    assert!(Arc::ptr_eq(&request.mcp_client, &handle));
    assert_eq!(request.tool_name, "read_file");
    assert_eq!(request.arguments, arguments);
}

#[test]
fn prepare_call_does_not_check_arguments_against_the_schema() {
    let handle = Arc::new("provider".to_string());
    let request = adapter(&handle).prepare_call(McpToolArgs { args: Value::Bool(true) });
    assert_eq!(request.arguments, Value::Bool(true));
}

#[test]
fn cloned_adapter_shares_the_provider() {
    let handle = Arc::new("provider".to_string());
    let first = adapter(&handle);
    let copy = first.clone();
    assert_eq!(copy.name(), first.name());
    assert_eq!(copy.definition(String::new()).parameters, schema());
    let request = copy.prepare_call(McpToolArgs { args: Value::Null });
    assert!(Arc::ptr_eq(&request.mcp_client, &handle));
}

#[test]
fn unflagged_answer_is_a_success_with_its_content() {
    let answer = ToolCallResult { content: vec![Content::text("ok")], is_error: Some(false) };
    let value = call_adapter().complete_call(CallOutcome::Returned(answer)).unwrap();
    assert_eq!(value, parse(r#"[{"type":"text","text":"ok"}]"#));
}

#[test]
fn answer_without_a_flag_is_a_success() {
    let answer = ToolCallResult { content: vec![Content::text("ok")], is_error: None };
    let value = call_adapter().complete_call(CallOutcome::Returned(answer)).unwrap();
    assert_eq!(value[0]["text"], Value::String("ok".to_string()));
}

#[test]
fn answer_without_content_is_an_empty_list() {
    let answer = ToolCallResult { content: Vec::new(), is_error: None };
    assert_eq!(
        call_adapter().complete_call(CallOutcome::Returned(answer)),
        Ok(Value::Array(Vec::new()))
    );
}

#[test]
fn answer_content_keeps_its_order() {
    let answer = ToolCallResult {
        content: vec![Content::text("first"), Content::image("aGk=", "image/png")],
        is_error: Some(false),
    };
    let value = call_adapter().complete_call(CallOutcome::Returned(answer)).unwrap();
    assert_eq!(
        value,
        parse(
            r#"[{"type":"text","text":"first"},{"type":"image","data":"aGk=","mimeType":"image/png"}]"#
        )
    );
}

#[test]
fn flagged_answer_is_a_tool_execution_error_with_the_content() {
    let answer = ToolCallResult { content: vec![Content::text("bad input")], is_error: Some(true) };
    let result = call_adapter().complete_call(CallOutcome::Returned(answer));
    assert_eq!(
        result,
        Err(McpRigIntegrationError::ToolExecutionError(
            "MCP tool error: [Text(TextContent { text: \"bad input\", annotations: None })]"
                .to_string()
        ))
    );
    match result {
        Err(McpRigIntegrationError::ToolExecutionError(text)) => {
            assert!(text.contains("bad input"))
        }
        other => panic!("unexpected result: {:?}", other),
    }
}

#[test]
fn flagged_answer_without_content_is_still_an_error() {
    let answer = ToolCallResult { content: Vec::new(), is_error: Some(true) };
    assert_eq!(
        call_adapter().complete_call(CallOutcome::Returned(answer)),
        Err(McpRigIntegrationError::ToolExecutionError("MCP tool error: []".to_string()))
    );
}

#[test]
fn failed_call_is_a_provider_error() {
    let outcome = CallOutcome::CallFailed(mcp_client::Error::NotReady);
    assert_eq!(
        call_adapter().complete_call(outcome),
        Err(McpRigIntegrationError::McpError("Timeout or service not ready".to_string()))
    );
}

#[test]
fn failed_transport_under_a_call_is_a_provider_error() {
    let outcome = CallOutcome::CallFailed(mcp_client::Error::Transport(
        mcp_client::transport::Error::ChannelClosed,
    ));
    assert_eq!(
        call_adapter().complete_call(outcome),
        Err(McpRigIntegrationError::McpError("Transport error: Channel closed".to_string()))
    );
}

#[test]
fn timed_out_call_is_a_provider_error_that_says_so() {
    let outcome =
        CallOutcome::CallFailed(mcp_client::Error::Timeout(tower::timeout::error::Elapsed::new()));
    assert_eq!(
        call_adapter().complete_call(outcome),
        Err(McpRigIntegrationError::McpError("Request timed out".to_string()))
    );
}

#[test]
fn unfinished_task_is_a_provider_error() {
    let failure = cancelled_task();
    let reason = failure.to_string();
    assert!(reason.ends_with("was cancelled"));
    assert_eq!(
        call_adapter().complete_call(CallOutcome::JoinFailed(failure)),
        Err(McpRigIntegrationError::McpError(format!("Task join error: {}", reason)))
    );
}

#[test]
fn tool_failure_prefixes_the_report() {
    assert_eq!(
        tool_failure("bad input".to_string()),
        McpRigIntegrationError::ToolExecutionError("MCP tool error: bad input".to_string())
    );
    assert_eq!(
        tool_failure(String::new()),
        McpRigIntegrationError::ToolExecutionError("MCP tool error: ".to_string())
    );
}

#[test]
fn join_failure_prefixes_the_reason() {
    assert_eq!(
        join_failure("task 7 was cancelled".to_string()),
        McpRigIntegrationError::McpError("Task join error: task 7 was cancelled".to_string())
    );
}

#[test]
fn tool_output_passes_a_value_through() {
    let value = parse(r#"{"rows":[1,2],"done":true}"#);
    assert_eq!(tool_output(Ok(value.clone())), Ok(value));
}

#[test]
fn tool_output_reports_a_conversion_failure() {
    let failure = serde_json::from_str::<Value>("{").unwrap_err();
    let expected = failure.to_string();
    match tool_output(Err(failure)) {
        Err(McpRigIntegrationError::SerializationError(e)) => assert_eq!(e.to_string(), expected),
        other => panic!("unexpected result: {:?}", other),
    }
}

#[test]
fn init_always_fails() {
    let state = McpToolState {
        name: "read_file".to_string(),
        description: "Reads a file".to_string(),
        parameters: schema(),
    };
    let result = McpToolAdapter::<String>::init(state, ClientId("client-id".to_string()));
    match result {
        Err(e) => assert_eq!(
            e,
            McpRigIntegrationError::InitError(
                "ClientId-based initialization not implemented".to_string()
            )
        ),
        Ok(_) => panic!("an adapter was rebuilt without a handle"),
    }
}

#[test]
fn init_fails_for_the_marker_an_adapter_hands_out() {
    let handle = Arc::new("provider".to_string());
    let tool = adapter(&handle);
    let definition = tool.definition(String::new());
    let state = McpToolState {
        name: definition.name,
        description: definition.description,
        parameters: definition.parameters,
    };
    assert!(McpToolAdapter::<String>::init(state, tool.context()).is_err());
}

#[test]
fn embedding_docs_are_description_name_and_capability() {
    let handle = Arc::new("provider".to_string());
    assert_eq!(
        adapter(&handle).embedding_docs(),
        vec![
            "Reads a file".to_string(),
            "Tool name: read_file".to_string(),
            "Tool capability: Reads a file".to_string(),
        ]
    );
}

#[test]
fn context_is_the_fixed_marker() {
    let handle = Arc::new("provider".to_string());
    assert_eq!(adapter(&handle).context().0, "client-id");
}

#[test]
fn cloned_state_and_marker_keep_their_fields() {
    let state = McpToolState {
        name: "read_file".to_string(),
        description: "Reads a file".to_string(),
        parameters: schema(),
    };
    let copy = state.clone();
    assert_eq!(copy.name, state.name);
    assert_eq!(copy.description, state.description);
    assert_eq!(copy.parameters, state.parameters);
    assert_eq!(ClientId("git".to_string()).clone().0, "git");
}

#[test]
fn call_that_took_too_long_is_a_provider_error_that_says_so() {
    assert_eq!(
        call_adapter().complete_call(CallOutcome::TimedOut),
        Err(McpRigIntegrationError::McpError("Request timed out".to_string()))
    );
}

#[test]
fn is_named_matches_the_name_exactly() {
    let tool = call_adapter();
    assert!(tool.is_named(&"read_file".to_string()));
    assert!(!tool.is_named(&"Read_file".to_string()));
    assert!(!tool.is_named(&"read_file ".to_string()));
    assert!(!tool.is_named(&String::new()));
}
