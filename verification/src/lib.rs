//! Adapts the tools of Model Context Protocol providers to an agent
//! framework's tool interface: a registry of named provider connections, an
//! adapter per remote tool, and the passes that turn a provider's tool list
//! into adapters.

pub mod adapter;
pub mod boundary;
pub mod connection;
pub mod error;
pub mod toolset;

pub use adapter::{
    AdapterView, CallOutcome, ClientId, McpToolAdapter, McpToolArgs, McpToolState, ToolCallRequest,
    ToolCallResult, ToolDefinition, ToolDescriptor,
};
pub use connection::{ConnectionAttempt, McpConnectionManager};
pub use error::{ErrorView, McpRigIntegrationError};
pub use toolset::{
    create_filtered_mcp_toolset, create_mcp_toolset, find_tool, register_mcp_tools, ToolListing,
};
