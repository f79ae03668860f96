use ai_cli::mcp::client::{check_server_url, MCPClient, Reply, SessionState};
use ai_cli::mcp::correlation::{PendingTable, RequestKind};
use ai_cli::mcp::error::{ClientError, ErrorCategory};
use ai_cli::mcp::github::create_github_tools;
use ai_cli::mcp::message::{MCPMessage, MessageKind};
use ai_cli::mcp::outcome::{
    call_outcome, discovery_outcome, handshake_outcome, settles, timeout_outcome,
};
use ai_cli::mcp::protocol::{
    CallToolResult, Content, InitializeParams, InitializeResult, ServerCapabilities, ServerInfo,
    Tool, ToolInputSchema, ToolsCapability, ToolsListResult,
};
use ai_cli::mcp::registry::ToolRegistry;
use ai_cli::mcp::MCPClientBuilder;

fn handshake_result(id: &str, version: &str) -> MCPMessage {
    MCPMessage::InitializeResult {
        jsonrpc: "2.0".to_string(),
        id: id.to_string(),
        result: InitializeResult {
            protocol_version: version.to_string(),
            capabilities: ServerCapabilities {
                tools: Some(ToolsCapability { list_changed: Some(false) }),
                resources: None,
            },
            server_info: ServerInfo { name: "mock".to_string(), version: "9.9".to_string() },
        },
    }
}

fn tools_result(id: &str, tools: Vec<Tool>) -> MCPMessage {
    MCPMessage::ToolsListResult {
        jsonrpc: "2.0".to_string(),
        id: id.to_string(),
        result: ToolsListResult { tools },
    }
}

fn call_result(id: &str, text: &str, is_error: Option<bool>) -> MCPMessage {
    MCPMessage::ToolsCallResult {
        jsonrpc: "2.0".to_string(),
        id: id.to_string(),
        result: CallToolResult {
            content: vec![Content::Text { text: text.to_string() }],
            is_error,
        },
    }
}

fn simple_tool(name: &str, description: &str) -> Tool {
    Tool {
        name: name.to_string(),
        description: description.to_string(),
        input_schema: ToolInputSchema {
            schema_type: "object".to_string(),
            properties: Vec::new(),
            required: Vec::new(),
        },
    }
}

fn sorted(mut names: Vec<String>) -> Vec<String> {
    names.sort();
    names
}

fn ready_client() -> MCPClient {
    let mut client = MCPClientBuilder::new("test-client").build();
    client.begin_initialize_with("init".to_string()).unwrap();
    client.receive(handshake_result("init", "2024-11-05"));
    client.begin_discovery_with("list".to_string()).unwrap();
    client.receive(tools_result("list", create_github_tools()));
    client
}

#[test]
fn test_mcp_client_builder() {
    let client = MCPClientBuilder::new("test-client")
        .version("1.0.0")
        .server_url("stdio://")
        .build();

    assert!(!client.is_initialized());
}

#[test]
fn builder_keeps_what_it_was_given() {
    let client = MCPClientBuilder::new("test-client")
        .version("1.0.0")
        .server_url("http://example.invalid")
        .build();
    assert_eq!(client.name(), "test-client");
    assert_eq!(client.version(), "1.0.0");
    assert_eq!(client.server_url(), "http://example.invalid");
    assert_eq!(client.state(), SessionState::Uninitialized);

    let plain = MCPClientBuilder::new("other").build();
    assert_eq!(plain.version(), "0.1.0");
    assert_eq!(plain.server_url(), "stdio://");
}

#[test]
fn server_url_decides_the_transport() {
    assert_eq!(check_server_url("stdio://"), Ok(()));
    assert_eq!(check_server_url("stdio://anything"), Ok(()));
    assert_eq!(check_server_url("http://localhost"), Err(ClientError::HttpNotImplemented));
    assert_eq!(check_server_url("https://localhost"), Err(ClientError::HttpNotImplemented));
    assert_eq!(check_server_url("ftp://localhost"), Err(ClientError::UnsupportedUrl));
    assert_eq!(check_server_url(""), Err(ClientError::UnsupportedUrl));
}

#[test]
fn initialize_refuses_other_transports_and_stays_uninitialized() {
    let mut http = MCPClient::new("c".to_string(), "1".to_string(), "https://x".to_string());
    assert_eq!(http.begin_initialize().err(), Some(ClientError::HttpNotImplemented));
    assert_eq!(http.state(), SessionState::Uninitialized);

    let mut odd = MCPClient::new("c".to_string(), "1".to_string(), "pipe://x".to_string());
    assert_eq!(odd.begin_initialize().err(), Some(ClientError::UnsupportedUrl));
    assert_eq!(odd.state(), SessionState::Uninitialized);
}

#[test]
fn handshake_request_carries_client_and_protocol() {
    let mut client = MCPClientBuilder::new("test-client").version("1.0.0").build();
    let message = client.begin_initialize_with("abc".to_string()).unwrap();
    assert_eq!(message.method(), "initialize");
    assert_eq!(message.kind(), MessageKind::Initialize);
    match message {
        MCPMessage::Initialize { jsonrpc, id, params } => {
            assert_eq!(jsonrpc, "2.0");
            assert_eq!(id, "abc");
            assert_eq!(params.protocol_version, "2024-11-05");
            assert_eq!(params.client_info.name, "test-client");
            assert_eq!(params.client_info.version, "1.0.0");
            assert_eq!(
                params.capabilities.tools,
                Some(ToolsCapability { list_changed: Some(true) })
            );
        }
        _ => panic!("expected the handshake request"),
    }
    assert_eq!(client.state(), SessionState::Initializing);
    assert_eq!(
        client.begin_initialize_with("again".to_string()).err(),
        Some(ClientError::AlreadyStarted)
    );
}

#[test]
fn discovery_lists_exactly_the_names_of_the_response() {
    let mut client = MCPClientBuilder::new("test-client").build();
    assert!(client.list_tools().is_empty());
    client.begin_initialize_with("init".to_string()).unwrap();
    assert!(client.begin_discovery_with("early".to_string()).is_err());

    let reply = client.receive(handshake_result("init", "2024-11-05"));
    assert!(matches!(reply, Reply::Handshaken { version_matches: true }));
    assert!(!client.is_initialized());
    assert_eq!(client.server().unwrap().server_info.name, "mock");

    let request = client.begin_discovery_with("list".to_string()).unwrap();
    assert_eq!(request.method(), "tools/list");
    let tools = vec![
        simple_tool("create_issue", "first"),
        simple_tool("create_pull_request", "pr"),
        simple_tool("create_issue", "second"),
    ];
    let reply = client.receive(tools_result("list", tools));
    assert!(matches!(reply, Reply::Discovered));
    assert!(client.is_initialized());
    assert_eq!(client.state(), SessionState::Ready);
    assert_eq!(
        sorted(client.list_tools()),
        vec!["create_issue".to_string(), "create_pull_request".to_string()]
    );
    assert_eq!(client.get_tool("create_issue").unwrap().description, "second");
    assert!(client.get_tool("missing").is_none());
}

#[test]
fn scenario_discovery_of_the_github_tools() {
    let client = ready_client();
    assert_eq!(
        sorted(client.list_tools()),
        vec!["create_issue".to_string(), "create_pull_request".to_string()]
    );
    let tool = client.get_tool("create_issue").unwrap();
    assert_eq!(tool.input_schema.required, vec!["title".to_string()]);
}

#[test]
fn scenario_call_tool_returns_the_text() {
    let mut client = ready_client();
    let arguments = ai_cli::mcp::tools::issue_arguments("bug", None);
    let request = client
        .begin_call_tool_with("call-1".to_string(), "create_issue", Some(arguments.clone()))
        .unwrap();
    assert_eq!(request.method(), "tools/call");
    match request {
        MCPMessage::ToolsCall { jsonrpc, id, params } => {
            assert_eq!(jsonrpc, "2.0");
            assert_eq!(id, "call-1");
            assert_eq!(params.name, "create_issue");
            assert_eq!(params.arguments, Some(arguments));
        }
        _ => panic!("expected a tool call"),
    }
    let reply = client.receive(call_result("call-1", "Issue created", Some(false)));
    match reply {
        Reply::ToolSucceeded(result) => {
            assert_eq!(result.content.len(), 1);
            match &result.content[0] {
                Content::Text { text } => assert_eq!(text, "Issue created"),
                _ => panic!("expected text"),
            }
            assert_eq!(result.is_error, Some(false));
        }
        _ => panic!("expected success"),
    }
    assert!(client.is_initialized());
}

#[test]
fn unknown_tool_is_refused_without_a_request() {
    let mut client = ready_client();
    let outcome = client.begin_call_tool("does_not_exist", None);
    assert_eq!(outcome.err(), Some(ClientError::ToolNotFound));
    assert!(client.is_initialized());
    assert!(client.close().is_empty());
}

#[test]
fn call_before_initialization_is_refused() {
    let mut client = MCPClientBuilder::new("test-client").build();
    assert_eq!(
        client.begin_call_tool("create_issue", None).err(),
        Some(ClientError::NotInitialized)
    );
    client.begin_initialize_with("init".to_string()).unwrap();
    assert_eq!(
        client.begin_call_tool("create_issue", None).err(),
        Some(ClientError::NotInitialized)
    );
    assert!(client.list_tools().is_empty());
    assert!(client.get_tool("create_issue").is_none());
}

#[test]
fn handshake_timeout_fails_the_session() {
    let mut client = MCPClientBuilder::new("test-client").build();
    client.begin_initialize_with("init".to_string()).unwrap();
    let outcome = client.timeout("init");
    assert!(outcome.is_some());
    assert_eq!(client.state(), SessionState::Failed);
    assert!(!client.is_initialized());
    let late = client.receive(handshake_result("init", "2024-11-05"));
    assert!(matches!(late, Reply::Orphaned));
    assert_eq!(client.state(), SessionState::Failed);
    assert_eq!(
        client.begin_initialize_with("retry".to_string()).err(),
        Some(ClientError::AlreadyStarted)
    );
}

#[test]
fn call_timeout_leaves_the_session_ready_and_orphans_the_answer() {
    let mut client = ready_client();
    client.begin_call_tool_with("slow".to_string(), "create_issue", None).unwrap();
    assert!(client.timeout("unknown").is_none());
    let others = client.timeout("slow").unwrap();
    assert!(others.is_empty());
    assert_eq!(client.state(), SessionState::Ready);
    let late = client.receive(call_result("slow", "late", Some(false)));
    assert!(matches!(late, Reply::Orphaned));
    assert_eq!(
        client.begin_call_tool_with("slow".to_string(), "create_issue", None).err(),
        Some(ClientError::IdentifierReused)
    );
}

#[test]
fn answers_in_reverse_order_reach_their_own_calls() {
    let mut client = ready_client();
    client.begin_call_tool_with("a".to_string(), "create_issue", None).unwrap();
    client.begin_call_tool_with("b".to_string(), "create_pull_request", None).unwrap();
    let second = client.receive(call_result("b", "for b", None));
    let first = client.receive(call_result("a", "for a", Some(false)));
    match (first, second) {
        (Reply::ToolSucceeded(a), Reply::ToolSucceeded(b)) => {
            assert!(matches!(&a.content[0], Content::Text { text } if text == "for a"));
            assert!(matches!(&b.content[0], Content::Text { text } if text == "for b"));
        }
        _ => panic!("both calls succeed"),
    }
    let again = client.receive(call_result("a", "twice", None));
    assert!(matches!(again, Reply::Orphaned));
}

#[test]
fn close_fails_every_pending_call() {
    let mut client = ready_client();
    client.begin_call_tool_with("a".to_string(), "create_issue", None).unwrap();
    client.begin_call_tool_with("b".to_string(), "create_issue", None).unwrap();
    let failed = client.close();
    let mut ids: Vec<String> = failed.iter().map(|request| request.id.clone()).collect();
    ids.sort();
    assert_eq!(ids, vec!["a".to_string(), "b".to_string()]);
    assert!(failed.iter().all(|request| request.kind == RequestKind::ToolsCall));
    assert_eq!(client.state(), SessionState::Failed);
    assert!(matches!(client.receive(call_result("a", "late", None)), Reply::Orphaned));
    assert!(client.close().is_empty());
    assert!(client.list_tools().is_empty());
}

#[test]
fn tool_failure_is_not_fatal_but_a_wrong_answer_is() {
    let mut client = ready_client();
    client.begin_call_tool_with("a".to_string(), "create_issue", None).unwrap();
    let reply = client.receive(call_result("a", "denied", Some(true)));
    assert!(matches!(reply, Reply::ToolFailed(_)));
    assert!(client.is_initialized());

    client.begin_call_tool_with("b".to_string(), "create_issue", None).unwrap();
    client.begin_call_tool_with("c".to_string(), "create_issue", None).unwrap();
    let reply = client.receive(handshake_result("b", "2024-11-05"));
    match reply {
        Reply::Rejected { failed } => {
            assert_eq!(failed.len(), 1);
            assert_eq!(failed[0].id, "c");
        }
        _ => panic!("expected a rejection"),
    }
    assert_eq!(client.state(), SessionState::Failed);
}

#[test]
fn server_error_message_fails_the_handshake() {
    let mut client = MCPClientBuilder::new("test-client").build();
    client.begin_initialize_with("init".to_string()).unwrap();
    let reply = client.receive(MCPMessage::Error {
        jsonrpc: "2.0".to_string(),
        id: "init".to_string(),
        message: "unsupported".to_string(),
    });
    assert!(matches!(reply, Reply::Rejected { .. }));
    assert_eq!(client.state(), SessionState::Failed);
}

#[test]
fn other_protocol_version_is_tolerated() {
    let mut client = MCPClientBuilder::new("test-client").build();
    client.begin_initialize_with("init".to_string()).unwrap();
    let reply = client.receive(handshake_result("init", "1999-01-01"));
    assert!(matches!(reply, Reply::Handshaken { version_matches: false }));
    assert_eq!(client.state(), SessionState::Initializing);
}

#[test]
fn errors_fail_a_started_session_only_when_fatal() {
    let mut fresh = MCPClientBuilder::new("test-client").build();
    assert!(fresh.fail(ClientError::SpawnFailed).is_empty());
    assert_eq!(fresh.state(), SessionState::Uninitialized);

    let mut client = ready_client();
    assert!(client.fail(ClientError::ToolFailed).is_empty());
    assert!(client.fail(ClientError::Timeout).is_empty());
    assert_eq!(client.state(), SessionState::Ready);
    client.begin_call_tool_with("a".to_string(), "create_issue", None).unwrap();
    let failed = client.fail(ClientError::MalformedMessage);
    assert_eq!(failed.len(), 1);
    assert_eq!(client.state(), SessionState::Failed);
}

#[test]
fn error_categories_and_messages() {
    assert_eq!(ClientError::SpawnFailed.category(), ErrorCategory::Transport);
    assert_eq!(ClientError::UnexpectedMessage.category(), ErrorCategory::Protocol);
    assert_eq!(ClientError::Timeout.category(), ErrorCategory::Correlation);
    assert_eq!(ClientError::ToolNotFound.category(), ErrorCategory::Tool);
    assert_eq!(ClientError::NotInitialized.category(), ErrorCategory::Usage);
    assert!(ClientError::ConnectionClosed.is_fatal());
    assert!(!ClientError::ToolFailed.is_fatal());
    assert!(ClientError::ToolFailed.is_retryable());
    assert!(!ClientError::MalformedMessage.is_retryable());
    assert_eq!(ClientError::NotInitialized.message(), "MCP client not initialized");
    assert_eq!(ClientError::UnexpectedMessage.message(), "Unexpected MCP response format");
}

#[test]
fn generated_identifiers_have_the_hyphenated_shape_and_differ() {
    let first = MCPMessage::new_request_id();
    let second = MCPMessage::new_request_id();
    assert_eq!(first.len(), 36);
    assert!(first.chars().all(|c| c == '-' || c.is_ascii_digit() || ('a'..='f').contains(&c)));
    assert_eq!(first.matches('-').count(), 4);
    assert_ne!(first, second);

    let mut client = ready_client();
    let request = client.begin_call_tool("create_issue", None).unwrap();
    assert_eq!(request.id().len(), 36);
}

#[test]
fn pending_table_delivers_once() {
    let mut table = PendingTable::new();
    assert!(table.is_idle());
    assert!(table.submit("x".to_string(), RequestKind::ToolsCall).is_ok());
    assert!(table.submit("x".to_string(), RequestKind::ToolsList).is_err());
    assert!(table.is_pending("x"));
    assert!(!table.is_idle());
    assert_eq!(table.resolve("y"), None);
    assert_eq!(table.resolve("x"), Some(RequestKind::ToolsCall));
    assert_eq!(table.resolve("x"), None);
    assert!(table.submit("x".to_string(), RequestKind::ToolsCall).is_err());
    assert!(table.submit("z".to_string(), RequestKind::Initialize).is_ok());
    assert!(table.expire("z"));
    assert!(!table.expire("z"));
    assert!(table.fail_all().is_empty());
    assert_eq!(RequestKind::ToolsList.answer(), MessageKind::ToolsListResult);
}

#[test]
fn registry_merges_and_replaces() {
    let mut registry = ToolRegistry::new();
    assert_eq!(registry.len(), 0);
    registry.register_all(vec![simple_tool("a", "1"), simple_tool("b", "2")]);
    registry.register_all(vec![simple_tool("b", "3"), simple_tool("c", "4")]);
    assert_eq!(sorted(registry.names()), vec!["a".to_string(), "b".to_string(), "c".to_string()]);
    assert_eq!(registry.lookup("b").unwrap().description, "3");
    assert_eq!(registry.len(), 3);
    assert!(registry.contains("a"));
    registry.register(simple_tool("a", "5"));
    assert_eq!(registry.len(), 3);
    assert_eq!(registry.lookup("a").unwrap().description, "5");
    registry.replace_all(vec![simple_tool("z", "6")]);
    assert_eq!(registry.names(), vec!["z".to_string()]);
    assert!(!registry.contains("a"));
    assert!(registry.lookup("a").is_none());
}

#[test]
fn default_handshake_payload() {
    let params = InitializeParams::default();
    assert_eq!(params.protocol_version, "2024-11-05");
    assert_eq!(params.client_info.name, "ai-cli");
    assert_eq!(params.client_info.version, "0.1.0");
    assert_eq!(params.capabilities.tools.unwrap().list_changed, Some(true));
}

#[test]
fn a_tool_found_by_name_carries_that_name() {
    let client = ready_client();
    for name in client.list_tools() {
        let tool = client.get_tool(&name).unwrap();
        assert_eq!(tool.name, name);
    }
    assert_eq!(client.get_tool("create_issue").unwrap().name, "create_issue");
    assert_eq!(client.get_tool("create_pull_request").unwrap().name, "create_pull_request");
    assert!(client.get_tool("create").is_none());
    assert!(client.is_initialized());

    let mut registry = ToolRegistry::new();
    registry.register(simple_tool("a", "1"));
    registry.register(simple_tool("b", "2"));
    assert_eq!(registry.lookup("b").unwrap().name, "b");
}

#[test]
fn replies_come_to_what_the_caller_is_told() {
    let text = |t: &str| CallToolResult {
        content: vec![Content::Text { text: t.to_string() }],
        is_error: None,
    };
    assert!(!settles(&Reply::Orphaned));
    assert!(settles(&Reply::Discovered));
    assert!(settles(&Reply::Rejected { failed: Vec::new() }));

    let given = call_outcome(Reply::ToolSucceeded(text("done"))).unwrap();
    assert!(matches!(&given.content[0], Content::Text { text } if text == "done"));
    let failed = call_outcome(Reply::ToolFailed(text("denied"))).unwrap_err();
    assert_eq!(failed.error, ClientError::ToolFailed);
    let said = failed.result.unwrap();
    assert!(matches!(&said.content[0], Content::Text { text } if text == "denied"));
    let rejected = call_outcome(Reply::Rejected { failed: Vec::new() }).unwrap_err();
    assert_eq!(rejected.error, ClientError::UnexpectedMessage);
    assert!(rejected.result.is_none());
    assert_eq!(call_outcome(Reply::Discovered).unwrap_err().error, ClientError::UnexpectedMessage);
    assert_eq!(call_outcome(Reply::Orphaned).unwrap_err().error, ClientError::UnexpectedMessage);

    assert_eq!(handshake_outcome(Reply::Handshaken { version_matches: true }), Ok(true));
    assert_eq!(handshake_outcome(Reply::Handshaken { version_matches: false }), Ok(false));
    assert_eq!(handshake_outcome(Reply::Discovered), Err(ClientError::UnexpectedMessage));
    assert_eq!(
        handshake_outcome(Reply::Rejected { failed: Vec::new() }),
        Err(ClientError::UnexpectedMessage)
    );
    assert_eq!(discovery_outcome(Reply::Discovered), Ok(()));
    assert_eq!(
        discovery_outcome(Reply::ToolSucceeded(text("x"))),
        Err(ClientError::UnexpectedMessage)
    );

    let mut client = ready_client();
    client.begin_call_tool_with("slow".to_string(), "create_issue", None).unwrap();
    assert_eq!(timeout_outcome(&client.timeout("slow")), Some(ClientError::Timeout));
    assert_eq!(timeout_outcome(&client.timeout("slow")), None);
}

#[test]
fn messages_name_what_they_concern() {
    assert_eq!(ClientError::ToolNotFound.message_about("deploy"), "Tool 'deploy' not found");
    assert_eq!(
        ClientError::UnsupportedUrl.message_about("ftp://host"),
        "Unsupported server URL format: ftp://host"
    );
    assert_eq!(
        ClientError::NotInitialized.message_about("deploy"),
        "MCP client not initialized"
    );
    assert_eq!(
        ClientError::HttpNotImplemented.message_about("http://host"),
        ClientError::HttpNotImplemented.message()
    );
}
