use ai_cli::mcp::client::{MCPClient, Reply};
use ai_cli::mcp::error::ClientError;
use ai_cli::mcp::github::{create_github_tools, text_property};
use ai_cli::mcp::message::MCPMessage;
use ai_cli::mcp::protocol::{
    CallToolResult, Content, InitializeResult, ServerCapabilities, ServerInfo, ToolsListResult,
};
use ai_cli::mcp::tools::{
    creation_outcome, issue_arguments, issue_members, pull_request_arguments,
    pull_request_members, BuiltInTool, ToolManager,
};
use ai_cli::mcp::transport::{frame, server_command, unframe};
use ai_cli::mcp::MCPClientBuilder;

fn ready_client() -> MCPClient {
    let mut client = MCPClientBuilder::new("test-client").build();
    client.begin_initialize_with("init".to_string()).unwrap();
    client.receive(MCPMessage::InitializeResult {
        jsonrpc: "2.0".to_string(),
        id: "init".to_string(),
        result: InitializeResult {
            protocol_version: "2024-11-05".to_string(),
            capabilities: ServerCapabilities { tools: None, resources: None },
            server_info: ServerInfo { name: "mock".to_string(), version: "1".to_string() },
        },
    });
    client.begin_discovery_with("list".to_string()).unwrap();
    client.receive(MCPMessage::ToolsListResult {
        jsonrpc: "2.0".to_string(),
        id: "list".to_string(),
        result: ToolsListResult { tools: create_github_tools() },
    });
    client
}

fn object(members: &[(&str, &str)]) -> serde_json::Value {
    let mut map = serde_json::Map::new();
    for (name, value) in members {
        map.insert(name.to_string(), serde_json::Value::String(value.to_string()));
    }
    serde_json::Value::Object(map)
}

#[test]
fn github_tools_are_the_two_known_ones() {
    let tools = create_github_tools();
    assert_eq!(tools.len(), 2);
    assert_eq!(tools[0].name, "create_pull_request");
    assert_eq!(tools[0].description, "Create a GitHub pull request");
    assert_eq!(tools[0].input_schema.schema_type, "object");
    let names: Vec<&str> =
        tools[0].input_schema.properties.iter().map(|p| p.name.as_str()).collect();
    assert_eq!(names, vec!["title", "body", "head", "base"]);
    assert_eq!(
        tools[0].input_schema.required,
        vec!["title".to_string(), "head".to_string(), "base".to_string()]
    );
    assert_eq!(tools[1].name, "create_issue");
    assert_eq!(tools[1].input_schema.properties.len(), 2);
    assert_eq!(tools[1].input_schema.properties[1].property.description, "Issue description");
    assert_eq!(tools[1].input_schema.required, vec!["title".to_string()]);
    let property = text_property("title", "Issue title");
    assert_eq!(property.property.property_type, "string");
    assert!(property.property.enum_values.is_none());
    let copy = tools[1].clone();
    assert_eq!(copy.name, tools[1].name);
    assert_eq!(copy.input_schema.required, tools[1].input_schema.required);
}

#[test]
fn arguments_are_json_objects_of_strings() {
    assert_eq!(issue_arguments("bug", None), object(&[("title", "bug")]));
    assert_eq!(
        issue_arguments("bug", Some("it breaks")),
        object(&[("title", "bug"), ("body", "it breaks")])
    );
    assert_eq!(
        pull_request_arguments("t", None, "feature", "main"),
        object(&[("title", "t"), ("head", "feature"), ("base", "main")])
    );
    assert_eq!(
        pull_request_arguments("t", Some("b"), "feature", "main"),
        object(&[("title", "t"), ("head", "feature"), ("base", "main"), ("body", "b")])
    );
    assert_eq!(
        issue_members("bug", Some("x")),
        vec![("title".to_string(), "bug".to_string()), ("body".to_string(), "x".to_string())]
    );
    assert_eq!(pull_request_members("t", None, "h", "b").len(), 3);
    assert_eq!(
        serde_json::to_string(&issue_arguments("bug", None)).unwrap(),
        "{\"title\":\"bug\"}"
    );
}

#[test]
fn creation_outcome_reads_the_first_text() {
    let success = CallToolResult {
        content: vec![
            Content::Image { data: "AAAA".to_string(), mime_type: "image/png".to_string() },
            Content::Text { text: "Issue created".to_string() },
            Content::Text { text: "second".to_string() },
        ],
        is_error: Some(false),
    };
    assert_eq!(creation_outcome(&success), Ok(Some("Issue created".to_string())));
    let silent = CallToolResult { content: Vec::new(), is_error: None };
    assert_eq!(creation_outcome(&silent), Ok(None));
    let failure = CallToolResult {
        content: vec![Content::Text { text: "denied".to_string() }],
        is_error: Some(true),
    };
    assert_eq!(creation_outcome(&failure), Err(ClientError::ToolFailed));
    assert!(failure.reports_failure());
    assert!(!silent.reports_failure());
}

#[test]
fn manager_prepares_the_github_calls() {
    let mut manager = ToolManager::new(ready_client());
    let mut names = manager.list_available_tools();
    names.sort();
    assert_eq!(names, vec!["create_issue".to_string(), "create_pull_request".to_string()]);
    assert_eq!(manager.get_tool_info("create_pull_request").unwrap().name, "create_pull_request");
    assert!(manager.get_tool_info("nothing").is_none());

    let request = manager
        .begin_create_github_issue_with("one".to_string(), "bug", Some("details"))
        .unwrap();
    match request {
        MCPMessage::ToolsCall { id, params, .. } => {
            assert_eq!(id, "one");
            assert_eq!(params.name, "create_issue");
            assert_eq!(params.arguments, Some(object(&[("title", "bug"), ("body", "details")])));
        }
        _ => panic!("expected a tool call"),
    }
    let request = manager
        .begin_create_github_pull_request_with("two".to_string(), "t", None, "feature", "main")
        .unwrap();
    match request {
        MCPMessage::ToolsCall { params, .. } => {
            assert_eq!(params.name, "create_pull_request");
            assert_eq!(
                params.arguments,
                Some(object(&[("title", "t"), ("head", "feature"), ("base", "main")]))
            );
        }
        _ => panic!("expected a tool call"),
    }
    assert_eq!(
        manager.begin_create_github_issue_with("two".to_string(), "x", None).err(),
        Some(ClientError::IdentifierReused)
    );
    let generated = manager.begin_create_github_pull_request("t", Some("b"), "h", "main").unwrap();
    assert_eq!(generated.id().len(), 36);
    assert!(manager.client().is_initialized());
    assert_eq!(manager.get_tool_info("create_issue").unwrap().name, "create_issue");
    assert!(manager.client_mut().timeout("two").is_some());
    assert!(manager.client().is_initialized());
    let mut client = manager.into_client();
    assert!(matches!(
        client.receive(MCPMessage::ToolsCallResult {
            jsonrpc: "2.0".to_string(),
            id: "one".to_string(),
            result: CallToolResult { content: Vec::new(), is_error: None },
        }),
        Reply::ToolSucceeded(_)
    ));
}

#[test]
fn manager_over_a_new_client_knows_no_tool() {
    let mut manager = ToolManager::new(MCPClientBuilder::new("c").build());
    assert!(manager.list_available_tools().is_empty());
    assert!(manager.get_tool_info("create_issue").is_none());
    assert_eq!(
        manager.begin_create_github_issue("t", None).err(),
        Some(ClientError::NotInitialized)
    );
}

#[test]
fn built_in_tools_know_their_arguments() {
    let git = BuiltInTool::GitCommand {
        command: "log".to_string(),
        args: vec!["--oneline".to_string(), "-3".to_string()],
    };
    assert_eq!(
        git.git_arguments(),
        Some(vec!["log".to_string(), "--oneline".to_string(), "-3".to_string()])
    );
    assert!(git.path().is_none());
    let read = BuiltInTool::ReadFile { path: "a.txt".to_string() };
    assert_eq!(read.git_arguments(), None);
    assert_eq!(read.path(), Some(&"a.txt".to_string()));
    let write = BuiltInTool::WriteFile { path: "b.txt".to_string(), content: "x".to_string() };
    assert_eq!(write.clone().path(), Some(&"b.txt".to_string()));
    let list = BuiltInTool::ListDirectory { path: ".".to_string() };
    assert_eq!(list.path(), Some(&".".to_string()));
}

#[test]
fn messages_travel_as_single_lines() {
    assert_eq!(frame("{\"id\":\"1\"}"), Ok("{\"id\":\"1\"}\n".to_string()));
    assert_eq!(frame(""), Ok("\n".to_string()));
    assert_eq!(frame("{\"a\":\n1}"), Err(ClientError::EmbeddedNewline));
    assert_eq!(frame("trailing\n"), Err(ClientError::EmbeddedNewline));
    assert_eq!(unframe("{\"id\":\"1\"}\r\n"), "{\"id\":\"1\"}");
    assert_eq!(unframe("  \t x y \n"), "x y");
    assert_eq!(unframe("\n"), "");
    let (program, arguments) = server_command();
    assert_eq!(program, "npx");
    assert_eq!(arguments, vec!["@modelcontextprotocol/server-github".to_string()]);
}
