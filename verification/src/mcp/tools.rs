//! Tools on top of the client: the GitHub calls, and the tools the
//! assistant brings itself.

use vstd::prelude::*;
use super::client::{is_call_request, ClientView, MCPClient, SessionState};
use super::correlation::RequestKind;
use super::error::ClientError;
use super::json::{json_object, object_of_strings};
use super::message::{is_generated_id, MCPMessage};
use crate::text::optional_str;
use super::protocol::{
    clone_strings, CallToolResult, CallToolResultView, Content, ContentView, Tool,
};

verus! {

/// The members of the arguments of `create_issue`: the title and, where one
/// is given, the body.
pub open spec fn spec_issue_members(title: Seq<char>, body: Option<Seq<char>>) -> Seq<
    (Seq<char>, Seq<char>),
> {
    match body {
        Some(text) => seq![("title"@, title), ("body"@, text)],
        None => seq![("title"@, title)],
    }
}

/// The members of the arguments of `create_pull_request`: title, head and
/// base and, where one is given, the body.
pub open spec fn spec_pull_request_members(
    title: Seq<char>,
    body: Option<Seq<char>>,
    head: Seq<char>,
    base: Seq<char>,
) -> Seq<(Seq<char>, Seq<char>)> {
    match body {
        Some(text) => seq![("title"@, title), ("head"@, head), ("base"@, base), ("body"@, text)],
        None => seq![("title"@, title), ("head"@, head), ("base"@, base)],
    }
}

/// The members of the arguments of `create_issue`.
pub fn issue_members(title: &str, body: Option<&str>) -> (members: Vec<(String, String)>)
    ensures
        members.deep_view() == spec_issue_members(title@, optional_str(body)),
{
    let mut members: Vec<(String, String)> = Vec::new();
    members.push((String::from_str("title"), String::from_str(title)));
    match body {
        Some(text) => {
            members.push((String::from_str("body"), String::from_str(text)));
        },
        None => {},
    }
    assert(members.deep_view() =~= spec_issue_members(title@, optional_str(body)));
    members
}

/// The members of the arguments of `create_pull_request`.
pub fn pull_request_members(title: &str, body: Option<&str>, head: &str, base: &str) -> (members:
    Vec<(String, String)>)
    ensures
        members.deep_view() == spec_pull_request_members(title@, optional_str(body), head@, base@),
{
    let mut members: Vec<(String, String)> = Vec::new();
    members.push((String::from_str("title"), String::from_str(title)));
    members.push((String::from_str("head"), String::from_str(head)));
    members.push((String::from_str("base"), String::from_str(base)));
    match body {
        Some(text) => {
            members.push((String::from_str("body"), String::from_str(text)));
        },
        None => {},
    }
    assert(members.deep_view() =~= spec_pull_request_members(
        title@,
        optional_str(body),
        head@,
        base@,
    ));
    members
}

/// The arguments of `create_issue` as a JSON object.
pub fn issue_arguments(title: &str, body: Option<&str>) -> (arguments: serde_json::Value)
    ensures
        arguments == json_object(spec_issue_members(title@, optional_str(body))),
{
    let members = issue_members(title, body);
    object_of_strings(&members)
}

/// The arguments of `create_pull_request` as a JSON object.
pub fn pull_request_arguments(title: &str, body: Option<&str>, head: &str, base: &str) -> (arguments:
    serde_json::Value)
    ensures
        arguments == json_object(
            spec_pull_request_members(title@, optional_str(body), head@, base@),
        ),
{
    let members = pull_request_members(title, body, head, base);
    object_of_strings(&members)
}

/// The first text among the content items, if there is one.
pub open spec fn first_text(content: Seq<ContentView>) -> Option<Seq<char>>
    decreases content.len(),
{
    if content.len() == 0 {
        None
    } else {
        match content[0] {
            ContentView::Text { text } => Some(text),
            _ => first_text(content.drop_first()),
        }
    }
}

/// What a creating call came to: a tool-level failure where the server
/// flagged one, else the first text the server sent, if it sent one.
pub open spec fn spec_creation_outcome(result: CallToolResultView) -> Result<
    Option<Seq<char>>,
    ClientError,
> {
    if result.reports_failure() {
        Err(ClientError::ToolFailed)
    } else {
        Ok(first_text(result.content))
    }
}

/// Reads the result of a creating call: a flagged failure is a tool-level
/// error; otherwise the first text item, if any, says what was created.
pub fn creation_outcome(result: &CallToolResult) -> (outcome: Result<Option<String>, ClientError>)
    ensures
        match spec_creation_outcome(result@) {
            Err(e) => outcome == Err::<Option<String>, ClientError>(e),
            Ok(Some(text)) => outcome matches Ok(Some(t)) && t@ == text,
            Ok(None) => outcome == Ok::<Option<String>, ClientError>(None),
        },
{
    if result.reports_failure() {
        return Err(ClientError::ToolFailed);
    }
    let ghost all = result@.content;
    let mut i: usize = 0;
    assert(all.skip(0) =~= all);
    while i < result.content.len()
        invariant
            i <= result.content.len(),
            all == result@.content,
            !result@.reports_failure(),
            first_text(all) == first_text(all.skip(i as int)),
        decreases result.content.len() - i,
    {
        let ghost rest = all.skip(i as int);
        proof {
            assert(rest.len() > 0);
            assert(rest[0] == result.content[i as int]@);
            assert(rest.drop_first() =~= all.skip(i + 1));
        }
        match &result.content[i] {
            Content::Text { text } => {
                assert(rest[0] == (ContentView::Text { text: text@ }));
                assert(first_text(rest) == Some(text@));
                return Ok(Some(text.clone()));
            },
            _ => {
                assert(first_text(rest) == first_text(rest.drop_first()));
            },
        }
        i += 1;
    }
    assert(all.skip(i as int).len() == 0);
    Ok(None)
}

/// The GitHub calls over one client.
pub struct ToolManager {
    mcp_client: MCPClient,
}

impl View for ToolManager {
    type V = ClientView;

    closed spec fn view(&self) -> ClientView {
        self.mcp_client@
    }
}

impl ToolManager {
    /// The client underneath is well-formed.
    pub closed spec fn wf(self) -> bool {
        self.mcp_client.wf()
    }

    /// A manager over `mcp_client`.
    pub fn new(mcp_client: MCPClient) -> (manager: Self)
        ensures
            manager@ == mcp_client@,
            manager.wf() == mcp_client.wf(),
    {
        ToolManager { mcp_client }
    }

    /// The client underneath.
    pub fn client(&self) -> (client: &MCPClient)
        ensures
            client@ == self@,
            client.wf() == self.wf(),
    {
        &self.mcp_client
    }

    /// The client underneath, to drive its session. What is done to the
    /// client is done to the manager's client.
    pub fn client_mut(&mut self) -> (client: &mut MCPClient)
        ensures
            client@ == old(self)@,
            client.wf() == old(self).wf(),
            final(self)@ == final(client)@,
            final(self).wf() == final(client).wf(),
    {
        &mut self.mcp_client
    }

    /// Gives the client back.
    pub fn into_client(self) -> (client: MCPClient)
        ensures
            client@ == self@,
            client.wf() == self.wf(),
    {
        self.mcp_client
    }

    /// The names of the tools that can be called, each once.
    pub fn list_available_tools(&self) -> (names: Vec<String>)
        requires
            self.wf(),
        ensures
            names.deep_view().no_duplicates(),
            names.deep_view().to_set() == self@.visible_tools().dom(),
    {
        self.mcp_client.list_tools()
    }

    /// The tool called `name`, where the session is ready and such a tool is
    /// registered.
    pub fn get_tool_info(&self, name: &str) -> (found: Option<Tool>)
        requires
            self.wf(),
        ensures
            match found {
                Some(tool) => self@.visible_tools().dom().contains(name@) && tool@
                    == self@.visible_tools()[name@] && tool@.name == name@,
                None => !self@.visible_tools().dom().contains(name@),
            },
    {
        self.mcp_client.get_tool(name)
    }

    /// Prepares the call that opens an issue, under the identifier `id`, and
    /// hands back the request to send. It fails as any tool call does.
    pub fn begin_create_github_issue_with(
        &mut self,
        id: String,
        title: &str,
        body: Option<&str>,
    ) -> (outcome: Result<MCPMessage, ClientError>)
        requires
            old(self).wf(),
        ensures
            final(self).wf(),
            match old(self)@.request_fault(RequestKind::ToolsCall, id@, "create_issue"@) {
                Some(e) => outcome == Err::<MCPMessage, ClientError>(e) && final(self)@ == old(self)@,
                None => outcome is Ok && is_call_request(
                    outcome->Ok_0,
                    id@,
                    "create_issue"@,
                    Some(json_object(spec_issue_members(title@, optional_str(body)))),
                ) && final(self)@ == old(self)@.requested(id@, RequestKind::ToolsCall),
            },
    {
        let arguments = issue_arguments(title, body);
        self.mcp_client.begin_call_tool_with(id, "create_issue", Some(arguments))
    }

    /// Prepares the call that opens a pull request, under the identifier
    /// `id`, and hands back the request to send. It fails as any tool call
    /// does.
    pub fn begin_create_github_pull_request_with(
        &mut self,
        id: String,
        title: &str,
        body: Option<&str>,
        head: &str,
        base: &str,
    ) -> (outcome: Result<MCPMessage, ClientError>)
        requires
            old(self).wf(),
        ensures
            final(self).wf(),
            match old(self)@.request_fault(RequestKind::ToolsCall, id@, "create_pull_request"@) {
                Some(e) => outcome == Err::<MCPMessage, ClientError>(e) && final(self)@ == old(self)@,
                None => outcome is Ok && is_call_request(
                    outcome->Ok_0,
                    id@,
                    "create_pull_request"@,
                    Some(
                        json_object(
                            spec_pull_request_members(title@, optional_str(body), head@, base@),
                        ),
                    ),
                ) && final(self)@ == old(self)@.requested(id@, RequestKind::ToolsCall),
            },
    {
        let arguments = pull_request_arguments(title, body, head, base);
        self.mcp_client.begin_call_tool_with(id, "create_pull_request", Some(arguments))
    }

    /// Prepares the call that opens an issue under a newly generated
    /// identifier. Where the session is ready and knows the tool, the call
    /// fails only if the identifier happens to have been used before.
    pub fn begin_create_github_issue(&mut self, title: &str, body: Option<&str>) -> (outcome: Result<
        MCPMessage,
        ClientError,
    >)
        requires
            old(self).wf(),
        ensures
            final(self).wf(),
            match outcome {
                Ok(message) => is_generated_id(message.spec_id()) && old(self)@.request_fault(
                    RequestKind::ToolsCall,
                    message.spec_id(),
                    "create_issue"@,
                ) is None && is_call_request(
                    message,
                    message.spec_id(),
                    "create_issue"@,
                    Some(json_object(spec_issue_members(title@, optional_str(body)))),
                ) && final(self)@ == old(self)@.requested(message.spec_id(), RequestKind::ToolsCall),
                Err(e) => final(self)@ == old(self)@ && e == (if old(self)@.state
                    != SessionState::Ready {
                    ClientError::NotInitialized
                } else if !old(self)@.tools.dom().contains("create_issue"@) {
                    ClientError::ToolNotFound
                } else {
                    ClientError::IdentifierReused
                }),
            },
    {
        let id = MCPMessage::new_request_id();
        self.begin_create_github_issue_with(id, title, body)
    }

    /// Prepares the call that opens a pull request under a newly generated
    /// identifier. Where the session is ready and knows the tool, the call
    /// fails only if the identifier happens to have been used before.
    pub fn begin_create_github_pull_request(
        &mut self,
        title: &str,
        body: Option<&str>,
        head: &str,
        base: &str,
    ) -> (outcome: Result<MCPMessage, ClientError>)
        requires
            old(self).wf(),
        ensures
            final(self).wf(),
            match outcome {
                Ok(message) => is_generated_id(message.spec_id()) && old(self)@.request_fault(
                    RequestKind::ToolsCall,
                    message.spec_id(),
                    "create_pull_request"@,
                ) is None && is_call_request(
                    message,
                    message.spec_id(),
                    "create_pull_request"@,
                    Some(
                        json_object(
                            spec_pull_request_members(title@, optional_str(body), head@, base@),
                        ),
                    ),
                ) && final(self)@ == old(self)@.requested(message.spec_id(), RequestKind::ToolsCall),
                Err(e) => final(self)@ == old(self)@ && e == (if old(self)@.state
                    != SessionState::Ready {
                    ClientError::NotInitialized
                } else if !old(self)@.tools.dom().contains("create_pull_request"@) {
                    ClientError::ToolNotFound
                } else {
                    ClientError::IdentifierReused
                }),
            },
    {
        let id = MCPMessage::new_request_id();
        self.begin_create_github_pull_request_with(id, title, body, head, base)
    }
}

/// The tools the assistant brings itself.
#[derive(Debug)]
#[allow(inconsistent_fields)]
pub enum BuiltInTool {
    /// Runs a git command.
    GitCommand { command: String, args: Vec<String> },
    /// Reads a file.
    ReadFile { path: String },
    /// Writes a file.
    WriteFile { path: String, content: String },
    /// Lists a directory.
    ListDirectory { path: String },
}

/// Mathematical value of a [`BuiltInTool`].
#[allow(inconsistent_fields)]
pub enum BuiltInToolView {
    GitCommand { command: Seq<char>, args: Seq<Seq<char>> },
    ReadFile { path: Seq<char> },
    WriteFile { path: Seq<char>, content: Seq<char> },
    ListDirectory { path: Seq<char> },
}

impl View for BuiltInTool {
    type V = BuiltInToolView;

    open spec fn view(&self) -> BuiltInToolView {
        match *self {
            BuiltInTool::GitCommand { command, args } => BuiltInToolView::GitCommand {
                command: command@,
                args: args.deep_view(),
            },
            BuiltInTool::ReadFile { path } => BuiltInToolView::ReadFile { path: path@ },
            BuiltInTool::WriteFile { path, content } => BuiltInToolView::WriteFile {
                path: path@,
                content: content@,
            },
            BuiltInTool::ListDirectory { path } => BuiltInToolView::ListDirectory { path: path@ },
        }
    }
}

impl Clone for BuiltInTool {
    fn clone(&self) -> (copy: Self)
        ensures
            copy@ == self@,
    {
        match self {
            BuiltInTool::GitCommand { command, args } => BuiltInTool::GitCommand {
                command: command.clone(),
                args: clone_strings(args),
            },
            BuiltInTool::ReadFile { path } => BuiltInTool::ReadFile { path: path.clone() },
            BuiltInTool::WriteFile { path, content } => BuiltInTool::WriteFile {
                path: path.clone(),
                content: content.clone(),
            },
            BuiltInTool::ListDirectory { path } => BuiltInTool::ListDirectory { path: path.clone() },
        }
    }
}

impl BuiltInToolView {
    /// The arguments that `git` is run with: the command, then its
    /// arguments. Tools that run no program have none.
    pub open spec fn git_arguments(self) -> Option<Seq<Seq<char>>> {
        match self {
            BuiltInToolView::GitCommand { command, args } => Some(seq![command] + args),
            _ => None,
        }
    }

    /// The path the tool works on, for the tools that work on one.
    pub open spec fn path(self) -> Option<Seq<char>> {
        match self {
            BuiltInToolView::GitCommand { .. } => None,
            BuiltInToolView::ReadFile { path } => Some(path),
            BuiltInToolView::WriteFile { path, .. } => Some(path),
            BuiltInToolView::ListDirectory { path } => Some(path),
        }
    }
}

impl BuiltInTool {
    /// The arguments that `git` is run with, for the tool that runs it.
    pub fn git_arguments(&self) -> (arguments: Option<Vec<String>>)
        ensures
            match self@.git_arguments() {
                Some(expected) => arguments matches Some(a) && a.deep_view() == expected,
                None => arguments is None,
            },
    {
        match self {
            BuiltInTool::GitCommand { command, args } => {
                let mut arguments: Vec<String> = Vec::new();
                arguments.push(command.clone());
                let mut i: usize = 0;
                while i < args.len()
                    invariant
                        i <= args.len(),
                        arguments.len() == i + 1,
                        arguments[0]@ == command@,
                        forall|k: int| 0 <= k < i ==> arguments[k + 1]@ == args[k]@,
                    decreases args.len() - i,
                {
                    arguments.push(args[i].clone());
                    i += 1;
                }
                assert(arguments.deep_view() =~= seq![command@] + args.deep_view());
                Some(arguments)
            },
            _ => None,
        }
    }

    /// The path the tool works on, for the tools that work on one.
    pub fn path(&self) -> (path: Option<&String>)
        ensures
            match self@.path() {
                Some(expected) => path matches Some(p) && p@ == expected,
                None => path is None,
            },
    {
        match self {
            BuiltInTool::GitCommand { .. } => None,
            BuiltInTool::ReadFile { path } => Some(path),
            BuiltInTool::WriteFile { path, .. } => Some(path),
            BuiltInTool::ListDirectory { path } => Some(path),
        }
    }
}

} // verus!
