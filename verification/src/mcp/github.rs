//! The tools of the GitHub tool provider, as the client knows them before
//! discovery, and the arguments their calls take.

use vstd::prelude::*;
use super::protocol::{
    tools_view, NamedProperty, Tool, ToolInputSchema, ToolInputSchemaView, ToolProperty,
    ToolPropertyView, ToolView,
};
use super::registry::names_distinct;

verus! {

/// A property of type `string` without enumerated values.
pub open spec fn spec_text_property(name: Seq<char>, description: Seq<char>) -> (
    Seq<char>,
    ToolPropertyView,
) {
    (name, ToolPropertyView { property_type: "string"@, description, enum_values: None })
}

/// A property of type `string` without enumerated values.
pub fn text_property(name: &str, description: &str) -> (property: NamedProperty)
    ensures
        property@ == spec_text_property(name@, description@),
{
    NamedProperty {
        name: String::from_str(name),
        property: ToolProperty {
            property_type: String::from_str("string"),
            description: String::from_str(description),
            enum_values: None,
        },
    }
}

/// The tool that opens a pull request: title, head and base are required,
/// the body is optional.
pub open spec fn pull_request_tool() -> ToolView {
    ToolView {
        name: "create_pull_request"@,
        description: "Create a GitHub pull request"@,
        input_schema: ToolInputSchemaView {
            schema_type: "object"@,
            properties: seq![
                spec_text_property("title"@, "Pull request title"@),
                spec_text_property("body"@, "Pull request description"@),
                spec_text_property("head"@, "Head branch"@),
                spec_text_property("base"@, "Base branch"@),
            ],
            required: seq!["title"@, "head"@, "base"@],
        },
    }
}

/// The tool that opens an issue: the title is required, the body is
/// optional.
pub open spec fn issue_tool() -> ToolView {
    ToolView {
        name: "create_issue"@,
        description: "Create a GitHub issue"@,
        input_schema: ToolInputSchemaView {
            schema_type: "object"@,
            properties: seq![
                spec_text_property("title"@, "Issue title"@),
                spec_text_property("body"@, "Issue description"@),
            ],
            required: seq!["title"@],
        },
    }
}

/// The two tools of the GitHub tool provider: `create_pull_request`, then
/// `create_issue`. Their names differ, and within each schema no property is
/// declared twice.
pub fn create_github_tools() -> (tools: Vec<Tool>)
    ensures
        tools_view(tools@) == seq![pull_request_tool(), issue_tool()],
        names_distinct(tools@),
        forall|i: int| 0 <= i < tools.len() ==> (#[trigger] tools[i])@.input_schema.well_formed(),
{
    let mut pull_properties: Vec<NamedProperty> = Vec::new();
    pull_properties.push(text_property("title", "Pull request title"));
    pull_properties.push(text_property("body", "Pull request description"));
    pull_properties.push(text_property("head", "Head branch"));
    pull_properties.push(text_property("base", "Base branch"));
    let mut pull_required: Vec<String> = Vec::new();
    pull_required.push(String::from_str("title"));
    pull_required.push(String::from_str("head"));
    pull_required.push(String::from_str("base"));
    let pull_request = Tool {
        name: String::from_str("create_pull_request"),
        description: String::from_str("Create a GitHub pull request"),
        input_schema: ToolInputSchema {
            schema_type: String::from_str("object"),
            properties: pull_properties,
            required: pull_required,
        },
    };
    let mut issue_properties: Vec<NamedProperty> = Vec::new();
    issue_properties.push(text_property("title", "Issue title"));
    issue_properties.push(text_property("body", "Issue description"));
    let mut issue_required: Vec<String> = Vec::new();
    issue_required.push(String::from_str("title"));
    let issue = Tool {
        name: String::from_str("create_issue"),
        description: String::from_str("Create a GitHub issue"),
        input_schema: ToolInputSchema {
            schema_type: String::from_str("object"),
            properties: issue_properties,
            required: issue_required,
        },
    };
    proof {
        reveal_strlit("title");
        reveal_strlit("body");
        reveal_strlit("head");
        reveal_strlit("base");
        reveal_strlit("create_pull_request");
        reveal_strlit("create_issue");
        assert("title"@[0] != "body"@[0]);
        assert("title"@[0] != "head"@[0]);
        assert("body"@[0] != "head"@[0]);
        assert("body"@[1] != "base"@[1]);
        assert("title"@[0] != "base"@[0]);
        assert("head"@[0] != "base"@[0]);
        assert("create_pull_request"@[7] != "create_issue"@[7]);
        assert(pull_request@.input_schema.properties =~= pull_request_tool().input_schema.properties);
        assert(pull_request@.input_schema.required =~= pull_request_tool().input_schema.required);
        assert(issue@.input_schema.properties =~= issue_tool().input_schema.properties);
        assert(issue@.input_schema.required =~= issue_tool().input_schema.required);
        assert(pull_request@ == pull_request_tool());
        assert(issue@ == issue_tool());
    }
    let mut tools: Vec<Tool> = Vec::new();
    tools.push(pull_request);
    tools.push(issue);
    assert(tools_view(tools@) =~= seq![pull_request_tool(), issue_tool()]);
    tools
}

} // verus!
