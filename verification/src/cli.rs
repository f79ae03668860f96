//! The commands of the assistant, as the command line gives them.

use vstd::prelude::*;
use crate::text::same_text;

verus! {

/// The model that is asked where the user names none.
pub const DEFAULT_MODEL: &'static str = "local";

/// The output format where the user names none.
pub const DEFAULT_FORMAT: &'static str = "text";

/// Where the local model server listens where the user names no address.
pub const DEFAULT_OLLAMA_URL: &'static str = "http://localhost:11434";

/// What the user asked for.
#[derive(Debug)]
pub struct Cli {
    pub command: Commands,
}

/// The commands.
#[derive(Debug)]
#[allow(inconsistent_fields)]
pub enum Commands {
    /// Generate a conventional commit message based on staged changes.
    Commit {
        /// Extra context or instructions for the model.
        message: Option<String>,
        /// Stage all changes before committing.
        all: bool,
        /// The model to ask.
        model: String,
        /// Commit without confirmation.
        yes: bool,
    },
    /// Explain the staged changes, or those of one commit.
    Explain {
        /// The commit to explain in place of the staged changes.
        hash: Option<String>,
        /// The model to ask.
        model: String,
        /// The output format: text, markdown or json.
        format: String,
        /// Ask for a detailed analysis.
        detailed: bool,
    },
    /// Set up the configuration.
    Init {
        /// The default model.
        model: Option<String>,
        /// The OpenAI API key.
        openai_key: Option<String>,
        /// The Anthropic API key.
        anthropic_key: Option<String>,
        /// The address of the local model server.
        ollama_url: String,
    },
    /// Show the configuration.
    Config {
        /// Show every detail.
        verbose: bool,
    },
}

/// How an explanation is printed.
#[derive(Debug, Clone, Copy, PartialEq, Eq, Structural)]
pub enum OutputFormat {
    Json,
    Markdown,
    Text,
}

/// The format that `name` stands for: `json`, `markdown`, and plain text for
/// every other name.
pub open spec fn format_of(name: Seq<char>) -> OutputFormat {
    if name == "json"@ {
        OutputFormat::Json
    } else if name == "markdown"@ {
        OutputFormat::Markdown
    } else {
        OutputFormat::Text
    }
}

/// The format that `name` stands for.
pub fn output_format(name: &str) -> (format: OutputFormat)
    ensures
        format == format_of(name@),
{
    if same_text(name, "json") {
        OutputFormat::Json
    } else if same_text(name, "markdown") {
        OutputFormat::Markdown
    } else {
        OutputFormat::Text
    }
}

/// Whether the address of the local model server was set by the user, that
/// is, differs from the default.
pub fn is_custom_ollama_url(url: &str) -> (custom: bool)
    ensures
        custom == (url@ != "http://localhost:11434"@),
{
    !same_text(url, DEFAULT_OLLAMA_URL)
}

} // verus!
