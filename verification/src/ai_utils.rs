//! Prompts for the language model, the choice of a backend, and the
//! clean-up of the commit message that comes back.

use vstd::prelude::*;
use crate::text::{
    chars_contain, chars_start_with, has_substring, join_lines, joined_lines, lines,
    optional_str, same_text, slice_chars, split_lines, string_of, to_chars, trim_bounds, trimmed,
    without_carriage_return,
};

verus! {

/// What the commit prompt opens with: the task and the rules of the commit format.
pub const COMMIT_PROMPT_RULES: &'static str = "SYSTEM:\n\
    You are an expert-level Git assistant specialized in writing Conventional Commit messages.\n\
    Your task is to analyze the provided 'git diff' output and generate a concise, accurate, and properly formatted commit message.\n\
    \n\
    RULES:\n\
    1. You MUST follow the Conventional Commits specification strictly.\n\
    2. The output MUST be only the commit message, starting with `<type>[optional scope]: <description>`.\n\
    3. Choose the correct `<type>` from: `feat`, `fix`, `docs`, `style`, `refactor`, `perf`, `test`, `build`, `ci`, `chore`, `revert`.\n\
    4. The `<description>` must be lowercase, start with an imperative verb (e.g., \"add\", \"fix\", \"update\"), and be no more than 72 characters.\n\
    5. If the changes are significant, provide a body explaining the \"what\" and \"why\" separated by a blank line.\n\
    6. If there are breaking changes, add a `BREAKING CHANGE:` footer.\n\
    7. Consider the impact on users and other developers.\n\
    8. Be specific but concise - avoid generic messages like \"update files\".\n\
    \n\
    TYPE GUIDELINES:\n\
    - feat: new feature for the user, not a new feature for build process\n\
    - fix: bug fix for the user, not a fix to a build script\n\
    - docs: documentation changes only\n\
    - style: formatting, missing semi colons, etc; no code logic change\n\
    - refactor: refactoring production code, eg. renaming a variable\n\
    - test: adding tests, refactoring test; no production code change\n\
    - build: changes to build system or external dependencies\n\
    - ci: changes to CI configuration files and scripts\n\
    - chore: updating deps, updating build config, etc; no production code change\n\
    \n";

/// What stands between the rules and the diff in the commit prompt.
pub const COMMIT_PROMPT_TASK: &'static str = "Analyze the following diff of staged changes and generate only the commit message:\n\
    \n\
    ```diff\n";

/// What closes the commit prompt.
pub const COMMIT_PROMPT_END: &'static str = "\n\
    ```\n\
    \n\
    COMMIT_MESSAGE:";

/// What the detailed explanation prompt opens with.
pub const DETAILED_PROMPT_HEAD: &'static str = "SYSTEM:\n\
    You are an expert software engineer tasked with explaining code changes in detail.\n\
    Analyze the provided diff and provide a comprehensive explanation including:\n\
    \n\
    1. High-level summary of what changed\n\
    2. Technical details of the implementation changes\n\
    3. Reasoning behind the changes (why these changes were made)\n\
    4. Potential impact on the codebase\n\
    5. Any breaking changes or migration requirements\n\
    \n\
    Provide your response in well-structured markdown with clear sections.\n\
    \n\
    DIFF TO ANALYZE:\n\
    ```diff\n";

/// What the short explanation prompt opens with.
pub const BRIEF_PROMPT_HEAD: &'static str = "SYSTEM:\n\
    You are a software engineer helping developers understand code changes quickly.\n\
    Analyze the provided diff and provide a concise, clear explanation in 2-3 paragraphs covering:\n\
    - What changed (high level)\n\
    - Why it was changed\n\
    - Main impact or benefit\n\
    \n\
    Keep it technical but accessible.\n\
    \n\
    DIFF TO ANALYZE:\n\
    ```diff\n";

/// What closes an explanation prompt.
pub const EXPLAIN_PROMPT_END: &'static str = "\n\
    ```\n\
    \n\
    EXPLANATION:";

/// The part of the commit prompt that hands on what the user added, or
/// nothing where the user added nothing.
pub open spec fn context_section(extra_context: Option<Seq<char>>) -> Seq<char> {
    match extra_context {
        Some(context) => "\nADDITIONAL CONTEXT:\n"@ + context + "\n"@,
        None => Seq::<char>::empty(),
    }
}

/// The prompt that asks for a commit message for `diff`.
pub open spec fn commit_prompt(diff: Seq<char>, extra_context: Option<Seq<char>>) -> Seq<char> {
    COMMIT_PROMPT_RULES@ + context_section(extra_context) + COMMIT_PROMPT_TASK@ + diff
        + COMMIT_PROMPT_END@
}

/// The prompt that asks for an explanation of `diff`, detailed or short.
pub open spec fn explain_prompt(diff: Seq<char>, detailed: bool) -> Seq<char> {
    (if detailed {
        DETAILED_PROMPT_HEAD@
    } else {
        BRIEF_PROMPT_HEAD@
    }) + diff + EXPLAIN_PROMPT_END@
}

/// The prompt that asks for a commit message for `diff`. What the user
/// added is handed on under its own heading.
pub fn create_commit_prompt(diff: &str, extra_context: Option<&str>) -> (prompt: String)
    ensures
        prompt@ == commit_prompt(diff@, optional_str(extra_context)),
{
    let mut prompt = String::from_str(COMMIT_PROMPT_RULES);
    match extra_context {
        Some(context) => {
            prompt.append("\nADDITIONAL CONTEXT:\n");
            prompt.append(context);
            prompt.append("\n");
        },
        None => {},
    }
    prompt.append(COMMIT_PROMPT_TASK);
    prompt.append(diff);
    prompt.append(COMMIT_PROMPT_END);
    assert(prompt@ =~= commit_prompt(diff@, optional_str(extra_context)));
    prompt
}

/// The prompt that asks for an explanation of `diff`: in sections where
/// `detailed` is set, in two or three paragraphs where it is not.
pub fn create_explain_prompt(diff: &str, detailed: bool) -> (prompt: String)
    ensures
        prompt@ == explain_prompt(diff@, detailed),
{
    let mut prompt = if detailed {
        String::from_str(DETAILED_PROMPT_HEAD)
    } else {
        String::from_str(BRIEF_PROMPT_HEAD)
    };
    prompt.append(diff);
    prompt.append(EXPLAIN_PROMPT_END);
    prompt
}

/// A language model and how to reach it.
#[derive(Debug)]
#[allow(inconsistent_fields)]
pub enum AIBackend {
    /// A model served on this machine.
    Local { model: String, url: String },
    /// A model of OpenAI.
    OpenAI { model: String, api_key: String },
    /// A model of Anthropic.
    Anthropic { model: String, api_key: String },
}

/// Mathematical value of an [`AIBackend`].
#[allow(inconsistent_fields)]
pub enum AIBackendView {
    Local { model: Seq<char>, url: Seq<char> },
    OpenAI { model: Seq<char>, api_key: Seq<char> },
    Anthropic { model: Seq<char>, api_key: Seq<char> },
}

impl View for AIBackend {
    type V = AIBackendView;

    open spec fn view(&self) -> AIBackendView {
        match *self {
            AIBackend::Local { model, url } => AIBackendView::Local { model: model@, url: url@ },
            AIBackend::OpenAI { model, api_key } => AIBackendView::OpenAI {
                model: model@,
                api_key: api_key@,
            },
            AIBackend::Anthropic { model, api_key } => AIBackendView::Anthropic {
                model: model@,
                api_key: api_key@,
            },
        }
    }
}

impl Clone for AIBackend {
    fn clone(&self) -> (copy: Self)
        ensures
            copy@ == self@,
    {
        match self {
            AIBackend::Local { model, url } => AIBackend::Local {
                model: model.clone(),
                url: url.clone(),
            },
            AIBackend::OpenAI { model, api_key } => AIBackend::OpenAI {
                model: model.clone(),
                api_key: api_key.clone(),
            },
            AIBackend::Anthropic { model, api_key } => AIBackend::Anthropic {
                model: model.clone(),
                api_key: api_key.clone(),
            },
        }
    }
}

/// How many tokens a request used.
#[derive(Debug, Clone, Copy, PartialEq, Eq, Structural)]
pub struct TokenUsage {
    pub prompt_tokens: u32,
    pub completion_tokens: u32,
    pub total_tokens: u32,
}

impl TokenUsage {
    /// The usage of a request of which the backend reports the two parts, or
    /// leaves one out. A part left out counts as zero; the total is their
    /// sum, or the largest number where the sum does not fit.
    pub fn from_counts(prompt: Option<u32>, completion: Option<u32>) -> (usage: Self)
        ensures
            usage.prompt_tokens == prompt.unwrap_or(0),
            usage.completion_tokens == completion.unwrap_or(0),
            usage.total_tokens == if usage.prompt_tokens + usage.completion_tokens > u32::MAX {
                u32::MAX
            } else {
                (usage.prompt_tokens + usage.completion_tokens) as u32
            },
    {
        let prompt_tokens: u32 = match prompt {
            Some(n) => n,
            None => 0,
        };
        let completion_tokens: u32 = match completion {
            Some(n) => n,
            None => 0,
        };
        let total_tokens: u32 = if prompt_tokens > u32::MAX - completion_tokens {
            u32::MAX
        } else {
            prompt_tokens + completion_tokens
        };
        TokenUsage { prompt_tokens, completion_tokens, total_tokens }
    }
}

/// What a language model answered.
#[derive(Debug)]
pub struct AIResponse {
    pub content: String,
    pub model: String,
    pub usage: Option<TokenUsage>,
}

/// How many tokens an explanation may take: more for a detailed one.
pub fn explanation_token_limit(detailed: bool) -> (limit: u32)
    ensures
        limit == if detailed {
            500u32
        } else {
            200u32
        },
{
    if detailed {
        500
    } else {
        200
    }
}

/// What the environment says about the backends: each entry is the value
/// of one variable, `None` where the variable is not set.
#[derive(Debug)]
pub struct BackendEnvironment {
    /// `AI_CLI_LOCAL_MODEL`
    pub local_model: Option<String>,
    /// `AI_CLI_OLLAMA_URL`
    pub ollama_url: Option<String>,
    /// `OPENAI_API_KEY`
    pub openai_api_key: Option<String>,
    /// `AI_CLI_OPENAI_MODEL`
    pub openai_model: Option<String>,
    /// `ANTHROPIC_API_KEY`
    pub anthropic_api_key: Option<String>,
    /// `AI_CLI_ANTHROPIC_MODEL`
    pub anthropic_model: Option<String>,
}

impl Default for BackendEnvironment {
    /// An environment in which no variable is set.
    fn default() -> (environment: Self)
        ensures
            environment.local_model is None,
            environment.ollama_url is None,
            environment.openai_api_key is None,
            environment.openai_model is None,
            environment.anthropic_api_key is None,
            environment.anthropic_model is None,
    {
        BackendEnvironment {
            local_model: None,
            ollama_url: None,
            openai_api_key: None,
            openai_model: None,
            anthropic_api_key: None,
            anthropic_model: None,
        }
    }
}

/// Why no backend could be chosen.
#[derive(Debug, Clone, Copy, PartialEq, Eq, Structural)]
pub enum BackendError {
    /// `OPENAI_API_KEY` is not set.
    OpenAIKeyMissing,
    /// `ANTHROPIC_API_KEY` is not set.
    AnthropicKeyMissing,
    /// The preference names no backend: it must be `local`, `openai` or
    /// `anthropic`.
    UnsupportedModel,
}

/// The local model that is asked where `AI_CLI_LOCAL_MODEL` is not set.
pub const DEFAULT_LOCAL_MODEL: &'static str = "gemma2:9b";

/// Where the local model server listens where `AI_CLI_OLLAMA_URL` is not set.
pub const DEFAULT_OLLAMA_URL: &'static str = "http://localhost:11434";

/// The OpenAI model that is asked where `AI_CLI_OPENAI_MODEL` is not set.
pub const DEFAULT_OPENAI_MODEL: &'static str = "gpt-4o-mini";

/// The settings that are used where the environment names none.
#[derive(Debug)]
pub struct BackendDefaults {
    pub local_model: String,
    pub ollama_url: String,
    pub openai_model: String,
    pub anthropic_model: String,
}

/// Mathematical value of [`BackendDefaults`].
pub struct BackendDefaultsView {
    pub local_model: Seq<char>,
    pub ollama_url: Seq<char>,
    pub openai_model: Seq<char>,
    pub anthropic_model: Seq<char>,
}

impl View for BackendDefaults {
    type V = BackendDefaultsView;

    open spec fn view(&self) -> BackendDefaultsView {
        BackendDefaultsView {
            local_model: self.local_model@,
            ollama_url: self.ollama_url@,
            openai_model: self.openai_model@,
            anthropic_model: self.anthropic_model@,
        }
    }
}

impl BackendDefaults {
    /// The defaults of the local and the OpenAI backend as this library
    /// names them, with `anthropic_model` as the default model of the
    /// Anthropic backend.
    pub fn new(anthropic_model: &str) -> (defaults: Self)
        ensures
            defaults@ == (BackendDefaultsView {
                local_model: DEFAULT_LOCAL_MODEL@,
                ollama_url: DEFAULT_OLLAMA_URL@,
                openai_model: DEFAULT_OPENAI_MODEL@,
                anthropic_model: anthropic_model@,
            }),
    {
        BackendDefaults {
            local_model: String::from_str(DEFAULT_LOCAL_MODEL),
            ollama_url: String::from_str(DEFAULT_OLLAMA_URL),
            openai_model: String::from_str(DEFAULT_OPENAI_MODEL),
            anthropic_model: String::from_str(anthropic_model),
        }
    }
}

/// The value of a variable, or `fallback` where it is not set.
pub open spec fn value_or(value: Option<String>, fallback: Seq<char>) -> Seq<char> {
    match value {
        Some(v) => v@,
        None => fallback,
    }
}

/// The backend that the preference names, with the environment's settings
/// or else the defaults. The remote backends need their key; given the key,
/// the choice succeeds.
pub open spec fn backend_for(
    preference: Seq<char>,
    environment: BackendEnvironment,
    defaults: BackendDefaultsView,
) -> Result<
    AIBackendView,
    BackendError,
> {
    if preference == "local"@ {
        Ok(
            AIBackendView::Local {
                model: value_or(environment.local_model, defaults.local_model),
                url: value_or(environment.ollama_url, defaults.ollama_url),
            },
        )
    } else if preference == "openai"@ {
        match environment.openai_api_key {
            Some(key) => Ok(
                AIBackendView::OpenAI {
                    model: value_or(environment.openai_model, defaults.openai_model),
                    api_key: key@,
                },
            ),
            None => Err(BackendError::OpenAIKeyMissing),
        }
    } else if preference == "anthropic"@ {
        match environment.anthropic_api_key {
            Some(key) => Ok(
                AIBackendView::Anthropic {
                    model: value_or(environment.anthropic_model, defaults.anthropic_model),
                    api_key: key@,
                },
            ),
            None => Err(BackendError::AnthropicKeyMissing),
        }
    } else {
        Err(BackendError::UnsupportedModel)
    }
}

/// The value of a variable, or `fallback` where it is not set.
fn setting(value: &Option<String>, fallback: &str) -> (chosen: String)
    ensures
        chosen@ == value_or(*value, fallback@),
{
    match value {
        Some(v) => v.clone(),
        None => String::from_str(fallback),
    }
}

/// Chooses the backend that `model_preference` names: `local`, `openai` or
/// `anthropic`. What the environment leaves open is taken from `defaults`.
pub fn get_ai_backend(
    model_preference: &str,
    environment: &BackendEnvironment,
    defaults: &BackendDefaults,
) -> (outcome: Result<AIBackend, BackendError>)
    ensures
        match backend_for(model_preference@, *environment, defaults@) {
            Ok(expected) => outcome matches Ok(backend) && backend@ == expected,
            Err(e) => outcome matches Err(f) && f == e,
        },
{
    if same_text(model_preference, "local") {
        Ok(
            AIBackend::Local {
                model: setting(&environment.local_model, defaults.local_model.as_str()),
                url: setting(&environment.ollama_url, defaults.ollama_url.as_str()),
            },
        )
    } else if same_text(model_preference, "openai") {
        match &environment.openai_api_key {
            Some(key) => Ok(
                AIBackend::OpenAI {
                    model: setting(&environment.openai_model, defaults.openai_model.as_str()),
                    api_key: key.clone(),
                },
            ),
            None => Err(BackendError::OpenAIKeyMissing),
        }
    } else if same_text(model_preference, "anthropic") {
        match &environment.anthropic_api_key {
            Some(key) => Ok(
                AIBackend::Anthropic {
                    model: setting(&environment.anthropic_model, defaults.anthropic_model.as_str()),
                    api_key: key.clone(),
                },
            ),
            None => Err(BackendError::AnthropicKeyMissing),
        }
    } else {
        Err(BackendError::UnsupportedModel)
    }
}

/// `s` without the words `prefix` that it begins with and the white space
/// around what is left; `s` itself where it does not begin with them.
pub open spec fn without_prefix(s: Seq<char>, prefix: Seq<char>) -> Seq<char> {
    if prefix.is_prefix_of(s) {
        trimmed(s.skip(prefix.len() as int))
    } else {
        s
    }
}

/// The inside of a fenced block: where `s` begins with a fence and has more
/// than two lines, the lines between the first and the last; else `s`.
pub open spec fn without_fences(s: Seq<char>) -> Seq<char> {
    if "```"@.is_prefix_of(s) && lines(s).len() > 2 {
        joined_lines(lines(s).subrange(1, lines(s).len() - 1))
    } else {
        s
    }
}

/// `s` without the double quotes around it, where it stands in a pair of
/// them.
pub open spec fn without_quotes(s: Seq<char>) -> Seq<char> {
    if s.len() >= 2 && s[0] == '"' && s.last() == '"' {
        s.subrange(1, s.len() - 1)
    } else {
        s
    }
}

/// The types a commit message can begin with.
pub open spec fn commit_types() -> Seq<Seq<char>> {
    seq![
        "feat"@,
        "fix"@,
        "docs"@,
        "style"@,
        "refactor"@,
        "perf"@,
        "test"@,
        "build"@,
        "ci"@,
        "chore"@,
        "revert"@,
    ]
}

/// Whether `s` begins with the type `t`, followed by a colon or by a scope
/// in brackets.
pub open spec fn begins_with_type(s: Seq<char>, t: Seq<char>) -> bool {
    t.push(':').is_prefix_of(s) || t.push('(').is_prefix_of(s)
}

/// Whether `s` begins with one of the commit types.
pub open spec fn has_type(s: Seq<char>) -> bool {
    exists|k: int| 0 <= k < commit_types().len() && begins_with_type(s, #[trigger] commit_types()[k])
}

/// The type that the words of a message suggest.
pub open spec fn guessed_type(s: Seq<char>) -> Seq<char> {
    if has_substring(s, "add"@) || has_substring(s, "new"@) || has_substring(s, "implement"@) {
        "feat"@
    } else if has_substring(s, "fix"@) || has_substring(s, "bug"@) || has_substring(s, "error"@) {
        "fix"@
    } else if has_substring(s, "doc"@) {
        "docs"@
    } else if has_substring(s, "update"@) || has_substring(s, "change"@) {
        "refactor"@
    } else if has_substring(s, "test"@) {
        "test"@
    } else {
        "chore"@
    }
}

/// `s` with a type before it, unless it begins with one.
pub open spec fn with_type(s: Seq<char>) -> Seq<char> {
    if has_type(s) {
        s
    } else {
        guessed_type(s) + ": "@ + s
    }
}

/// Where the first line feed of `s` stands, or the length of `s` where it
/// has none.
pub open spec fn first_line_feed(s: Seq<char>) -> int
    decreases s.len(),
{
    if s.len() == 0 || s[0] == '\n' {
        0
    } else {
        1 + first_line_feed(s.drop_first())
    }
}

/// The first line of `s`, without its line ending.
pub open spec fn first_line(s: Seq<char>) -> Seq<char> {
    let n = first_line_feed(s);
    if n < s.len() {
        without_carriage_return(s.take(n))
    } else {
        s.take(n)
    }
}

/// `s` with its first line cut to 72 characters.
pub open spec fn first_line_limited(s: Seq<char>) -> Seq<char> {
    let line = first_line(s);
    if line.len() > 72 {
        line.take(72) + s.skip(line.len() as int)
    } else {
        s
    }
}

/// The commit message that is left of a model's answer: the answer without
/// the white space around it, without the announcements and fences models
/// put before a message, without quotes around it, with a commit type before
/// it, and with a first line of 72 characters at most.
pub open spec fn refined(message: Seq<char>) -> Seq<char> {
    let s0 = trimmed(message);
    let s1 = without_prefix(s0, "Commit message:"@);
    let s2 = without_prefix(s1, "Here's the commit message:"@);
    let s3 = without_prefix(s2, "The commit message is:"@);
    let s4 = without_prefix(s3, "COMMIT_MESSAGE:"@);
    let s5 = without_fences(s4);
    let s6 = without_prefix(s5, "```"@);
    let s7 = without_prefix(s6, "Conventional commit:"@);
    let s8 = without_quotes(s7);
    let s9 = with_type(s8);
    first_line_limited(s9)
}

/// `chars` without the white space around it.
pub fn trim_chars(chars: &Vec<char>) -> (t: Vec<char>)
    ensures
        t@ == trimmed(chars@),
{
    let bounds = trim_bounds(chars);
    slice_chars(chars, bounds.0, bounds.1)
}

/// `chars` without the prefix it begins with, trimmed.
pub fn strip_prefix_chars(chars: Vec<char>, prefix: &str) -> (rest: Vec<char>)
    ensures
        rest@ == without_prefix(chars@, prefix@),
{
    let start = to_chars(prefix);
    if chars_start_with(&chars, &start) {
        let tail = slice_chars(&chars, start.len(), chars.len());
        assert(tail@ =~= chars@.skip(prefix@.len() as int));
        trim_chars(&tail)
    } else {
        chars
    }
}

/// The inside of the fenced block `chars`.
pub fn strip_fences(chars: Vec<char>) -> (rest: Vec<char>)
    ensures
        rest@ == without_fences(chars@),
{
    let fence = to_chars("```");
    if !chars_start_with(&chars, &fence) {
        return chars;
    }
    let found = split_lines(&chars);
    if found.len() > 2 {
        join_lines(&found, 1, found.len() - 1)
    } else {
        chars
    }
}

/// `chars` without the double quotes around it.
pub fn strip_quotes(chars: Vec<char>) -> (rest: Vec<char>)
    ensures
        rest@ == without_quotes(chars@),
{
    if chars.len() >= 2 && chars[0] == '"' && chars[chars.len() - 1] == '"' {
        slice_chars(&chars, 1, chars.len() - 1)
    } else {
        chars
    }
}

/// The types a commit message can begin with.
pub fn commit_type_list() -> (list: [&'static str; 11])
    ensures
        list@.len() == 11,
        forall|k: int| 0 <= k < 11 ==> (#[trigger] list@[k])@ == commit_types()[k],
{
    [
        "feat",
        "fix",
        "docs",
        "style",
        "refactor",
        "perf",
        "test",
        "build",
        "ci",
        "chore",
        "revert",
    ]
}

/// Whether `chars` begins with one of the commit types.
pub fn begins_with_commit_type(chars: &Vec<char>) -> (yes: bool)
    ensures
        yes == has_type(chars@),
{
    let types = commit_type_list();
    let mut k: usize = 0;
    while k < 11
        invariant
            k <= 11,
            types@.len() == 11,
            forall|j: int| 0 <= j < 11 ==> (#[trigger] types@[j])@ == commit_types()[j],
            forall|j: int| 0 <= j < k ==> !begins_with_type(chars@, #[trigger] commit_types()[j]),
        decreases 11 - k,
    {
        let mut start = to_chars(types[k]);
        assert(start@ == commit_types()[k as int]);
        start.push(':');
        let with_colon = chars_start_with(chars, &start);
        start.pop();
        assert(start@ =~= commit_types()[k as int]);
        start.push('(');
        let with_scope = chars_start_with(chars, &start);
        if with_colon || with_scope {
            return true;
        }
        k += 1;
    }
    false
}

/// Whether the text `needle` occurs in `chars`.
fn mentions(chars: &Vec<char>, needle: &str) -> (yes: bool)
    ensures
        yes == has_substring(chars@, needle@),
{
    let n = to_chars(needle);
    chars_contain(chars, &n)
}

/// The type that the words of `chars` suggest.
pub fn guess_type(chars: &Vec<char>) -> (name: &'static str)
    ensures
        name@ == guessed_type(chars@),
{
    if mentions(chars, "add") || mentions(chars, "new") || mentions(chars, "implement") {
        "feat"
    } else if mentions(chars, "fix") || mentions(chars, "bug") || mentions(chars, "error") {
        "fix"
    } else if mentions(chars, "doc") {
        "docs"
    } else if mentions(chars, "update") || mentions(chars, "change") {
        "refactor"
    } else if mentions(chars, "test") {
        "test"
    } else {
        "chore"
    }
}

/// `chars` with a type before it, unless it begins with one.
pub fn add_type(chars: Vec<char>) -> (typed: Vec<char>)
    ensures
        typed@ == with_type(chars@),
{
    if begins_with_commit_type(&chars) {
        return chars;
    }
    let mut typed = to_chars(guess_type(&chars));
    proof {
        reveal_strlit(": ");
        assert(": "@ =~= seq![':', ' ']);
    }
    typed.push(':');
    typed.push(' ');
    let ghost head = typed@;
    assert(head =~= guessed_type(chars@) + ": "@);
    let mut i: usize = 0;
    while i < chars.len()
        invariant
            i <= chars.len(),
            typed@ == head + chars@.take(i as int),
        decreases chars.len() - i,
    {
        typed.push(chars[i]);
        assert(chars@.take(i + 1) =~= chars@.take(i as int).push(chars[i as int]));
        i += 1;
    }
    assert(chars@.take(i as int) =~= chars@);
    typed
}

/// A run without line feed, followed by a line feed or the end of the text,
/// ends at the first line feed.
pub proof fn lemma_first_line_feed_is(s: Seq<char>, n: int)
    requires
        0 <= n <= s.len(),
        forall|k: int| 0 <= k < n ==> s[k] != '\n',
        n < s.len() ==> s[n] == '\n',
    ensures
        first_line_feed(s) == n,
    decreases n,
{
    if n > 0 {
        let rest = s.drop_first();
        assert forall|k: int| 0 <= k < n - 1 implies rest[k] != '\n' by {
            assert(rest[k] == s[k + 1]);
        }
        if n - 1 < rest.len() {
            assert(rest[n - 1] == s[n]);
        }
        lemma_first_line_feed_is(rest, n - 1);
    }
}

/// `chars` with its first line cut to 72 characters.
pub fn limit_first_line(chars: Vec<char>) -> (limited: Vec<char>)
    ensures
        limited@ == first_line_limited(chars@),
{
    let mut n: usize = 0;
    while n < chars.len() && chars[n] != '\n'
        invariant
            n <= chars.len(),
            forall|k: int| 0 <= k < n ==> chars[k] != '\n',
        decreases chars.len() - n,
    {
        n += 1;
    }
    proof {
        lemma_first_line_feed_is(chars@, n as int);
    }
    let length: usize = if n < chars.len() && n > 0 && chars[n - 1] == '\r' {
        n - 1
    } else {
        n
    };
    assert(first_line(chars@) =~= chars@.take(length as int));
    if length <= 72 {
        return chars;
    }
    let mut limited = slice_chars(&chars, 0, 72);
    let ghost head = limited@;
    let mut i: usize = length;
    assert(chars@.skip(length as int).take(0) =~= Seq::<char>::empty());
    while i < chars.len()
        invariant
            length <= i <= chars.len(),
            limited@ == head + chars@.skip(length as int).take(i - length),
        decreases chars.len() - i,
    {
        limited.push(chars[i]);
        assert(chars@.skip(length as int).take(i - length + 1) =~= chars@.skip(length as int).take(
            i - length,
        ).push(chars[i as int]));
        i += 1;
    }
    assert(chars@.skip(length as int).take(i - length) =~= chars@.skip(length as int));
    assert(head =~= first_line(chars@).take(72));
    limited
}

/// Cleans up the commit message in a model's answer; see [`refined`].
pub fn refine_conventional_commit(message: &str) -> (clean: String)
    ensures
        clean@ == refined(message@),
{
    let chars = to_chars(message);
    let s0 = trim_chars(&chars);
    let s1 = strip_prefix_chars(s0, "Commit message:");
    let s2 = strip_prefix_chars(s1, "Here's the commit message:");
    let s3 = strip_prefix_chars(s2, "The commit message is:");
    let s4 = strip_prefix_chars(s3, "COMMIT_MESSAGE:");
    let s5 = strip_fences(s4);
    let s6 = strip_prefix_chars(s5, "```");
    let s7 = strip_prefix_chars(s6, "Conventional commit:");
    let s8 = strip_quotes(s7);
    let s9 = add_type(s8);
    let s10 = limit_first_line(s9);
    string_of(&s10)
}

} // verus!
