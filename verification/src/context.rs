//! The layered context of the assistant: what the user wrote down for all
//! projects, for one project and for one directory.

use vstd::prelude::*;
use crate::numbers::{
    decimal_text, is_digit, lemma_decimal_text, lemma_parsed_decimal_text, parse_number, parsed,
    to_decimal,
};
use crate::text::{
    chars_contain, find_chars, first_occurrence, has_substring, is_first_occurrence,
    lemma_first_occurrence_is, lines, lowercase, lowered_all, occurs_at,
    paragraphs, same_text, slice_chars, split_lines, split_paragraphs, split_words, string_of,
    texts_view, to_chars, to_lowercase, trim_bounds, trimmed, words,
};

verus! {

/// Where a piece of context comes from.
#[derive(Debug, Clone, Copy, PartialEq, Eq, Structural)]
pub enum ContextType {
    /// The user's own configuration, for all projects.
    Global,
    /// The project's root.
    Project,
    /// A directory below the project's root.
    Directory,
}

impl ContextType {
    /// The word that names the layer.
    pub open spec fn spec_label(self) -> Seq<char> {
        match self {
            ContextType::Global => "Global"@,
            ContextType::Project => "Project"@,
            ContextType::Directory => "Directory"@,
        }
    }

    /// The word that names the layer.
    pub fn label(self) -> (label: &'static str)
        ensures
            label@ == self.spec_label(),
    {
        match self {
            ContextType::Global => "Global",
            ContextType::Project => "Project",
            ContextType::Directory => "Directory",
        }
    }
}

/// Mathematical value of a [`Context`].
pub struct ContextView {
    pub path: Seq<char>,
    pub content: Seq<char>,
    pub context_type: ContextType,
}

/// The content of one context file.
#[derive(Debug)]
pub struct Context {
    pub path: String,
    pub content: String,
    pub context_type: ContextType,
}

impl View for Context {
    type V = ContextView;

    open spec fn view(&self) -> ContextView {
        ContextView {
            path: self.path@,
            content: self.content@,
            context_type: self.context_type,
        }
    }
}

/// The views of a list of contexts, in order.
pub open spec fn contexts_view(contexts: Seq<Context>) -> Seq<ContextView> {
    Seq::new(contexts.len(), |i: int| contexts[i]@)
}

/// A context file as it was read: where it lies and what it holds.
#[derive(Debug)]
pub struct ContextFile {
    pub path: String,
    pub content: String,
}

/// The context that a file of the layer `context_type` gives, if the file
/// exists.
pub open spec fn layer(file: Option<ContextFile>, context_type: ContextType) -> Seq<ContextView> {
    match file {
        Some(f) => seq![ContextView { path: f.path@, content: f.content@, context_type }],
        None => Seq::<ContextView>::empty(),
    }
}

/// The contexts that apply in `current_dir` of the project at `root`: the
/// global one, the project's, and the directory's unless the directory is the
/// root itself; each only where its file exists.
pub open spec fn layers(
    root: Seq<char>,
    current_dir: Seq<char>,
    global: Option<ContextFile>,
    project: Option<ContextFile>,
    directory: Option<ContextFile>,
) -> Seq<ContextView> {
    layer(global, ContextType::Global) + layer(project, ContextType::Project) + (if current_dir
        != root {
        layer(directory, ContextType::Directory)
    } else {
        Seq::<ContextView>::empty()
    })
}

/// The heading and body under which one context appears in the combined
/// text.
pub open spec fn section(context: ContextView) -> Seq<char> {
    "--- Context from "@ + context.path + " ("@ + context.context_type.spec_label() + ") ---\n"@
        + context.content + "\n\n"@
}

/// The sections of all contexts, one after the other.
pub open spec fn combined(contexts: Seq<ContextView>) -> Seq<char>
    decreases contexts.len(),
{
    if contexts.len() == 0 {
        Seq::<char>::empty()
    } else {
        combined(contexts.drop_last()) + section(contexts.last())
    }
}

/// `s` without the `@` signs it begins with.
pub open spec fn without_marks(s: Seq<char>) -> Seq<char>
    decreases s.len(),
{
    if s.len() > 0 && s[0] == '@' {
        without_marks(s.drop_first())
    } else {
        s
    }
}

/// The path `relative` below the directory `base`: the two joined by one
/// `/`, which is left out where `base` is empty or ends in one.
pub open spec fn joined(base: Seq<char>, relative: Seq<char>) -> Seq<char> {
    if base.len() == 0 || base.last() == '/' {
        base + relative
    } else {
        base + seq!['/'] + relative
    }
}

/// The file that a reference names: the reference without its `@` signs,
/// taken as it is where it begins with `/`, else below the project's root
/// where one is known, else below the current directory.
pub open spec fn resolved(project_root: Option<Seq<char>>, reference: Seq<char>, current_dir: Seq<char>) -> Seq<char> {
    let path = without_marks(reference);
    if path.len() > 0 && path[0] == '/' {
        path
    } else {
        match project_root {
            Some(root) => joined(root, path),
            None => joined(current_dir, path),
        }
    }
}

/// The part of `s` before its first `/`, or all of it where it has none.
pub open spec fn before_slash(s: Seq<char>) -> Seq<char> {
    match first_occurrence(s, seq!['/']) {
        Some(k) => s.take(k),
        None => s,
    }
}

/// The relevance that a chunk states of itself: the number between the
/// first `[Relevance: ` and the `/` that follows it, before the next `]`.
/// A chunk without such a mark, or whose mark holds no number, has relevance
/// zero.
pub open spec fn relevance_of(chunk: Seq<char>) -> nat {
    match first_occurrence(chunk, "[Relevance: "@) {
        None => 0,
        Some(start) => {
            let tail = chunk.skip(start);
            match first_occurrence(tail, seq![']']) {
                None => 0,
                Some(end) => match parsed(before_slash(tail.subrange(12, end))) {
                    Some(n) => n,
                    None => 0,
                },
            }
        },
    }
}

/// How many of `keywords` occur in `text`, each keyword counted as often as
/// it is listed.
pub open spec fn matches_count(text: Seq<char>, keywords: Seq<Seq<char>>) -> nat
    decreases keywords.len(),
{
    if keywords.len() == 0 {
        0
    } else {
        matches_count(text, keywords.drop_last()) + if has_substring(text, keywords.last()) {
            1nat
        } else {
            0nat
        }
    }
}

/// A paragraph under the mark that states how many of `total` keywords it
/// matched.
pub open spec fn chunk_text(count: nat, total: nat, paragraph: Seq<char>) -> Seq<char> {
    "[Relevance: "@ + decimal_text(count) + "/"@ + decimal_text(total) + "] "@ + paragraph
}

/// A chunk and the number of keywords it matched.
pub struct ScoredView {
    pub score: nat,
    pub text: Seq<char>,
}

/// The chunks that the paragraphs `pieces` give: one for each paragraph
/// that, read in lower case, holds at least one keyword; in order.
pub open spec fn scored_paragraphs(pieces: Seq<Seq<char>>, keywords: Seq<Seq<char>>) -> Seq<
    ScoredView,
>
    decreases pieces.len(),
{
    if pieces.len() == 0 {
        Seq::<ScoredView>::empty()
    } else {
        let rest = scored_paragraphs(pieces.drop_last(), keywords);
        let count = matches_count(lowercase(pieces.last()), keywords);
        if count > 0 {
            rest.push(
                ScoredView { score: count, text: chunk_text(count, keywords.len(), pieces.last()) },
            )
        } else {
            rest
        }
    }
}

/// The chunks that the contexts give, context by context.
pub open spec fn scored_contexts(contexts: Seq<ContextView>, keywords: Seq<Seq<char>>) -> Seq<
    ScoredView,
>
    decreases contexts.len(),
{
    if contexts.len() == 0 {
        Seq::<ScoredView>::empty()
    } else {
        scored_contexts(contexts.drop_last(), keywords) + scored_paragraphs(
            paragraphs(contexts.last().content),
            keywords,
        )
    }
}

/// `ranking` with `item` put behind the last chunk that scores at least as
/// much.
pub open spec fn inserted(ranking: Seq<ScoredView>, item: ScoredView) -> Seq<ScoredView>
    decreases ranking.len(),
{
    if ranking.len() == 0 {
        seq![item]
    } else if ranking.last().score >= item.score {
        ranking.push(item)
    } else {
        inserted(ranking.drop_last(), item).push(ranking.last())
    }
}

/// The chunks by falling score; chunks of equal score stay in the order in
/// which they came.
pub open spec fn ranked(items: Seq<ScoredView>) -> Seq<ScoredView>
    decreases items.len(),
{
    if items.len() == 0 {
        Seq::<ScoredView>::empty()
    } else {
        inserted(ranked(items.drop_last()), items.last())
    }
}

/// The texts of a ranking, in order.
pub open spec fn texts_of(ranking: Seq<ScoredView>) -> Seq<Seq<char>> {
    Seq::new(ranking.len(), |i: int| ranking[i].text)
}

/// What the search for `query` finds in `contexts`: the query's words in
/// lower case are the keywords, and the chunks come by falling score.
pub open spec fn relevant(contexts: Seq<ContextView>, query: Seq<char>) -> Seq<Seq<char>> {
    texts_of(ranked(scored_contexts(contexts, lowered_all(words(query)))))
}

/// Putting `item` into a ranking at the place `at`, where every chunk from
/// `at` on scores less and the chunk before `at` does not, is the insertion.
pub proof fn lemma_inserted_at(ranking: Seq<ScoredView>, item: ScoredView, at: int)
    requires
        0 <= at <= ranking.len(),
        forall|k: int| at <= k < ranking.len() ==> ranking[k].score < item.score,
        at > 0 ==> ranking[at - 1].score >= item.score,
    ensures
        inserted(ranking, item) == ranking.take(at) + seq![item] + ranking.skip(at),
    decreases ranking.len() - at,
{
    if ranking.len() == 0 {
        assert(ranking.take(at) + seq![item] + ranking.skip(at) =~= seq![item]);
    } else if at == ranking.len() {
        assert(ranking.take(at) + seq![item] + ranking.skip(at) =~= ranking.push(item));
    } else {
        let shorter = ranking.drop_last();
        lemma_inserted_at(shorter, item, at);
        assert(ranking.take(at) + seq![item] + ranking.skip(at) =~= (shorter.take(at) + seq![item]
            + shorter.skip(at)).push(ranking.last()));
    }
}

/// A chunk states the score it was ranked by: the relevance read from a
/// marked paragraph is the number of keywords the mark was made for.
pub proof fn lemma_chunk_states_its_score(count: nat, total: nat, paragraph: Seq<char>)
    requires
        count <= usize::MAX,
    ensures
        relevance_of(chunk_text(count, total, paragraph)) == count,
{
    reveal_strlit("[Relevance: ");
    reveal_strlit("/");
    reveal_strlit("] ");
    lemma_decimal_text(count);
    lemma_decimal_text(total);
    lemma_parsed_decimal_text(count);
    let mark = "[Relevance: "@;
    let c = decimal_text(count);
    let t = decimal_text(total);
    let chunk = chunk_text(count, total, paragraph);
    let closing = seq![']'];
    let slash = seq!['/'];
    let n = c.len() as int;
    let e: int = 12 + n + 1 + t.len();
    assert(chunk.len() == e + 2 + paragraph.len());
    assert forall|i: int| 0 <= i < e implies chunk[i] != ']' by {
        if i < 12 {
            assert(chunk[i] == mark[i]);
        } else if i < 12 + n {
            assert(chunk[i] == c[i - 12]);
            assert(is_digit(c[i - 12]));
        } else if i == 12 + n {
            assert(chunk[i] == '/');
        } else {
            assert(chunk[i] == t[i - 13 - n]);
            assert(is_digit(t[i - 13 - n]));
        }
    }
    assert(chunk[e] == ']');
    assert(chunk.subrange(0, 12) =~= mark);
    assert(is_first_occurrence(chunk, mark, 0));
    lemma_first_occurrence_is(chunk, mark, 0);
    let tail = chunk.skip(0);
    assert(tail =~= chunk);
    assert(is_first_occurrence(tail, closing, e)) by {
        assert(tail.subrange(e, e + 1) =~= closing);
        assert forall|i: int| 0 <= i < e implies !occurs_at(tail, closing, i) by {
            if occurs_at(tail, closing, i) {
                assert(tail.subrange(i, i + 1)[0] == closing[0]);
            }
        }
    }
    lemma_first_occurrence_is(tail, closing, e);
    let inner = tail.subrange(12, e);
    assert(inner =~= c + slash + t);
    assert(is_first_occurrence(inner, slash, n)) by {
        assert(inner.subrange(n, n + 1) =~= slash);
        assert forall|i: int| 0 <= i < n implies !occurs_at(inner, slash, i) by {
            if occurs_at(inner, slash, i) {
                assert(inner.subrange(i, i + 1)[0] == slash[0]);
                assert(inner[i] == c[i]);
                assert(is_digit(c[i]));
            }
        }
    }
    lemma_first_occurrence_is(inner, slash, n);
    assert(inner.take(n) =~= c);
    assert(before_slash(inner) == c);
}

/// A chunk and the number of keywords it matched.
#[derive(Debug)]
pub struct ScoredChunk {
    pub score: usize,
    pub text: String,
}

impl View for ScoredChunk {
    type V = ScoredView;

    open spec fn view(&self) -> ScoredView {
        ScoredView { score: self.score as nat, text: self.text@ }
    }
}

/// The views of a list of scored chunks, in order.
pub open spec fn scored_view(items: Seq<ScoredChunk>) -> Seq<ScoredView> {
    Seq::new(items.len(), |i: int| items[i]@)
}

/// A directory on the way from the current directory up to the root of the
/// file system, and whether it holds a `.git` entry.
#[derive(Debug)]
pub struct DirectoryProbe {
    pub path: String,
    pub has_git: bool,
}

/// Why the context could not be set up.
#[derive(Debug, Clone, Copy, PartialEq, Eq, Structural)]
pub enum ContextError {
    /// No directory on the way up holds a `.git` entry.
    RootNotFound,
}

/// The first place in `probes` that holds a `.git` entry, or the length of
/// `probes` where none does.
pub open spec fn first_repository(probes: Seq<DirectoryProbe>) -> int
    decreases probes.len(),
{
    if probes.len() == 0 {
        0
    } else if probes[0].has_git {
        0
    } else {
        1 + first_repository(probes.drop_first())
    }
}

/// A run of directories without a `.git` entry, followed by one that holds
/// one or by the end of the list, ends at the first repository.
pub proof fn lemma_first_repository_is(probes: Seq<DirectoryProbe>, n: int)
    requires
        0 <= n <= probes.len(),
        forall|k: int| 0 <= k < n ==> !probes[k].has_git,
        n < probes.len() ==> probes[n].has_git,
    ensures
        first_repository(probes) == n,
    decreases n,
{
    if n > 0 {
        let rest = probes.drop_first();
        assert forall|k: int| 0 <= k < n - 1 implies !rest[k].has_git by {
            assert(rest[k] == probes[k + 1]);
        }
        if n - 1 < rest.len() {
            assert(rest[n - 1] == probes[n]);
        }
        lemma_first_repository_is(rest, n - 1);
    }
}

/// Mathematical value of a [`ContextEngine`].
pub struct ContextEngineView {
    pub project_root: Option<Seq<char>>,
    pub contexts: Seq<ContextView>,
}

/// Collects the contexts that apply to the directory the user works in.
#[derive(Debug)]
pub struct ContextEngine {
    pub project_root: Option<String>,
    pub contexts: Vec<Context>,
}

impl View for ContextEngine {
    type V = ContextEngineView;

    open spec fn view(&self) -> ContextEngineView {
        ContextEngineView {
            project_root: match self.project_root {
                Some(root) => Some(root@),
                None => None,
            },
            contexts: contexts_view(self.contexts@),
        }
    }
}

impl Default for ContextEngine {
    /// An engine that knows no project and holds no context.
    fn default() -> (engine: Self)
        ensures
            engine@ == (ContextEngineView {
                project_root: None,
                contexts: Seq::<ContextView>::empty(),
            }),
    {
        ContextEngine::new()
    }
}

impl ContextEngine {
    /// An engine that knows no project and holds no context.
    pub fn new() -> (engine: Self)
        ensures
            engine@ == (ContextEngineView {
                project_root: None,
                contexts: Seq::<ContextView>::empty(),
            }),
    {
        let engine = ContextEngine { project_root: None, contexts: Vec::new() };
        assert(engine@.contexts =~= Seq::<ContextView>::empty());
        engine
    }

    /// Finds the root of the project: the nearest directory, from the
    /// starting directory upwards, that holds a `.git` entry. `probes` lists
    /// those directories, nearest first. The root is kept; where there is
    /// none, the engine stays as it was.
    pub fn find_project_root(&mut self, probes: &Vec<DirectoryProbe>) -> (outcome: Result<
        String,
        ContextError,
    >)
        ensures
            first_repository(probes@) < probes.len() ==> (outcome matches Ok(root) && root@
                == probes[first_repository(probes@)].path@ && final(self)@ == (ContextEngineView {
                project_root: Some(root@),
                ..old(self)@
            })),
            first_repository(probes@) >= probes.len() ==> outcome == Err::<String, ContextError>(
                ContextError::RootNotFound,
            ) && final(self)@ == old(self)@,
    {
        let mut i: usize = 0;
        while i < probes.len()
            invariant
                i <= probes.len(),
                *self == *old(self),
                forall|k: int| 0 <= k < i ==> !probes[k].has_git,
            decreases probes.len() - i,
        {
            if probes[i].has_git {
                proof {
                    lemma_first_repository_is(probes@, i as int);
                }
                self.project_root = Some(probes[i].path.clone());
                return Ok(probes[i].path.clone());
            }
            i += 1;
        }
        proof {
            lemma_first_repository_is(probes@, i as int);
        }
        Err(ContextError::RootNotFound)
    }

    /// Replaces the contexts by those that apply in `current_dir`. The
    /// project's root is looked up first, as [`Self::find_project_root`]
    /// does; without one, the engine is left without contexts. The files are
    /// given as they were read, `None` for one that does not exist.
    pub fn load_contexts(
        &mut self,
        current_dir: &str,
        probes: &Vec<DirectoryProbe>,
        global: Option<ContextFile>,
        project: Option<ContextFile>,
        directory: Option<ContextFile>,
    ) -> (outcome: Result<(), ContextError>)
        ensures
            first_repository(probes@) < probes.len() ==> outcome is Ok && final(self)@ == (
            ContextEngineView {
                project_root: Some(probes[first_repository(probes@)].path@),
                contexts: layers(
                    probes[first_repository(probes@)].path@,
                    current_dir@,
                    global,
                    project,
                    directory,
                ),
            }),
            first_repository(probes@) >= probes.len() ==> outcome == Err::<(), ContextError>(
                ContextError::RootNotFound,
            ) && final(self)@ == (ContextEngineView {
                contexts: Seq::<ContextView>::empty(),
                ..old(self)@
            }),
    {
        self.contexts = Vec::new();
        assert(self@.contexts =~= Seq::<ContextView>::empty());
        let root = match self.find_project_root(probes) {
            Ok(root) => root,
            Err(e) => {
                return Err(e);
            },
        };
        match global {
            Some(file) => {
                self.contexts.push(
                    Context {
                        path: file.path,
                        content: file.content,
                        context_type: ContextType::Global,
                    },
                );
            },
            None => {},
        }
        assert(self@.contexts =~= layer(global, ContextType::Global));
        match project {
            Some(file) => {
                self.contexts.push(
                    Context {
                        path: file.path,
                        content: file.content,
                        context_type: ContextType::Project,
                    },
                );
            },
            None => {},
        }
        assert(self@.contexts =~= layer(global, ContextType::Global) + layer(
            project,
            ContextType::Project,
        ));
        if !same_text(current_dir, root.as_str()) {
            match directory {
                Some(file) => {
                    self.contexts.push(
                        Context {
                            path: file.path,
                            content: file.content,
                            context_type: ContextType::Directory,
                        },
                    );
                },
                None => {},
            }
        }
        assert(self@.contexts =~= layers(root@, current_dir@, global, project, directory));
        Ok(())
    }

    /// The contexts as one text: for each, a heading that names its file and
    /// layer, then its content and an empty line.
    pub fn get_combined_context(&self) -> (text: String)
        ensures
            text@ == combined(self@.contexts),
    {
        let mut text = String::new();
        let mut i: usize = 0;
        while i < self.contexts.len()
            invariant
                i <= self.contexts.len(),
                text@ == combined(self@.contexts.take(i as int)),
            decreases self.contexts.len() - i,
        {
            let context = &self.contexts[i];
            proof {
                let next = self@.contexts.take(i + 1);
                assert(next.drop_last() =~= self@.contexts.take(i as int));
                assert(next.last() == context@);
            }
            let ghost before = text@;
            text.append("--- Context from ");
            text.append(context.path.as_str());
            text.append(" (");
            text.append(context.context_type.label());
            text.append(") ---\n");
            text.append(context.content.as_str());
            text.append("\n\n");
            assert(text@ =~= before + section(context@));
            i += 1;
        }
        assert(self@.contexts.take(i as int) =~= self@.contexts);
        text
    }

    /// The file that the reference `reference` names, seen from
    /// `current_dir`. A reference is a path with `@` before it.
    pub fn resolve_file_reference(&self, reference: &str, current_dir: &str) -> (outcome: Result<
        String,
        ContextError,
    >)
        ensures
            outcome matches Ok(path) && path@ == resolved(
                self@.project_root,
                reference@,
                current_dir@,
            ),
    {
        let chars = to_chars(reference);
        let mut from: usize = 0;
        assert(chars@.skip(0) =~= chars@);
        while from < chars.len() && chars[from] == '@'
            invariant
                from <= chars.len(),
                without_marks(chars@) == without_marks(chars@.skip(from as int)),
            decreases chars.len() - from,
        {
            proof {
                let rest = chars@.skip(from as int);
                assert(rest[0] == chars[from as int]);
                assert(rest.drop_first() =~= chars@.skip(from + 1));
            }
            from += 1;
        }
        proof {
            let rest = chars@.skip(from as int);
            if from < chars.len() {
                assert(rest[0] == chars[from as int]);
            }
            assert(without_marks(rest) == rest);
        }
        let path = reference.substring_char(from, chars.len());
        assert(path@ =~= without_marks(reference@));
        if from < chars.len() && chars[from] == '/' {
            assert(path@[0] == chars[from as int]);
            return Ok(String::from_str(path));
        }
        assert(!(path@.len() > 0 && path@[0] == '/')) by {
            if path@.len() > 0 {
                assert(path@[0] == chars[from as int]);
            }
        }
        match &self.project_root {
            Some(root) => Ok(join(root.as_str(), path)),
            None => Ok(join(current_dir, path)),
        }
    }
}

/// The path `relative` below the directory `base`.
pub fn join(base: &str, relative: &str) -> (path: String)
    ensures
        path@ == joined(base@, relative@),
{
    let chars = to_chars(base);
    let mut path = String::from_str(base);
    if chars.len() > 0 && chars[chars.len() - 1] != '/' {
        proof {
            reveal_strlit("/");
            assert("/"@ =~= seq!['/']);
        }
        path.append("/");
    }
    path.append(relative);
    path
}

impl ContextEngine {
    /// The relevance that `chunk` states of itself.
    pub fn extract_relevance(chunk: &str) -> (relevance: usize)
        ensures
            relevance == relevance_of(chunk@),
    {
        let chars = to_chars(chunk);
        let marker = to_chars("[Relevance: ");
        let start = match find_chars(&chars, &marker) {
            Some(start) => start,
            None => {
                return 0;
            },
        };
        let tail = slice_chars(&chars, start, chars.len());
        assert(tail@ =~= chars@.skip(start as int));
        let mut closing: Vec<char> = Vec::new();
        closing.push(']');
        assert(closing@ =~= seq![']']);
        let end = match find_chars(&tail, &closing) {
            Some(end) => end,
            None => {
                return 0;
            },
        };
        proof {
            reveal_strlit("[Relevance: ");
            assert(marker@.len() == 12);
            assert(occurs_at(chars@, marker@, start as int));
            assert(tail@.len() >= 12);
            assert(tail@[end as int] == closing@[0]) by {
                assert(tail@.subrange(end as int, end + 1)[0] == closing@[0]);
            }
            if end < 12 {
                assert(chars@.subrange(start as int, start + 12)[end as int] == marker@[end as int]);
                assert(tail@[end as int] == chars@[start + end]);
            }
        }
        let inner = slice_chars(&tail, 12, end);
        let mut slash: Vec<char> = Vec::new();
        slash.push('/');
        assert(slash@ =~= seq!['/']);
        let head = match find_chars(&inner, &slash) {
            Some(k) => {
                let head = slice_chars(&inner, 0, k);
                assert(head@ =~= inner@.take(k as int));
                head
            },
            None => inner,
        };
        match parse_number(&head) {
            Some(n) => n,
            None => 0,
        }
    }
}

/// The keywords of a query: its words, in lower case.
pub fn keywords_of(query: &str) -> (keywords: Vec<Vec<char>>)
    ensures
        texts_view(keywords@) == lowered_all(words(query@)),
{
    let chars = to_chars(query);
    let found = split_words(&chars);
    let mut keywords: Vec<Vec<char>> = Vec::new();
    let mut i: usize = 0;
    while i < found.len()
        invariant
            i <= found.len(),
            texts_view(found@) == words(query@),
            keywords.len() == i,
            forall|k: int| 0 <= k < i ==> keywords[k]@ == lowercase(found[k]@),
        decreases found.len() - i,
    {
        let word = string_of(&found[i]);
        let lowered = to_lowercase(word.as_str());
        keywords.push(to_chars(lowered.as_str()));
        i += 1;
    }
    assert(texts_view(keywords@) =~= lowered_all(words(query@))) by {
        assert forall|k: int| 0 <= k < keywords.len() implies texts_view(keywords@)[k]
            == lowered_all(words(query@))[k] by {
            assert(texts_view(found@)[k] == found[k]@);
        }
    }
    keywords
}

/// How many of `keywords` occur in `text`.
pub fn count_matches(text: &Vec<char>, keywords: &Vec<Vec<char>>) -> (count: usize)
    ensures
        count == matches_count(text@, texts_view(keywords@)),
{
    let ghost all = texts_view(keywords@);
    let mut count: usize = 0;
    let mut i: usize = 0;
    assert(all.take(0) =~= Seq::<Seq<char>>::empty());
    while i < keywords.len()
        invariant
            i <= keywords.len(),
            all == texts_view(keywords@),
            count <= i,
            count == matches_count(text@, all.take(i as int)),
        decreases keywords.len() - i,
    {
        proof {
            let next = all.take(i + 1);
            assert(next.drop_last() =~= all.take(i as int));
            assert(next.last() == keywords[i as int]@);
        }
        if chars_contain(text, &keywords[i]) {
            count += 1;
        }
        i += 1;
    }
    assert(all.take(i as int) =~= all);
    count
}

/// The paragraph under the mark that states its score.
pub fn chunk(count: usize, total: usize, paragraph: &str) -> (text: String)
    ensures
        text@ == chunk_text(count as nat, total as nat, paragraph@),
{
    let mut text = String::from_str("[Relevance: ");
    text.append(to_decimal(count).as_str());
    text.append("/");
    text.append(to_decimal(total).as_str());
    text.append("] ");
    text.append(paragraph);
    assert(text@ =~= chunk_text(count as nat, total as nat, paragraph@));
    text
}

/// Appends to `found` the chunks that the paragraphs of `content` give.
pub fn score_content(content: &str, keywords: &Vec<Vec<char>>, found: &mut Vec<ScoredChunk>)
    ensures
        scored_view(final(found)@) == scored_view(old(found)@) + scored_paragraphs(
            paragraphs(content@),
            texts_view(keywords@),
        ),
{
    let chars = to_chars(content);
    let pieces = split_paragraphs(&chars);
    let ghost all = texts_view(pieces@);
    let ghost before = scored_view(found@);
    let ghost keys = texts_view(keywords@);
    let mut i: usize = 0;
    assert(all.take(0) =~= Seq::<Seq<char>>::empty());
    assert(before + Seq::<ScoredView>::empty() =~= before);
    while i < pieces.len()
        invariant
            i <= pieces.len(),
            all == texts_view(pieces@),
            keys == texts_view(keywords@),
            scored_view(found@) == before + scored_paragraphs(all.take(i as int), keys),
        decreases pieces.len() - i,
    {
        let ghost done = scored_view(found@);
        proof {
            let next = all.take(i + 1);
            assert(next.drop_last() =~= all.take(i as int));
            assert(next.last() == pieces[i as int]@);
        }
        let paragraph = string_of(&pieces[i]);
        let lowered = to_lowercase(paragraph.as_str());
        let count = count_matches(&to_chars(lowered.as_str()), keywords);
        if count > 0 {
            let text = chunk(count, keywords.len(), paragraph.as_str());
            let ghost item = ScoredView { score: count as nat, text: text@ };
            found.push(ScoredChunk { score: count, text });
            assert(scored_view(found@) =~= done.push(item));
            assert(before + scored_paragraphs(all.take(i as int), keys).push(item) =~= (before
                + scored_paragraphs(all.take(i as int), keys)).push(item));
        }
        i += 1;
    }
    assert(all.take(i as int) =~= all);
}

/// The chunks by falling score; chunks of equal score stay in the order in
/// which they came.
pub fn rank(items: Vec<ScoredChunk>) -> (ranking: Vec<ScoredChunk>)
    ensures
        scored_view(ranking@) == ranked(scored_view(items@)),
{
    let ghost all = scored_view(items@);
    let mut ranking: Vec<ScoredChunk> = Vec::new();
    assert(all.take(0) =~= Seq::<ScoredView>::empty());
    assert(scored_view(ranking@) =~= Seq::<ScoredView>::empty());
    for item in it: items
        invariant
            it.seq() == items@,
            all == scored_view(items@),
            scored_view(ranking@) == ranked(all.take(it.index() as int)),
    {
        let ghost i = it.index() as int;
        let ghost so_far = scored_view(ranking@);
        proof {
            let next = all.take(i + 1);
            assert(next.drop_last() =~= all.take(i));
            assert(next.last() == item@);
        }
        let mut at: usize = ranking.len();
        while at > 0 && ranking[at - 1].score < item.score
            invariant
                at <= ranking.len(),
                so_far == scored_view(ranking@),
                forall|k: int| at <= k < ranking.len() ==> so_far[k].score < item@.score,
            decreases at,
        {
            at -= 1;
        }
        proof {
            if at > 0 {
                assert(so_far[at - 1].score >= item@.score);
            }
            lemma_inserted_at(so_far, item@, at as int);
        }
        let ghost value = item@;
        ranking.insert(at, item);
        assert(scored_view(ranking@) =~= so_far.take(at as int) + seq![value] + so_far.skip(
            at as int,
        ));
    }
    assert(all.take(all.len() as int) =~= all);
    ranking
}

impl ContextEngine {
    /// The paragraphs of the contexts that hold a word of `query`, each under
    /// a mark that states how many of the query's words it holds, by falling
    /// number. Words and paragraphs are compared in lower case.
    pub fn find_relevant_context(&self, query: &str) -> (chunks: Vec<String>)
        ensures
            chunks.deep_view() == relevant(self@.contexts, query@),
    {
        let keywords = keywords_of(query);
        let ghost keys = texts_view(keywords@);
        let ghost all = self@.contexts;
        let mut found: Vec<ScoredChunk> = Vec::new();
        let mut i: usize = 0;
        assert(all.take(0) =~= Seq::<ContextView>::empty());
        assert(scored_view(found@) =~= Seq::<ScoredView>::empty());
        while i < self.contexts.len()
            invariant
                i <= self.contexts.len(),
                all == self@.contexts,
                keys == texts_view(keywords@),
                scored_view(found@) == scored_contexts(all.take(i as int), keys),
            decreases self.contexts.len() - i,
        {
            proof {
                let next = all.take(i + 1);
                assert(next.drop_last() =~= all.take(i as int));
                assert(next.last() == self.contexts[i as int]@);
            }
            score_content(self.contexts[i].content.as_str(), &keywords, &mut found);
            i += 1;
        }
        assert(all.take(i as int) =~= all);
        let ranking = rank(found);
        let mut chunks: Vec<String> = Vec::new();
        let mut k: usize = 0;
        while k < ranking.len()
            invariant
                k <= ranking.len(),
                chunks.len() == k,
                forall|j: int| 0 <= j < k ==> chunks[j]@ == ranking[j].text@,
            decreases ranking.len() - k,
        {
            chunks.push(ranking[k].text.clone());
            k += 1;
        }
        assert(chunks.deep_view() =~= texts_of(scored_view(ranking@)));
        chunks
    }
}

/// How many lines of a history file are read, counted from its end.
pub const HISTORY_DEPTH: usize = 50;

/// The part of `s` between its first and its second `;`, or after the first
/// where there is no second. A text without `;` has no such part.
pub open spec fn second_field(s: Seq<char>) -> Option<Seq<char>> {
    match first_occurrence(s, seq![';']) {
        None => None,
        Some(i) => {
            let rest = s.skip(i + 1);
            match first_occurrence(rest, seq![';']) {
                None => Some(rest),
                Some(j) => Some(rest.take(j)),
            }
        },
    }
}

/// The command that a line of a shell's history holds. A line that begins
/// with `:` is in the extended format, in which the command is the second
/// field; any other line is the command.
pub open spec fn command_of(line: Seq<char>) -> Option<Seq<char>> {
    if line.len() > 0 && line[0] == ':' {
        second_field(line)
    } else {
        Some(line)
    }
}

/// What a line adds to the list of commands: its command, unless it has
/// none or the command is blank.
pub open spec fn history_entry(line: Seq<char>) -> Seq<Seq<char>> {
    match command_of(line) {
        Some(command) => if trimmed(command).len() > 0 {
            seq![command]
        } else {
            Seq::<Seq<char>>::empty()
        },
        None => Seq::<Seq<char>>::empty(),
    }
}

/// The commands in the last `depth` of `lines`, the latest first.
pub open spec fn recent_of(lines: Seq<Seq<char>>, depth: nat) -> Seq<Seq<char>>
    decreases lines.len(),
{
    if lines.len() == 0 || depth == 0 {
        Seq::<Seq<char>>::empty()
    } else {
        history_entry(lines.last()) + recent_of(lines.drop_last(), (depth - 1) as nat)
    }
}

/// The command that the line `line` of a shell's history holds.
pub fn command_in(line: &Vec<char>) -> (command: Option<Vec<char>>)
    ensures
        match command_of(line@) {
            Some(expected) => command matches Some(c) && c@ == expected,
            None => command is None,
        },
{
    if !(line.len() > 0 && line[0] == ':') {
        let copy = slice_chars(line, 0, line.len());
        assert(copy@ =~= line@);
        return Some(copy);
    }
    let mut semicolon: Vec<char> = Vec::new();
    semicolon.push(';');
    assert(semicolon@ =~= seq![';']);
    let first = match find_chars(line, &semicolon) {
        Some(i) => i,
        None => {
            return None;
        },
    };
    let rest = slice_chars(line, first + 1, line.len());
    assert(rest@ =~= line@.skip(first + 1));
    match find_chars(&rest, &semicolon) {
        Some(j) => {
            let field = slice_chars(&rest, 0, j);
            assert(field@ =~= rest@.take(j as int));
            Some(field)
        },
        None => Some(rest),
    }
}

/// The commands in the last fifty lines of a shell's history file, the
/// latest first. Blank commands are left out.
pub fn recent_commands(content: &str) -> (commands: Vec<String>)
    ensures
        commands.deep_view() == recent_of(lines(content@), HISTORY_DEPTH as nat),
{
    let chars = to_chars(content);
    let found = split_lines(&chars);
    let ghost all = texts_view(found@);
    let mut commands: Vec<String> = Vec::new();
    let mut left: usize = found.len();
    let mut budget: usize = HISTORY_DEPTH;
    assert(all.take(left as int) =~= all);
    assert(commands.deep_view() =~= Seq::<Seq<char>>::empty());
    while left > 0 && budget > 0
        invariant
            left <= found.len(),
            budget <= HISTORY_DEPTH,
            all == texts_view(found@),
            recent_of(all, HISTORY_DEPTH as nat) == commands.deep_view() + recent_of(
                all.take(left as int),
                budget as nat,
            ),
        decreases left,
    {
        let line = &found[left - 1];
        let ghost before = commands.deep_view();
        let ghost lines_left = all.take(left as int);
        proof {
            assert(lines_left.last() == line@);
            assert(lines_left.drop_last() =~= all.take(left - 1));
        }
        match command_in(line) {
            Some(command) => {
                let bounds = trim_bounds(&command);
                if bounds.0 < bounds.1 {
                    commands.push(string_of(&command));
                    assert(commands.deep_view() =~= before + seq![command@]);
                    assert(before + (seq![command@] + recent_of(
                        all.take(left - 1),
                        (budget - 1) as nat,
                    )) =~= (before + seq![command@]) + recent_of(
                        all.take(left - 1),
                        (budget - 1) as nat,
                    ));
                } else {
                    assert(history_entry(line@) =~= Seq::<Seq<char>>::empty());
                    assert(Seq::<Seq<char>>::empty() + recent_of(
                        all.take(left - 1),
                        (budget - 1) as nat,
                    ) =~= recent_of(all.take(left - 1), (budget - 1) as nat));
                }
            },
            None => {
                assert(Seq::<Seq<char>>::empty() + recent_of(
                    all.take(left - 1),
                    (budget - 1) as nat,
                ) =~= recent_of(all.take(left - 1), (budget - 1) as nat));
            },
        }
        left -= 1;
        budget -= 1;
    }
    assert(commands.deep_view() + Seq::<Seq<char>>::empty() =~= commands.deep_view());
    commands
}

/// What the user's own configuration file holds when it is first written.
pub const DEFAULT_GLOBAL_CONFIG: &'static str = "# AI CLI Global Configuration\n\
    \n\
    ## Developer Preferences\n\
    - I prefer conventional commits with clear descriptions\n\
    - Focus on user-facing changes in commit messages\n\
    - Include breaking changes warnings when applicable\n\
    \n\
    ## AI Model Preferences\n\
    - Default to local models for privacy\n\
    - Fall back to OpenAI GPT-4o-mini for complex reasoning\n\
    - Keep responses concise and actionable\n\
    \n\
    ## Coding Standards\n\
    - Follow Rust best practices\n\
    - Include proper error handling\n\
    - Write tests for new functionality\n";

/// What a project's configuration file opens with, before the project's
/// name.
pub const PROJECT_CONFIG_HEAD: &'static str = "# Project Configuration: ";

/// What follows the project's name in a project's configuration file.
pub const PROJECT_CONFIG_BODY: &'static str = "\n\
    \n\
    ## Project Overview\n\
    This is an AI-powered CLI tool for Git workflow automation.\n\
    \n\
    ## Architecture\n\
    - Language: Rust\n\
    - CLI Framework: clap\n\
    - AI Backends: Local (Ollama), OpenAI, Anthropic\n\
    - Git Operations: git2-rs\n\
    \n\
    ## Development Guidelines\n\
    - Follow conventional commits specification\n\
    - Maintain backward compatibility\n\
    - Prioritize user privacy and security\n\
    - Write comprehensive tests\n\
    - Document all public APIs\n\
    \n\
    ## Testing Strategy\n\
    - Unit tests for core functionality\n\
    - Integration tests for Git operations\n\
    - Mock AI responses for testing\n\
    \n\
    ## Deployment\n\
    - Single binary distribution via cargo install\n\
    - Cross-platform support (Windows, macOS, Linux)\n";

/// The name a project goes by where its directory has none.
pub const DEFAULT_PROJECT_NAME: &'static str = "ai-cli";

/// What the configuration file of a project holds when it is first written.
/// `directory_name` is the last part of the project's path, `None` where the
/// path has none or it is no text.
pub fn default_project_config(directory_name: Option<&str>) -> (config: String)
    ensures
        config@ == PROJECT_CONFIG_HEAD@ + (match directory_name {
            Some(name) => name@,
            None => DEFAULT_PROJECT_NAME@,
        }) + PROJECT_CONFIG_BODY@,
{
    let mut config = String::from_str(PROJECT_CONFIG_HEAD);
    match directory_name {
        Some(name) => {
            config.append(name);
        },
        None => {
            config.append(DEFAULT_PROJECT_NAME);
        },
    }
    config.append(PROJECT_CONFIG_BODY);
    config
}

} // verus!
