//! The tool registry: the tools a session knows, by name.

use vstd::prelude::*;
use super::protocol::{tools_view, Tool, ToolView};
use crate::text::{text_is, to_chars};

verus! {

/// No tool name occurs twice among `tools`.
pub open spec fn names_distinct(tools: Seq<Tool>) -> bool {
    forall|i: int, j: int| 0 <= i < j < tools.len() ==> tools[i].name@ != tools[j].name@
}

/// Whether some tool among `tools` is called `name`.
pub open spec fn has_name(tools: Seq<Tool>, name: Seq<char>) -> bool {
    exists|i: int| 0 <= i < tools.len() && #[trigger] tools[i].name@ == name
}

/// The tools as a mapping from name to tool.
pub open spec fn by_name(tools: Seq<Tool>) -> Map<Seq<char>, ToolView> {
    Map::new(
        |name: Seq<char>| has_name(tools, name),
        |name: Seq<char>|
            tools[choose|i: int| 0 <= i < tools.len() && #[trigger] tools[i].name@ == name]@,
    )
}

/// With distinct names, each tool is found under its own name.
pub proof fn lemma_by_name_entry(tools: Seq<Tool>, i: int)
    requires
        names_distinct(tools),
        0 <= i < tools.len(),
    ensures
        by_name(tools).dom().contains(tools[i].name@),
        by_name(tools)[tools[i].name@] == tools[i]@,
{
    let name = tools[i].name@;
    assert(has_name(tools, name));
    let j = choose|j: int| 0 <= j < tools.len() && #[trigger] tools[j].name@ == name;
    assert(j == i);
}

/// Whether every tool of `tools` stands under its own name.
pub open spec fn keyed_by_name(tools: Map<Seq<char>, ToolView>) -> bool {
    forall|name: Seq<char>| tools.dom().contains(name) ==> (#[trigger] tools[name]).name == name
}

/// A list of tools, taken by name, holds every tool under its own name.
pub proof fn lemma_by_name_keyed(tools: Seq<Tool>)
    ensures
        keyed_by_name(by_name(tools)),
{
    assert forall|name: Seq<char>| by_name(tools).dom().contains(name) implies (#[trigger] by_name(
        tools,
    )[name]).name == name by {
        let i = choose|i: int| 0 <= i < tools.len() && #[trigger] tools[i].name@ == name;
        assert(by_name(tools)[name] == tools[i]@);
    }
}

/// Registering a batch keeps every tool under its own name.
pub proof fn lemma_merged_keyed(known: Map<Seq<char>, ToolView>, batch: Seq<ToolView>)
    requires
        keyed_by_name(known),
    ensures
        keyed_by_name(merged(known, batch)),
    decreases batch.len(),
{
    if batch.len() > 0 {
        lemma_merged_keyed(known, batch.drop_last());
    }
}

/// What a registry holds after the tools of `batch` were registered one after
/// the other, each under its own name: a later tool replaces an earlier one
/// of the same name, and what was there under other names stays.
pub open spec fn merged(known: Map<Seq<char>, ToolView>, batch: Seq<ToolView>) -> Map<
    Seq<char>,
    ToolView,
>
    decreases batch.len(),
{
    if batch.len() == 0 {
        known
    } else {
        merged(known, batch.drop_last()).insert(batch.last().name, batch.last())
    }
}

/// The names of `tools`, in order.
pub open spec fn names_of(tools: Seq<Tool>) -> Seq<Seq<char>> {
    Seq::new(tools.len(), |i: int| tools[i].name@)
}

/// With distinct names, the list of names has no duplicates and is, as a set,
/// the domain of the mapping; so the mapping has as many entries as there are
/// tools.
pub proof fn lemma_names(tools: Seq<Tool>)
    requires
        names_distinct(tools),
    ensures
        names_of(tools).no_duplicates(),
        names_of(tools).to_set() == by_name(tools).dom(),
        by_name(tools).dom().finite(),
        by_name(tools).dom().len() == tools.len(),
{
    let names = names_of(tools);
    assert(names.no_duplicates());
    assert forall|name: Seq<char>| names.to_set().contains(name) <==> has_name(tools, name) by {
        if names.contains(name) {
            let i = choose|i: int| 0 <= i < names.len() && names[i] == name;
            assert(tools[i].name@ == name);
        }
        if has_name(tools, name) {
            let i = choose|i: int| 0 <= i < tools.len() && #[trigger] tools[i].name@ == name;
            assert(names[i] == name);
        }
    }
    assert(names.to_set() =~= by_name(tools).dom());
    names.unique_seq_to_set();
    vstd::seq_lib::seq_to_set_is_finite(names);
}

/// The tools a session knows. Names are unique: registering a tool under a
/// name that is taken replaces the earlier tool.
pub struct ToolRegistry {
    tools: Vec<Tool>,
}

impl View for ToolRegistry {
    type V = Map<Seq<char>, ToolView>;

    closed spec fn view(&self) -> Map<Seq<char>, ToolView> {
        by_name(self.tools@)
    }
}

impl ToolRegistry {
    /// No name is registered twice.
    pub closed spec fn wf(self) -> bool {
        names_distinct(self.tools@)
    }

    /// Every registered tool stands under its own name.
    pub proof fn lemma_keyed(self)
        ensures
            keyed_by_name(self@),
    {
        lemma_by_name_keyed(self.tools@);
    }

    /// A registry without tools.
    pub fn new() -> (registry: Self)
        ensures
            registry.wf(),
            registry@ == Map::<Seq<char>, ToolView>::empty(),
    {
        let registry = ToolRegistry { tools: Vec::new() };
        assert(registry@ =~= Map::<Seq<char>, ToolView>::empty());
        registry
    }

    /// Position of the tool called `name`, if it is registered.
    fn position(&self, name: &Vec<char>) -> (found: Option<usize>)
        ensures
            match found {
                Some(i) => i < self.tools.len() && self.tools[i as int].name@ == name@,
                None => !has_name(self.tools@, name@),
            },
    {
        let mut i: usize = 0;
        while i < self.tools.len()
            invariant
                i <= self.tools.len(),
                forall|k: int| 0 <= k < i ==> self.tools[k].name@ != name@,
            decreases self.tools.len() - i,
        {
            if text_is(self.tools[i].name.as_str(), name) {
                return Some(i);
            }
            i += 1;
        }
        None
    }

    /// Whether a tool called `name` is registered.
    pub fn contains(&self, name: &str) -> (known: bool)
        ensures
            known == self@.dom().contains(name@),
    {
        let chars = to_chars(name);
        self.position(&chars).is_some()
    }

    /// The tool called `name`, which carries that name, or `None` where no
    /// such tool is registered.
    pub fn lookup(&self, name: &str) -> (found: Option<&Tool>)
        requires
            self.wf(),
        ensures
            match found {
                Some(tool) => self@.dom().contains(name@) && tool@ == self@[name@] && tool@.name
                    == name@,
                None => !self@.dom().contains(name@),
            },
    {
        let chars = to_chars(name);
        match self.position(&chars) {
            Some(i) => {
                proof {
                    lemma_by_name_entry(self.tools@, i as int);
                }
                Some(&self.tools[i])
            },
            None => None,
        }
    }

    /// Registers `tool` under its name. A tool registered earlier under the
    /// same name is replaced; the others stay.
    pub fn register(&mut self, tool: Tool)
        requires
            old(self).wf(),
        ensures
            final(self).wf(),
            final(self)@ == old(self)@.insert(tool@.name, tool@),
    {
        let chars = to_chars(tool.name.as_str());
        let ghost before = self.tools@;
        let ghost name = tool.name@;
        let ghost value = tool@;
        match self.position(&chars) {
            Some(i) => {
                self.tools.set(i, tool);
                proof {
                    let after = self.tools@;
                    assert(names_distinct(after));
                    assert forall|key: Seq<char>| has_name(after, key) <==> (has_name(before, key)
                        || key == name) by {
                        if has_name(after, key) {
                            let a = choose|a: int|
                                0 <= a < after.len() && #[trigger] after[a].name@ == key;
                            if a != i {
                                assert(before[a].name@ == key);
                            }
                        }
                        if has_name(before, key) {
                            let b = choose|b: int|
                                0 <= b < before.len() && #[trigger] before[b].name@ == key;
                            assert(after[b].name@ == key);
                        }
                        if key == name {
                            assert(after[i as int].name@ == key);
                        }
                    }
                    assert forall|key: Seq<char>| has_name(after, key) implies #[trigger] by_name(
                        after,
                    )[key] == by_name(before).insert(name, value)[key] by {
                        let a = choose|a: int|
                            0 <= a < after.len() && #[trigger] after[a].name@ == key;
                        lemma_by_name_entry(after, a);
                        if a != i {
                            lemma_by_name_entry(before, a);
                        }
                    }
                    assert(by_name(after) =~= by_name(before).insert(name, value));
                }
            },
            None => {
                self.tools.push(tool);
                proof {
                    let after = self.tools@;
                    assert(names_distinct(after));
                    assert forall|key: Seq<char>| has_name(after, key) <==> (has_name(before, key)
                        || key == name) by {
                        if has_name(after, key) {
                            let a = choose|a: int|
                                0 <= a < after.len() && #[trigger] after[a].name@ == key;
                            if a < before.len() {
                                assert(before[a].name@ == key);
                            }
                        }
                        if has_name(before, key) {
                            let b = choose|b: int|
                                0 <= b < before.len() && #[trigger] before[b].name@ == key;
                            assert(after[b].name@ == key);
                        }
                        if key == name {
                            assert(after[before.len() as int].name@ == key);
                        }
                    }
                    assert forall|key: Seq<char>| has_name(after, key) implies #[trigger] by_name(
                        after,
                    )[key] == by_name(before).insert(name, value)[key] by {
                        let a = choose|a: int|
                            0 <= a < after.len() && #[trigger] after[a].name@ == key;
                        lemma_by_name_entry(after, a);
                        if a < before.len() {
                            lemma_by_name_entry(before, a);
                        }
                    }
                    assert(by_name(after) =~= by_name(before).insert(name, value));
                }
            },
        }
    }

    /// Registers the tools of `tools`, in order, on top of what is known:
    /// a later tool replaces an earlier one of the same name, and a known tool
    /// that `tools` does not name stays.
    pub fn register_all(&mut self, tools: Vec<Tool>)
        requires
            old(self).wf(),
        ensures
            final(self).wf(),
            final(self)@ == merged(old(self)@, tools_view(tools@)),
    {
        let ghost all = tools@;
        let ghost known = self@;
        for tool in it: tools
            invariant
                self.wf(),
                it.seq() == all,
                self@ == merged(known, tools_view(all.take(it.index() as int))),
        {
            let ghost i = it.index() as int;
            proof {
                let done = tools_view(all.take(i + 1));
                assert(done.drop_last() =~= tools_view(all.take(i)));
                assert(done.last() == all[i]@);
            }
            self.register(tool);
        }
        proof {
            assert(all.take(all.len() as int) =~= all);
        }
    }

    /// Forgets every known tool and registers those of `tools` instead.
    pub fn replace_all(&mut self, tools: Vec<Tool>)
        ensures
            final(self).wf(),
            final(self)@ == merged(Map::<Seq<char>, ToolView>::empty(), tools_view(tools@)),
    {
        self.tools = Vec::new();
        assert(self@ =~= Map::<Seq<char>, ToolView>::empty());
        self.register_all(tools);
    }

    /// How many tools are registered.
    pub fn len(&self) -> (count: usize)
        requires
            self.wf(),
        ensures
            count == self@.dom().len(),
    {
        proof {
            lemma_names(self.tools@);
        }
        self.tools.len()
    }

    /// The names of the registered tools, each once.
    pub fn names(&self) -> (names: Vec<String>)
        requires
            self.wf(),
        ensures
            names.deep_view().no_duplicates(),
            names.deep_view().to_set() == self@.dom(),
            names.len() == self@.dom().len(),
    {
        let mut names: Vec<String> = Vec::new();
        let mut i: usize = 0;
        while i < self.tools.len()
            invariant
                i <= self.tools.len(),
                names.len() == i,
                forall|k: int| 0 <= k < i ==> names[k]@ == self.tools[k].name@,
            decreases self.tools.len() - i,
        {
            names.push(self.tools[i].name.clone());
            i += 1;
        }
        proof {
            lemma_names(self.tools@);
            assert(names.deep_view() =~= names_of(self.tools@));
        }
        names
    }
}

} // verus!
