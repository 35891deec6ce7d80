//! The tools that a model may call.

use crate::json::{Doc, Json};
use crate::text;
use vstd::prelude::*;

verus! {

/// A tool: its name, what is said of it, and the schema of its arguments.
#[derive(Debug)]
pub struct ToolSpec {
    pub name: String,
    pub description: String,
    pub parameters: Json,
}

/// A tool, apart from how it is kept.
pub struct Tool {
    pub name: Seq<char>,
    pub description: Seq<char>,
    pub parameters: Doc,
}

impl View for ToolSpec {
    type V = Tool;

    open spec fn view(&self) -> Tool {
        Tool { name: self.name@, description: self.description@, parameters: self.parameters@ }
    }
}

/// The tools, each name once, in the order in which the names came.
#[derive(Debug)]
pub struct ToolRegistry {
    tools: Vec<ToolSpec>,
}

impl View for ToolRegistry {
    type V = Seq<Tool>;

    closed spec fn view(&self) -> Seq<Tool> {
        self.tools@.map_values(|t: ToolSpec| t@)
    }
}

/// The place of a tool, from `i` on.
pub open spec fn tool_from(tools: Seq<Tool>, name: Seq<char>, i: int) -> Option<int>
    decreases tools.len() - i,
{
    if i < 0 || i >= tools.len() {
        None
    } else if tools[i].name == name {
        Some(i)
    } else {
        tool_from(tools, name, i + 1)
    }
}

/// Whether there is a tool of that name.
pub open spec fn has_tool(tools: Seq<Tool>, name: Seq<char>) -> bool {
    tool_from(tools, name, 0) is Some
}

/// The tools with one more, which takes the place of one of the same name.
pub open spec fn with_tool(tools: Seq<Tool>, tool: Tool) -> Seq<Tool> {
    match tool_from(tools, tool.name, 0) {
        Some(i) => tools.update(i, tool),
        None => tools.push(tool),
    }
}

/// The tools where more is said of one of them.
pub open spec fn amended(tools: Seq<Tool>, name: Seq<char>, more: Seq<char>) -> Seq<Tool> {
    match tool_from(tools, name, 0) {
        Some(i) => tools.update(i, Tool { description: tools[i].description + more, ..tools[i] }),
        None => tools,
    }
}

/// The place that is found for a name is the first one, from `from` on, with a tool of that name.
pub proof fn lemma_tool_from(tools: Seq<Tool>, name: Seq<char>, from: int)
    requires
        0 <= from,
    ensures
        match tool_from(tools, name, from) {
            Some(i) => from <= i < tools.len() && tools[i].name == name && forall|j: int|
                from <= j < i ==> (#[trigger] tools[j]).name != name,
            None => forall|j: int| from <= j < tools.len() ==> (#[trigger] tools[j]).name != name,
        },
    decreases tools.len() - from,
{
    if from < tools.len() && tools[from].name != name {
        lemma_tool_from(tools, name, from + 1);
    }
}

/// A tool that was registered is there, and every other is there as before.
pub proof fn lemma_registered(tools: Seq<Tool>, tool: Tool, other: Seq<char>)
    ensures
        has_tool(with_tool(tools, tool), tool.name),
        other != tool.name ==> has_tool(with_tool(tools, tool), other) == has_tool(tools, other),
{
    let after = with_tool(tools, tool);
    lemma_tool_from(tools, tool.name, 0);
    lemma_tool_from(after, tool.name, 0);
    lemma_tool_from(tools, other, 0);
    lemma_tool_from(after, other, 0);
    match tool_from(tools, tool.name, 0) {
        Some(i) => {
            assert(after[i] == tool);
            if other != tool.name {
                match tool_from(tools, other, 0) {
                    Some(j) => {
                        assert(after[j] == tools[j]);
                    },
                    None => {
                        assert(forall|j: int|
                            0 <= j < after.len() && j != i ==> #[trigger] after[j] == tools[j]);
                    },
                }
            }
        },
        None => {
            assert(after[tools.len() as int] == tool);
            if other != tool.name {
                match tool_from(tools, other, 0) {
                    Some(j) => {
                        assert(after[j] == tools[j]);
                    },
                    None => {
                        assert(forall|j: int|
                            0 <= j < tools.len() ==> #[trigger] after[j] == tools[j]);
                    },
                }
            }
        },
    }
}

impl ToolRegistry {
    /// No tools.
    pub fn new() -> (r: ToolRegistry)
        ensures
            r@ == Seq::<Tool>::empty(),
    {
        let r = ToolRegistry { tools: Vec::new() };
        assert(r@ =~= Seq::<Tool>::empty());
        r
    }

    fn find(&self, name: &str) -> (r: Option<usize>)
        ensures
            match r {
                Some(i) => i < self.tools@.len() && tool_from(self@, name@, 0) == Some(i as int),
                None => tool_from(self@, name@, 0) is None,
            },
    {
        let mut i: usize = 0;
        while i < self.tools.len()
            invariant
                i <= self.tools@.len(),
                tool_from(self@, name@, 0) == tool_from(self@, name@, i as int),
            decreases self.tools@.len() - i,
        {
            assert(self@[i as int] == self.tools@[i as int]@);
            if text::same(self.tools[i].name.as_str(), name) {
                return Some(i);
            }
            i = i + 1;
        }
        None
    }

    /// Whether there is a tool of that name.
    pub fn contains(&self, name: &str) -> (r: bool)
        ensures
            r == has_tool(self@, name@),
    {
        self.find(name).is_some()
    }

    /// Adds a tool, in the place of one of the same name.
    pub fn register(&mut self, spec: ToolSpec)
        ensures
            final(self)@ == with_tool(old(self)@, spec@),
    {
        let ghost before = self@;
        match self.find(spec.name.as_str()) {
            Some(i) => {
                self.tools.set(i, spec);
                assert(self@ =~= before.update(i as int, spec@));
            },
            None => {
                self.tools.push(spec);
                assert(self@ =~= before.push(spec@));
            },
        }
    }

    /// Says more of a tool, if there is one of that name.
    pub fn amend_description(&mut self, name: &str, more: &str)
        ensures
            final(self)@ == amended(old(self)@, name@, more@),
    {
        let ghost before = self@;
        match self.find(name) {
            Some(i) => {
                let t = &self.tools[i];
                assert(before[i as int] == t@);
                let spec = ToolSpec {
                    name: t.name.clone(),
                    description: text::cat2(t.description.as_str(), more),
                    parameters: t.parameters.duplicate(),
                };
                self.tools.set(i, spec);
                assert(self@ =~= before.update(i as int, spec@));
            },
            None => {},
        }
    }
}

/// A description that is amended is continued, and everything else stays as it was.
pub proof fn lemma_amended(tools: Seq<Tool>, name: Seq<char>, more: Seq<char>, i: int)
    requires
        0 <= i < tools.len(),
    ensures
        amended(tools, name, more).len() == tools.len(),
        amended(tools, name, more)[i].name == tools[i].name,
        amended(tools, name, more)[i].parameters == tools[i].parameters,
        tools[i].name != name ==> amended(tools, name, more)[i] == tools[i],
        tools[i].name == name && (forall|k: int|
            0 <= k < i ==> (#[trigger] tools[k]).name != name) ==> amended(
            tools,
            name,
            more,
        )[i].description == tools[i].description + more,
{
    lemma_tool_from(tools, name, 0);
}

}
