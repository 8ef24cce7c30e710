//! An agent as a set of tools that can be run by name.

use std::sync::Arc;
use vstd::prelude::*;
use crate::agent::spec::share;
use crate::tool::base::Tool;
use crate::util::error::OpenCodeError;
use crate::util::text::{from_chars, push_text, same_text};

verus! {

/// The tools of an agent, in the order in which they were added.
pub struct Agent {
    tools: Vec<Arc<dyn Tool>>,
}

/// The position of the first tool of this name.
pub open spec fn first_tool<T: Tool + ?Sized>(tools: Seq<Arc<T>>, name: Seq<char>) -> Option<int>
    decreases tools.len(),
{
    if tools.len() == 0 {
        None
    } else {
        match first_tool(tools.drop_last(), name) {
            Some(i) => Some(i),
            None => if tools.last().spec_name() == name {
                Some(tools.len() - 1)
            } else {
                None
            },
        }
    }
}

/// The first tool of a name is a tool of that name, and no tool before
/// it is.
pub proof fn lemma_first_tool<T: Tool + ?Sized>(tools: Seq<Arc<T>>, name: Seq<char>)
    ensures
        match first_tool(tools, name) {
            Some(i) => 0 <= i < tools.len() && tools[i].spec_name() == name && forall|k: int|
                0 <= k < i ==> (#[trigger] tools[k]).spec_name() != name,
            None => forall|k: int| 0 <= k < tools.len() ==> (#[trigger] tools[k]).spec_name() != name,
        },
    decreases tools.len(),
{
    if tools.len() > 0 {
        lemma_first_tool(tools.drop_last(), name);
        let front = tools.drop_last();
        assert(forall|k: int| 0 <= k < front.len() ==> front[k] == tools[k]);
    }
}

/// The message for a tool that the agent lacks.
pub open spec fn missing_tool(name: Seq<char>) -> Seq<char> {
    "Tool '"@ + name + "' not found"@
}

/// The sequence of one item.
pub open spec fn seq_of<T: ?Sized>(item: &Arc<T>) -> Seq<Arc<T>> {
    seq![*item]
}

fn push_shared<T: ?Sized>(items: &mut Vec<Arc<T>>, item: &Arc<T>)
    ensures
        final(items)@ == old(items)@ + seq_of(item),
{
    items.push(share(item));
    assert(items@ =~= old(items)@ + seq_of(item));
}

fn share_all<T: ?Sized>(items: &[Arc<T>]) -> (r: Vec<Arc<T>>)
    ensures
        r@ == items@,
{
    let mut out: Vec<Arc<T>> = Vec::new();
    let mut i: usize = 0;
    while i < items.len()
        invariant
            i <= items@.len(),
            out@ == items@.subrange(0, i as int),
        decreases items@.len() - i,
    {
        out.push(share(&items[i]));
        i += 1;
        assert(out@ =~= items@.subrange(0, i as int));
    }
    assert(items@.subrange(0, items@.len() as int) =~= items@);
    out
}

/// The position of the first tool of this name.
pub fn find_tool<T: Tool + ?Sized>(tools: &[Arc<T>], name: &str) -> (r: Option<usize>)
    ensures
        match r {
            Some(i) => i < tools@.len() && first_tool(tools@, name@) == Some(i as int),
            None => first_tool(tools@, name@) is None,
        },
{
    let mut i: usize = 0;
    while i < tools.len()
        invariant
            i <= tools@.len(),
            forall|k: int| 0 <= k < i ==> (#[trigger] tools@[k]).spec_name() != name@,
        decreases tools@.len() - i,
    {
        if same_text(tools[i].name(), name) {
            proof {
                lemma_first_tool(tools@, name@);
                assert(tools@[i as int].spec_name() == name@);
            }
            return Some(i);
        }
        i += 1;
    }
    proof {
        lemma_first_tool(tools@, name@);
    }
    None
}

impl Agent {
    /// The tools.
    pub closed spec fn spec_tools(&self) -> Seq<Arc<dyn Tool>> {
        self.tools@
    }

    /// An agent without tools.
    pub fn new() -> (r: Self)
        ensures
            r.spec_tools().len() == 0,
    {
        Agent { tools: Vec::new() }
    }

    /// Adds a tool behind those that the agent has.
    pub fn add_tool(&mut self, tool: Arc<dyn Tool>)
        ensures
            final(self).spec_tools() == old(self).spec_tools() + seq_of(&tool),
    {
        push_shared::<dyn Tool>(&mut self.tools, &tool);
    }

    /// Runs the first tool of this name on the arguments. Where the agent
    /// has none of that name, fails with a configuration error that says so.
    pub fn run_tool(&self, tool_name: &str, args: &[String]) -> (r: Result<String, OpenCodeError>)
        ensures
            match first_tool(self.spec_tools(), tool_name@) {
                Some(i) => self.spec_tools()[i].runs_to(args@, r),
                None => r matches Err(OpenCodeError::Config(m)) && m@ == missing_tool(tool_name@),
            },
    {
        match find_tool::<dyn Tool>(self.tools.as_slice(), tool_name) {
            Some(i) => {
                let r = self.tools[i].execute(args);
                r
            },
            None => {
                let mut message: Vec<char> = Vec::new();
                push_text(&mut message, "Tool '");
                push_text(&mut message, tool_name);
                push_text(&mut message, "' not found");
                assert(message@ =~= missing_tool(tool_name@));
                Err(OpenCodeError::Config(from_chars(message.as_slice())))
            },
        }
    }

    /// The tools, in the order in which they were added.
    pub fn tools(&self) -> (r: Vec<Arc<dyn Tool>>)
        ensures
            r@ == self.spec_tools(),
    {
        share_all::<dyn Tool>(self.tools.as_slice())
    }
}

} // verus!
