//! The tools that are built in.
use crate::text::same;
use vstd::prelude::*;

verus! {

/// A tool that is built in.
#[derive(Debug, Clone, Copy, PartialEq, Eq, Structural)]
pub enum BuiltinTool {
    Read,
    List,
    Search,
    Edit,
    Write,
    Bash,
    UpdatePlan,
    WebSearch,
    WebFetch,
    RequestInput,
}

/// The name of a tool.
pub open spec fn tool_name(tool: BuiltinTool) -> Seq<char> {
    match tool {
        BuiltinTool::Read => "read"@,
        BuiltinTool::List => "list"@,
        BuiltinTool::Search => "search"@,
        BuiltinTool::Edit => "edit"@,
        BuiltinTool::Write => "write"@,
        BuiltinTool::Bash => "bash"@,
        BuiltinTool::UpdatePlan => "update_plan"@,
        BuiltinTool::WebSearch => "web_search"@,
        BuiltinTool::WebFetch => "web_fetch"@,
        BuiltinTool::RequestInput => "request_input"@,
    }
}

/// Whether what a tool is about to do is recorded before it does it.
pub open spec fn records_ahead(tool: BuiltinTool) -> bool {
    tool == BuiltinTool::Edit || tool == BuiltinTool::Write || tool == BuiltinTool::Bash
}

/// The tool of the given name.
pub open spec fn builtin_of(name: Seq<char>) -> Option<BuiltinTool> {
    if exists|tool: BuiltinTool| #[trigger] tool_name(tool) == name {
        Some(choose|tool: BuiltinTool| #[trigger] tool_name(tool) == name)
    } else {
        None
    }
}

proof fn lemma_names_differ(a: BuiltinTool, b: BuiltinTool)
    requires
        tool_name(a) == tool_name(b),
    ensures
        a == b,
{
    reveal_strlit("read");
    reveal_strlit("list");
    reveal_strlit("search");
    reveal_strlit("edit");
    reveal_strlit("write");
    reveal_strlit("bash");
    reveal_strlit("update_plan");
    reveal_strlit("web_search");
    reveal_strlit("web_fetch");
    reveal_strlit("request_input");
    let x = tool_name(a);
    let y = tool_name(b);
    assert(x.len() == y.len());
    assert(x[0] == y[0] && x[3] == y[3]);
    if x.len() == 11 {
        assert(x == "update_plan"@);
    }
}

impl BuiltinTool {
    /// The name of the tool.
    pub fn name(&self) -> (r: &'static str)
        ensures
            r@ == tool_name(*self),
    {
        match self {
            BuiltinTool::Read => "read",
            BuiltinTool::List => "list",
            BuiltinTool::Search => "search",
            BuiltinTool::Edit => "edit",
            BuiltinTool::Write => "write",
            BuiltinTool::Bash => "bash",
            BuiltinTool::UpdatePlan => "update_plan",
            BuiltinTool::WebSearch => "web_search",
            BuiltinTool::WebFetch => "web_fetch",
            BuiltinTool::RequestInput => "request_input",
        }
    }

    /// The tool of the given name.
    pub fn from_name(name: &str) -> (r: Option<BuiltinTool>)
        ensures
            r == builtin_of(name@),
            match r {
                Some(tool) => tool_name(tool) == name@,
                None => forall|tool: BuiltinTool| #[trigger] tool_name(tool) != name@,
            },
    {
        let found = Self::named(name);
        proof {
            if let Some(tool) = found {
                lemma_names_differ(tool, builtin_of(name@)->0);
            }
        }
        found
    }

    fn named(name: &str) -> (r: Option<BuiltinTool>)
        ensures
            match r {
                Some(tool) => tool_name(tool) == name@,
                None => forall|tool: BuiltinTool| #[trigger] tool_name(tool) != name@,
            },
    {
        if same(name, "read") {
            Some(BuiltinTool::Read)
        } else if same(name, "list") {
            Some(BuiltinTool::List)
        } else if same(name, "search") {
            Some(BuiltinTool::Search)
        } else if same(name, "edit") {
            Some(BuiltinTool::Edit)
        } else if same(name, "write") {
            Some(BuiltinTool::Write)
        } else if same(name, "bash") {
            Some(BuiltinTool::Bash)
        } else if same(name, "update_plan") {
            Some(BuiltinTool::UpdatePlan)
        } else if same(name, "web_search") {
            Some(BuiltinTool::WebSearch)
        } else if same(name, "web_fetch") {
            Some(BuiltinTool::WebFetch)
        } else if same(name, "request_input") {
            Some(BuiltinTool::RequestInput)
        } else {
            None
        }
    }

    /// Whether what the tool is about to do is recorded before it does it.
    pub fn requires_write_ahead(&self) -> (r: bool)
        ensures
            r == records_ahead(*self),
    {
        match self {
            BuiltinTool::Edit => true,
            BuiltinTool::Write => true,
            BuiltinTool::Bash => true,
            _ => false,
        }
    }
}

/// A tool is found again by its name, and by no other.
pub proof fn names_are_unique(a: BuiltinTool, b: BuiltinTool)
    ensures
        (tool_name(a) == tool_name(b)) == (a == b),
{
    if tool_name(a) == tool_name(b) {
        lemma_names_differ(a, b);
    }
}

} // verus!
