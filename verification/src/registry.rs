//! Registry of tools, called by name.
use vstd::prelude::*;
use vstd::string::StringExecFns;
use crate::table::NamedTable;
use crate::tool::ToolError;

verus! {

/// Tools registered under their names, listed in the order in which each
/// name was first registered.
pub struct ToolRegistry<T> {
    tools: NamedTable<T>,
}

impl<T> ToolRegistry<T> {
    /// The registered names, in registration order.
    pub closed spec fn names(&self) -> Seq<Seq<char>> {
        self.tools.keys()
    }

    /// The registered tools, in the same order.
    pub closed spec fn tools(&self) -> Seq<T> {
        self.tools.values()
    }

    /// The tool registered under `name`.
    pub closed spec fn tool(&self, name: Seq<char>) -> Option<T> {
        self.tools.lookup(name)
    }

    pub fn new() -> (r: ToolRegistry<T>)
        ensures
            r.names().len() == 0,
            r.tools().len() == 0,
            forall|n: Seq<char>| #[trigger] r.tool(n) is None,
    {
        ToolRegistry { tools: NamedTable::new() }
    }

    /// Registers `tool` under `name`. A tool of the same name is replaced
    /// and its place in the listing kept; a new name is listed last.
    pub fn register(&mut self, name: &str, tool: T)
        ensures
            final(self).tool(name@) == Some(tool),
            forall|other: Seq<char>| other != name@ ==> #[trigger] final(self).tool(other) == old(self).tool(other),
            old(self).tool(name@) is Some ==> final(self).names() == old(self).names(),
            old(self).tool(name@) is None ==> final(self).names() == old(self).names().push(name@),
    {
        let _previous = self.tools.insert(name, tool);
    }

    /// The tool registered under `name`; an unknown name is reported as an
    /// error (names are case-sensitive).
    pub fn lookup(&self, name: &str) -> (r: Result<&T, ToolError>)
        ensures
            match r {
                Ok(t) => self.tool(name@) == Some(*t),
                Err(e) => self.tool(name@) is None && e.message@ == "no tool named '"@ + name@
                    + "' is registered"@ && e.brief@ == "unknown tool"@,
            },
    {
        match self.tools.get(name) {
            Some(t) => Ok(t),
            None => {
                let mut m = "no tool named '".to_owned();
                m.append(name);
                m.append("' is registered");
                Err(ToolError { message: m, brief: "unknown tool".to_owned() })
            },
        }
    }

    /// Whether a tool is registered under `name`.
    pub fn contains(&self, name: &str) -> (r: bool)
        ensures
            r == (self.tool(name@) is Some),
    {
        self.tools.contains(name)
    }

    /// Number of registered tools.
    pub fn len(&self) -> (r: usize)
        ensures
            r == self.names().len(),
    {
        self.tools.len()
    }

    /// The tool at position `i` of the listing.
    pub fn at(&self, i: usize) -> (r: &T)
        requires
            i < self.names().len(),
        ensures
            *r == self.tools()[i as int],
    {
        self.tools.entry(i).1
    }
}

} // verus!
