use vstd::prelude::*;
use crate::signature::Signature;

verus! {

/// Which built-in a registered descriptor dispatches to. The registry is a
/// closed set of built-ins, so dispatch is an explicit lookup followed by a
/// match, not reflection.
#[derive(Clone, Copy, PartialEq, Eq, Structural, Debug)]
pub enum CommandKind {
    OpenCmd,
    FromCsv,
}

/// One registered command: its name, usage text, argument signature and
/// dispatch kind.
#[derive(Debug)]
pub struct CommandDescriptor {
    pub name: String,
    pub usage: String,
    pub signature: Signature,
    pub kind: CommandKind,
}

/// The mapping from command name to command, populated once at context
/// construction and only queried during a line's evaluation.
#[derive(Debug)]
pub struct CommandRegistry {
    pub cmds: Vec<CommandDescriptor>,
}

/// The index of the first registered command with the given name.
pub open spec fn lookup_idx(cmds: Seq<CommandDescriptor>, name: Seq<char>, i: int) -> Option<int>
    decreases cmds.len() - i,
{
    if i < 0 || i >= cmds.len() {
        None
    } else if cmds[i].name@ == name {
        Some(i)
    } else {
        lookup_idx(cmds, name, i + 1)
    }
}

pub open spec fn lookup_model(reg: CommandRegistry, name: Seq<char>) -> Option<int> {
    lookup_idx(reg.cmds@, name, 0)
}

/// Command names are unique within the registry.
pub open spec fn registry_wf(reg: CommandRegistry) -> bool {
    forall|i: int, j: int|
        0 <= i < j < reg.cmds@.len() ==> reg.cmds@[i].name@ != reg.cmds@[j].name@
}

impl CommandRegistry {
    pub fn new() -> (r: CommandRegistry)
        ensures
            r.cmds@.len() == 0,
    {
        CommandRegistry { cmds: Vec::new() }
    }

    /// Pre-execution setup only: never called while a line is evaluating.
    pub fn register(&mut self, cmd: CommandDescriptor)
        ensures
            final(self).cmds@ == old(self).cmds@.push(cmd),
    {
        self.cmds.push(cmd);
    }

    /// The index of the command registered under `name`, if any.
    pub fn find_command(&self, name: &String) -> (r: Option<usize>)
        ensures
            match r {
                Option::Some(k) => lookup_model(*self, name@) == Some(k as int) && k
                    < self.cmds@.len(),
                Option::None => lookup_model(*self, name@) is None,
            },
    {
        let n = self.cmds.len();
        let mut i: usize = 0;
        while i < n
            invariant
                0 <= i <= n,
                n == self.cmds@.len(),
                lookup_idx(self.cmds@, name@, 0) == lookup_idx(self.cmds@, name@, i as int),
            decreases n - i,
        {
            if self.cmds[i].name == *name {
                return Some(i);
            }
            i = i + 1;
        }
        None
    }
}

} // verus!
