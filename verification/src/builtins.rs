//! The builtin table: a fixed, read-only mapping from builtin name to a
//! human-readable description, constructed once and owned by the shell.
//! It serves both dispatch and introspection (`type`).

use vstd::prelude::*;
use vstd::string::StringExecFns;
use crate::strutil::str_eq;

verus! {

/// The description the table holds for `name`, or `None` when `name` is not
/// a builtin.
pub open spec fn builtin_desc(name: Seq<char>) -> Option<Seq<char>> {
    if name == "exit"@ {
        Some("exit is a shell builtin"@)
    } else if name == "echo"@ {
        Some("echo is a shell builtin"@)
    } else if name == "type"@ {
        Some("type is a shell builtin"@)
    } else if name == "pwd"@ {
        Some("pwd is a shell builtin"@)
    } else if name == "cd"@ {
        Some("cd is a shell builtin"@)
    } else {
        None
    }
}

/// Whether `name` names a builtin command.
pub open spec fn is_builtin_name(name: Seq<char>) -> bool {
    builtin_desc(name) is Some
}

/// One builtin command: its name and its description.
pub struct BuiltinEntry {
    pub name: String,
    pub description: String,
}

/// The read-only table of builtin commands.  Its invariant ties the stored
/// entries to `builtin_desc`, name unique by construction.
pub struct BuiltinTable {
    pub entries: Vec<BuiltinEntry>,
}

impl BuiltinTable {
    /// The table holds exactly the builtins, each with its description.
    pub open spec fn wf(self) -> bool {
        &&& self.entries@.len() == 5
        &&& forall|i: int|
            0 <= i < self.entries@.len() ==> builtin_desc(#[trigger] self.entries@[i].name@)
                == Some(self.entries@[i].description@)
        &&& self.entries@[0].name@ == "exit"@
        &&& self.entries@[1].name@ == "echo"@
        &&& self.entries@[2].name@ == "type"@
        &&& self.entries@[3].name@ == "pwd"@
        &&& self.entries@[4].name@ == "cd"@
    }

    /// Constructs the table with its five entries.
    pub fn new() -> (t: BuiltinTable)
        ensures
            t.wf(),
    {
        let mut entries: Vec<BuiltinEntry> = Vec::new();
        entries.push(
            BuiltinEntry {
                name: String::from_str("exit"),
                description: String::from_str("exit is a shell builtin"),
            },
        );
        entries.push(
            BuiltinEntry {
                name: String::from_str("echo"),
                description: String::from_str("echo is a shell builtin"),
            },
        );
        entries.push(
            BuiltinEntry {
                name: String::from_str("type"),
                description: String::from_str("type is a shell builtin"),
            },
        );
        entries.push(
            BuiltinEntry {
                name: String::from_str("pwd"),
                description: String::from_str("pwd is a shell builtin"),
            },
        );
        entries.push(
            BuiltinEntry {
                name: String::from_str("cd"),
                description: String::from_str("cd is a shell builtin"),
            },
        );
        proof {
            reveal_strlit("exit");
            reveal_strlit("echo");
            reveal_strlit("type");
            reveal_strlit("pwd");
            reveal_strlit("cd");
            assert("echo"@[1] != "exit"@[1]);
            assert("type"@[0] != "exit"@[0]);
            assert("type"@[0] != "echo"@[0]);
            assert("pwd"@.len() != "exit"@.len() && "pwd"@.len() != "echo"@.len() && "pwd"@.len()
                != "type"@.len());
            assert("cd"@.len() != "exit"@.len() && "cd"@.len() != "echo"@.len() && "cd"@.len()
                != "type"@.len() && "cd"@.len() != "pwd"@.len());
            assert forall|i: int| 0 <= i < entries@.len() implies builtin_desc(
                #[trigger] entries@[i].name@,
            ) == Some(entries@[i].description@) by {
                if i == 0 {
                    assert(builtin_desc("exit"@) == Some("exit is a shell builtin"@));
                } else if i == 1 {
                    assert(builtin_desc("echo"@) == Some("echo is a shell builtin"@));
                } else if i == 2 {
                    assert(builtin_desc("type"@) == Some("type is a shell builtin"@));
                } else if i == 3 {
                    assert(builtin_desc("pwd"@) == Some("pwd is a shell builtin"@));
                } else {
                    assert(builtin_desc("cd"@) == Some("cd is a shell builtin"@));
                }
            }
        }
        BuiltinTable { entries }
    }

    /// Looks `name` up: the description when `name` is a builtin, `None`
    /// otherwise.
    pub fn lookup(&self, name: &str) -> (r: Option<&String>)
        requires
            self.wf(),
        ensures
            match r {
                Some(d) => builtin_desc(name@) == Some(d@),
                None => builtin_desc(name@) is None,
            },
    {
        let mut i: usize = 0;
        while i < self.entries.len()
            invariant
                self.wf(),
                i <= self.entries@.len(),
                forall|j: int| 0 <= j < i ==> (#[trigger] self.entries@[j].name@) != name@,
            decreases self.entries@.len() - i,
        {
            if str_eq(self.entries[i].name.as_str(), name) {
                return Some(&self.entries[i].description);
            }
            i += 1;
        }
        None
    }

    /// Whether `name` is a builtin.
    pub fn contains_name(&self, name: &str) -> (r: bool)
        requires
            self.wf(),
        ensures
            r == is_builtin_name(name@),
    {
        match self.lookup(name) {
            Some(_) => true,
            None => false,
        }
    }
}

} // verus!
