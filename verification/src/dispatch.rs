//! The dispatcher: examines the head token of a line, case-sensitive, and
//! decides the action to perform.  `echo`, `pwd` and `exit` are computed
//! here outright; `type`, `cd` and external commands need answers from the
//! filesystem or the environment, so the decision names what is asked for
//! and companion functions consume the answers.
//!
//! The working directory is explicit state owned by the shell, written only
//! by a successful change of directory and read by `pwd`, by relative-path
//! resolution and by whoever spawns a child process.

use vstd::prelude::*;
use vstd::string::StrSliceExecFns;
use vstd::string::StringExecFns;
use crate::builtins::BuiltinTable;
use crate::builtins::builtin_desc;
use crate::builtins::is_builtin_name;
use crate::resolver::join_path;
use crate::resolver::path_join;
use crate::strutil::concat2;
use crate::strutil::concat3;
use crate::strutil::is_i32_str;
use crate::strutil::int_str_val;
use crate::strutil::join_with_spaces;
use crate::strutil::joined;
use crate::strutil::parse_i32;
use crate::strutil::str_eq;
use crate::strutil::suffix_from;
use crate::strutil::trim_blanks;
use crate::strutil::trim_spec;
use crate::tokenizer::process_input;
use crate::tokenizer::tokenize;

verus! {

/// What the shell decides to do with one input line, at the specification
/// level: payloads are character sequences.
pub enum Decision {
    /// Write this line to standard output.
    Report(Seq<char>),
    /// Write this line to the diagnostic stream.
    Diag(Seq<char>),
    /// Terminate the process with this status.
    Terminate(i32),
    /// Report on each of these names, builtin table first, search path second.
    DescribeNames(Seq<Seq<char>>),
    /// Change the working directory to this target argument.
    ChangeDir(Seq<char>),
    /// Resolve this command on the search path and run it with these
    /// arguments.
    RunExternal(Seq<char>, Seq<Seq<char>>),
}

/// What the shell decides to do with one input line: the executable value.
pub enum Action {
    Report(String),
    Diag(String),
    Terminate(i32),
    DescribeNames(Vec<String>),
    ChangeDir(String),
    RunExternal(String, Vec<String>),
}

impl View for Action {
    type V = Decision;

    open spec fn view(&self) -> Decision {
        match self {
            Action::Report(s) => Decision::Report(s@),
            Action::Diag(s) => Decision::Diag(s@),
            Action::Terminate(c) => Decision::Terminate(*c),
            Action::DescribeNames(v) => Decision::DescribeNames(v.deep_view()),
            Action::ChangeDir(s) => Decision::ChangeDir(s@),
            Action::RunExternal(n, a) => Decision::RunExternal(n@, a.deep_view()),
        }
    }
}

/// The decision for `exit`: no argument terminates with status 0; one
/// argument that is a decimal integer fitting an `i32` terminates with that
/// status; anything else is an argument error and does not terminate.
pub open spec fn decide_exit(toks: Seq<Seq<char>>) -> Decision {
    if toks.len() == 1 {
        Decision::Terminate(0)
    } else if toks.len() > 2 {
        Decision::Diag("exit: too many arguments"@)
    } else if is_i32_str(toks[1]) {
        Decision::Terminate(int_str_val(toks[1]) as i32)
    } else {
        Decision::Diag("exit: "@ + toks[1] + ": numeric argument required"@)
    }
}

/// The dispatcher's decision for one input line, over the working directory
/// `cwd`: the line is tokenized, the head token is matched exactly against
/// the builtin names, and anything else falls through to external
/// resolution.
pub open spec fn decide(cwd: Seq<char>, input: Seq<char>) -> Decision {
    let toks = tokenize(input);
    if toks.len() == 0 {
        Decision::Report(trim_spec(input) + ": command not found"@)
    } else if toks[0] == "exit"@ {
        decide_exit(toks)
    } else if toks[0] == "echo"@ {
        Decision::Report(joined(toks.skip(1)))
    } else if toks[0] == "type"@ {
        Decision::DescribeNames(toks.skip(1))
    } else if toks[0] == "pwd"@ {
        Decision::Report(cwd)
    } else if toks[0] == "cd"@ {
        if toks.len() >= 2 {
            Decision::ChangeDir(toks[1])
        } else {
            Decision::Diag("cd: missing argument"@)
        }
    } else {
        Decision::RunExternal(toks[0], toks.skip(1))
    }
}

/// The report `type` gives for one name: the builtin table is consulted
/// first; otherwise `resolved` — the answer of path resolution — decides.
pub open spec fn type_line_spec(name: Seq<char>, resolved: Option<Seq<char>>) -> Seq<char> {
    match builtin_desc(name) {
        Some(d) => d,
        None => match resolved {
            Some(p) => name + " is "@ + p,
            None => name + ": not found"@,
        },
    }
}

/// The path a `cd` argument asks for, before canonicalization: `~` alone is
/// the home directory (`/` when none is known), a leading `~/` segment is
/// replaced by it, an absolute argument is used as is, and anything else is
/// joined against the working directory.
pub open spec fn cd_target_spec(arg: Seq<char>, home: Option<Seq<char>>, cwd: Seq<char>) -> Seq<
    char,
> {
    let h = match home {
        Some(h) => h,
        None => "/"@,
    };
    if arg == "~"@ {
        h
    } else if arg.len() >= 2 && arg[0] == '~' && arg[1] == '/' {
        h + arg.skip(1)
    } else if arg.len() >= 1 && arg[0] == '/' {
        arg
    } else {
        join_path(cwd, arg)
    }
}

/// Computes the path a `cd` argument asks for; `home` is the platform home
/// directory when one is known.
pub fn cd_target(arg: &str, home: &Option<String>, cwd: &str) -> (r: String)
    ensures
        r@ == cd_target_spec(arg@, home.deep_view(), cwd@),
{
    let h: &str = match home {
        Some(hs) => hs.as_str(),
        None => "/",
    };
    if str_eq(arg, "~") {
        String::from_str(h)
    } else {
        let n = arg.unicode_len();
        if n >= 2 && arg.get_char(0) == '~' && arg.get_char(1) == '/' {
            let rest = arg.substring_char(1, n);
            proof {
                assert(rest@ =~= arg@.skip(1));
            }
            concat2(h, rest)
        } else if n >= 1 && arg.get_char(0) == '/' {
            String::from_str(arg)
        } else {
            path_join(cwd, arg)
        }
    }
}

/// The line reporting a failed external resolution.
pub fn not_found_line(name: &str) -> (r: String)
    ensures
        r@ == name@ + ": command not found"@,
{
    concat2(name, ": command not found")
}

/// A shell session: the builtin table, constructed once and read-only, and
/// the working directory, written only by a successful change of directory.
pub struct Shell {
    pub builtins: BuiltinTable,
    pub cwd: String,
}

impl Shell {
    /// The builtin table holds exactly the builtins.
    pub open spec fn wf(self) -> bool {
        self.builtins.wf()
    }

    /// A session starting in `initial_cwd`.
    pub fn new(initial_cwd: String) -> (s: Shell)
        ensures
            s.wf(),
            s.cwd@ == initial_cwd@,
    {
        Shell { builtins: BuiltinTable::new(), cwd: initial_cwd }
    }

    /// The current working directory, as a line for `pwd`.
    pub fn pwd_line(&self) -> (r: String)
        ensures
            r@ == self.cwd@,
    {
        self.cwd.clone()
    }

    /// Tokenizes one input line and decides the action to perform.
    pub fn plan(&self, input: &str) -> (a: Action)
        requires
            self.wf(),
        ensures
            a@ == decide(self.cwd@, input@),
    {
        let toks = process_input(input);
        let ghost tv = tokenize(input@);
        proof {
            assert(toks.deep_view().len() == toks@.len());
        }
        if toks.len() == 0 {
            let t = trim_blanks(input);
            return Action::Report(concat2(t.as_str(), ": command not found"));
        }
        proof {
            assert(tv[0] == toks@[0]@);
        }
        if str_eq(toks[0].as_str(), "exit") {
            if toks.len() == 1 {
                Action::Terminate(0)
            } else if toks.len() > 2 {
                Action::Diag(String::from_str("exit: too many arguments"))
            } else {
                proof {
                    assert(tv[1] == toks@[1]@);
                }
                match parse_i32(toks[1].as_str()) {
                    Some(v) => Action::Terminate(v),
                    None => Action::Diag(
                        concat3("exit: ", toks[1].as_str(), ": numeric argument required"),
                    ),
                }
            }
        } else if str_eq(toks[0].as_str(), "echo") {
            Action::Report(join_with_spaces(&toks, 1))
        } else if str_eq(toks[0].as_str(), "type") {
            Action::DescribeNames(suffix_from(&toks, 1))
        } else if str_eq(toks[0].as_str(), "pwd") {
            Action::Report(self.cwd.clone())
        } else if str_eq(toks[0].as_str(), "cd") {
            if toks.len() >= 2 {
                proof {
                    assert(tv[1] == toks@[1]@);
                }
                Action::ChangeDir(toks[1].clone())
            } else {
                Action::Diag(String::from_str("cd: missing argument"))
            }
        } else {
            Action::RunExternal(toks[0].clone(), suffix_from(&toks, 1))
        }
    }

    /// The report `type` gives for `name`; `resolved` is the answer of path
    /// resolution, consulted only when `name` is no builtin.
    pub fn type_line(&self, name: &str, resolved: &Option<String>) -> (r: String)
        requires
            self.wf(),
        ensures
            r@ == type_line_spec(name@, resolved.deep_view()),
    {
        match self.builtins.lookup(name) {
            Some(d) => d.clone(),
            None => match resolved {
                Some(p) => concat3(name, " is ", p.as_str()),
                None => concat2(name, ": not found"),
            },
        }
    }

    /// Whether `name` names a builtin.
    pub fn is_builtin(&self, name: &str) -> (r: bool)
        requires
            self.wf(),
        ensures
            r == is_builtin_name(name@),
    {
        self.builtins.contains_name(name)
    }

    /// Applies the outcome of a change of directory.  `canonical` is the
    /// canonicalized target when it exists and is a directory, `None`
    /// otherwise; only then is the working directory written, and a failure
    /// reports the original argument and leaves it untouched.
    pub fn apply_cd(&mut self, arg: &str, canonical: &Option<String>) -> (err: Option<String>)
        requires
            old(self).wf(),
        ensures
            final(self).wf(),
            final(self).builtins == old(self).builtins,
            match canonical.deep_view() {
                Some(c) => final(self).cwd@ == c && err is None,
                None => final(self).cwd@ == old(self).cwd@ && match err {
                    Some(m) => m@ == "cd: "@ + arg@ + ": No such file or directory"@,
                    None => false,
                },
            },
    {
        match canonical {
            Some(c) => {
                self.cwd = c.clone();
                None
            },
            None => Some(concat3("cd: ", arg, ": No such file or directory")),
        }
    }
}

/// A line whose first token is `pwd` is dispatched to a report of the
/// working directory, exactly.
pub proof fn lemma_pwd_reports_cwd(cwd: Seq<char>, input: Seq<char>)
    requires
        tokenize(input).len() > 0,
        tokenize(input)[0] == "pwd"@,
    ensures
        decide(cwd, input) == Decision::Report(cwd),
{
    reveal_strlit("pwd");
    reveal_strlit("exit");
    reveal_strlit("echo");
    reveal_strlit("type");
    assert("pwd"@.len() != "exit"@.len());
    assert("pwd"@.len() != "echo"@.len());
    assert("pwd"@.len() != "type"@.len());
}

/// Idempotence of `pwd`: the working directory is written only by a
/// successful change of directory, so two `pwd` lines with no intervening
/// `cd` see the same working directory value and are dispatched to the same
/// report.
pub proof fn lemma_pwd_idempotent(cwd: Seq<char>, first_line: Seq<char>, second_line: Seq<char>)
    requires
        tokenize(first_line).len() > 0,
        tokenize(first_line)[0] == "pwd"@,
        tokenize(second_line).len() > 0,
        tokenize(second_line)[0] == "pwd"@,
    ensures
        decide(cwd, first_line) == decide(cwd, second_line),
        decide(cwd, first_line) == Decision::Report(cwd),
{
    lemma_pwd_reports_cwd(cwd, first_line);
    lemma_pwd_reports_cwd(cwd, second_line);
}

} // verus!
