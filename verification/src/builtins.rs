//! The built-in commands and the text they produce. Every built-in's output
//! is rendered here as a string; the surrounding program only writes that
//! string to the stage's stdout or stderr sink.
use vstd::prelude::*;

use crate::exec_index::ExeIndex;
use crate::exec_index::lookup_spec;
use crate::strutil::chars_to_string;
use crate::strutil::join_tail_spaced;
use crate::strutil::str_eq;
use crate::tokenize::join_spaced;

verus! {

/// The commands run inside the shell process rather than spawned: `echo`,
/// `pwd`, `cd`, `type`, `exit` and `history` are all built-ins, and `type`
/// reports each of them as one.
#[derive(Copy, Clone, PartialEq, Eq, Structural, Debug)]
pub enum Builtin {
    Echo,
    Pwd,
    Cd,
    Type,
    Exit,
    History,
}

/// Which built-in a command name denotes, if any.
pub open spec fn builtin_of(s: Seq<char>) -> Option<Builtin> {
    if s == "echo"@ {
        Option::Some(Builtin::Echo)
    } else if s == "pwd"@ {
        Option::Some(Builtin::Pwd)
    } else if s == "cd"@ {
        Option::Some(Builtin::Cd)
    } else if s == "type"@ {
        Option::Some(Builtin::Type)
    } else if s == "exit"@ {
        Option::Some(Builtin::Exit)
    } else if s == "history"@ {
        Option::Some(Builtin::History)
    } else {
        Option::None
    }
}

impl Builtin {
    /// Looks a command name up among the built-ins.
    pub fn from_str(s: &str) -> (r: Option<Builtin>)
        ensures
            r == builtin_of(s@),
    {
        if str_eq(s, "echo") {
            Some(Builtin::Echo)
        } else if str_eq(s, "pwd") {
            Some(Builtin::Pwd)
        } else if str_eq(s, "cd") {
            Some(Builtin::Cd)
        } else if str_eq(s, "type") {
            Some(Builtin::Type)
        } else if str_eq(s, "exit") {
            Some(Builtin::Exit)
        } else if str_eq(s, "history") {
            Some(Builtin::History)
        } else {
            None
        }
    }

    /// The names of all built-ins, in a fixed order.
    pub fn names() -> (r: Vec<String>)
        ensures
            r.deep_view() == seq!["echo"@, "pwd"@, "cd"@, "type"@, "exit"@, "history"@],
    {
        let mut v: Vec<String> = Vec::new();
        v.push(String::from_str("echo"));
        v.push(String::from_str("pwd"));
        v.push(String::from_str("cd"));
        v.push(String::from_str("type"));
        v.push(String::from_str("exit"));
        v.push(String::from_str("history"));
        proof {
            assert(v.deep_view() =~= seq!["echo"@, "pwd"@, "cd"@, "type"@, "exit"@, "history"@]);
        }
        v
    }
}

/// What `echo` writes: the arguments after the command name joined by
/// single spaces, then a newline.
pub open spec fn echo_output(argv: Seq<Seq<char>>) -> Seq<char> {
    join_spaced(argv.skip(1)) + seq!['\n']
}

/// Renders the output of `echo`.
pub fn echo_line(argv: &Vec<String>) -> (r: String)
    requires
        argv.len() >= 1,
    ensures
        r@ == echo_output(argv.deep_view()),
{
    let mut out = join_tail_spaced(argv, 1);
    out.append("\n");
    proof {
        reveal_strlit("\n");
        assert("\n"@ =~= seq!['\n']);
    }
    out
}

/// What `pwd` writes: the working directory, then a newline.
pub open spec fn pwd_output(cwd: Seq<char>) -> Seq<char> {
    cwd + seq!['\n']
}

/// Renders the output of `pwd` for the given working directory.
pub fn pwd_line(cwd: &str) -> (r: String)
    ensures
        r@ == pwd_output(cwd@),
{
    let mut out = String::from_str(cwd);
    out.append("\n");
    proof {
        reveal_strlit("\n");
        assert("\n"@ =~= seq!['\n']);
    }
    out
}

/// What `cd` writes to stderr when the directory cannot be entered.
pub open spec fn cd_error_output(arg: Seq<char>) -> Seq<char> {
    "cd: "@ + arg + ": No such file or directory\n"@
}

/// Renders the error message of `cd` for a directory that cannot be
/// entered.
pub fn cd_error_line(arg: &str) -> (r: String)
    ensures
        r@ == cd_error_output(arg@),
{
    let mut out = String::from_str("cd: ");
    out.append(arg);
    out.append(": No such file or directory\n");
    out
}

/// What the shell writes to stderr for a name that is neither a built-in
/// nor an executable on the search path.
pub open spec fn not_found_output(name: Seq<char>) -> Seq<char> {
    name + ": command not found\n"@
}

/// Renders the message for an unknown command name.
pub fn not_found_line(name: &str) -> (r: String)
    ensures
        r@ == not_found_output(name@),
{
    let mut out = String::from_str(name);
    out.append(": command not found\n");
    out
}

/// What `type` writes for a queried name: built-ins are reported as such;
/// otherwise the first executable whose file stem equals the name is
/// reported with its path, and a name matching neither is not found.
pub open spec fn type_output(name: Seq<char>, paths: Seq<Seq<char>>) -> Seq<char> {
    if builtin_of(name) is Some {
        name + " is a shell builtin\n"@
    } else {
        match lookup_spec(paths, name) {
            Option::Some(p) => name + " is "@ + p + "\n"@,
            Option::None => name + ": not found\n"@,
        }
    }
}

/// Renders the output of `type` for one queried name.
pub fn type_line(name: &str, index: &ExeIndex) -> (r: String)
    ensures
        r@ == type_output(name@, index.paths.deep_view()),
{
    if Builtin::from_str(name).is_some() {
        let mut out = String::from_str(name);
        out.append(" is a shell builtin\n");
        out
    } else {
        match index.lookup(name) {
            Some(p) => {
                let mut out = String::from_str(name);
                out.append(" is ");
                out.append(p.as_str());
                out.append("\n");
                proof {
                    assert(out@ =~= name@ + " is "@ + p@ + "\n"@);
                }
                out
            },
            None => {
                let mut out = String::from_str(name);
                out.append(": not found\n");
                out
            },
        }
    }
}

/// How one pipeline stage is run: by a built-in inside the shell, by
/// spawning the named executable, or not at all because the name is
/// unknown.
#[derive(Copy, Clone, PartialEq, Eq, Structural, Debug)]
pub enum StagePlan {
    Builtin(Builtin),
    External,
    NotFound,
}

/// The decision for a stage: an empty argument vector is unknown; a
/// built-in name runs inside the shell; a name with an executable on the
/// search path is spawned; anything else is unknown.
pub open spec fn plan_of(argv: Seq<Seq<char>>, paths: Seq<Seq<char>>) -> StagePlan {
    if argv.len() == 0 {
        StagePlan::NotFound
    } else if builtin_of(argv[0]) is Some {
        StagePlan::Builtin(builtin_of(argv[0])->0)
    } else if lookup_spec(paths, argv[0]) is Some {
        StagePlan::External
    } else {
        StagePlan::NotFound
    }
}

/// Decides how a stage is run.
pub fn plan_stage(argv: &Vec<String>, index: &ExeIndex) -> (r: StagePlan)
    ensures
        r == plan_of(argv.deep_view(), index.paths.deep_view()),
{
    if argv.len() == 0 {
        return StagePlan::NotFound;
    }
    proof {
        assert(argv.deep_view()[0] == argv[0]@);
    }
    match Builtin::from_str(argv[0].as_str()) {
        Some(b) => StagePlan::Builtin(b),
        None => {
            match index.lookup(argv[0].as_str()) {
                Some(_) => StagePlan::External,
                None => StagePlan::NotFound,
            }
        },
    }
}

/// The argument of `cd` with every tilde replaced by the home directory,
/// read from position `i` on.
pub open spec fn tilde_from(arg: Seq<char>, i: int, home: Seq<char>) -> Seq<char>
    decreases arg.len() - i,
{
    if !(0 <= i < arg.len()) {
        Seq::empty()
    } else if arg[i] == '~' {
        home + tilde_from(arg, i + 1, home)
    } else {
        seq![arg[i]] + tilde_from(arg, i + 1, home)
    }
}

/// The argument of `cd` with every tilde replaced by the home directory.
pub open spec fn tilde_expanded(arg: Seq<char>, home: Seq<char>) -> Seq<char> {
    tilde_from(arg, 0, home)
}

/// Replaces every tilde in a `cd` argument by the home directory.
pub fn expand_tilde(arg: &str, home: &str) -> (r: String)
    ensures
        r@ == tilde_expanded(arg@, home@),
{
    let n = arg.unicode_len();
    let mut out: Vec<char> = Vec::new();
    let mut i: usize = 0;
    proof {
        assert(out@ =~= Seq::<char>::empty());
    }
    while i < n
        invariant
            n == arg@.len(),
            i <= n,
            out@ + tilde_from(arg@, i as int, home@) == tilde_expanded(arg@, home@),
        decreases n - i,
    {
        let c = arg.get_char(i);
        let ghost out0 = out@;
        if c == '~' {
            let m = home.unicode_len();
            let mut j: usize = 0;
            proof {
                assert(out@ =~= out0 + home@.take(0));
            }
            while j < m
                invariant
                    m == home@.len(),
                    j <= m,
                    out@ == out0 + home@.take(j as int),
                decreases m - j,
            {
                out.push(home.get_char(j));
                j += 1;
                proof {
                    assert(out@ =~= out0 + home@.take(j as int));
                }
            }
            proof {
                assert(out@ =~= out0 + home@);
                assert((out0 + home@) + tilde_from(arg@, i as int + 1, home@) =~= out0 + (home@
                    + tilde_from(arg@, i as int + 1, home@)));
            }
        } else {
            out.push(c);
            proof {
                assert(out@ + tilde_from(arg@, i as int + 1, home@) =~= out0 + (seq![c]
                    + tilde_from(arg@, i as int + 1, home@)));
            }
        }
        i += 1;
    }
    proof {
        assert(out@ + tilde_from(arg@, n as int, home@) =~= out@);
    }
    chars_to_string(&out)
}

} // verus!
