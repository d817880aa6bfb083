//! The builtin registry: which command names the shell runs itself.
use vstd::prelude::*;
use vstd::string::*;
use crate::text::contains_text;

verus! {

/// A command resolved against the builtins; `NotFound` keeps the name for the
/// search among executables.
#[derive(Debug, Clone)]
pub enum BuiltinCommand {
    ChangeDirectory(Vec<String>),
    Echo(Vec<String>),
    Exit,
    PWD,
    Type(Vec<String>),
    NotFound(String, Vec<String>),
}

/// The names of the builtins, in the order in which they are offered.
pub open spec fn builtin_names() -> Seq<Seq<char>> {
    seq!["cd"@, "echo"@, "exit"@, "pwd"@, "type"@]
}

/// Whether `name` is the name of a builtin.
pub open spec fn is_builtin_name(name: Seq<char>) -> bool {
    builtin_names().contains(name)
}

/// `name` as a one-item list when it holds `partial`, else nothing.
pub open spec fn keep_if_holds(name: Seq<char>, partial: Seq<char>) -> Seq<Seq<char>> {
    if crate::text::holds(name, partial) {
        seq![name]
    } else {
        Seq::empty()
    }
}

/// The builtin names that hold `partial`, in registry order.
pub open spec fn matching_builtins(partial: Seq<char>) -> Seq<Seq<char>> {
    keep_if_holds("cd"@, partial) + keep_if_holds("echo"@, partial) + keep_if_holds("exit"@, partial)
        + keep_if_holds("pwd"@, partial) + keep_if_holds("type"@, partial)
}

/// The builtin that `name` resolves to, with its arguments.
pub open spec fn resolve(name: String, arguments: Vec<String>) -> BuiltinCommand {
    if name@ == "cd"@ {
        BuiltinCommand::ChangeDirectory(arguments)
    } else if name@ == "echo"@ {
        BuiltinCommand::Echo(arguments)
    } else if name@ == "exit"@ {
        BuiltinCommand::Exit
    } else if name@ == "pwd"@ {
        BuiltinCommand::PWD
    } else if name@ == "type"@ {
        BuiltinCommand::Type(arguments)
    } else {
        BuiltinCommand::NotFound(name, arguments)
    }
}

fn push_if_holds(r: &mut Vec<String>, name: &str, partial: &str)
    ensures
        final(r)@.map_values(|s: String| s@) == old(r)@.map_values(|s: String| s@)
            + keep_if_holds(name@, partial@),
{
    let ghost before = r@.map_values(|s: String| s@);
    if contains_text(name, partial) {
        r.push(name.to_owned());
        assert(r@.map_values(|s: String| s@) =~= before + seq![name@]);
    } else {
        assert(r@.map_values(|s: String| s@) =~= before + Seq::empty());
    }
}

impl BuiltinCommand {
    /// The builtin names that hold `partial` anywhere, in registry order.
    pub fn matches(partial: &str) -> (r: Vec<String>)
        ensures
            r@.map_values(|s: String| s@) == matching_builtins(partial@),
    {
        let mut r: Vec<String> = Vec::new();
        assert(r@.map_values(|s: String| s@) =~= Seq::empty());
        push_if_holds(&mut r, "cd", partial);
        push_if_holds(&mut r, "echo", partial);
        push_if_holds(&mut r, "exit", partial);
        push_if_holds(&mut r, "pwd", partial);
        push_if_holds(&mut r, "type", partial);
        assert(Seq::<Seq<char>>::empty() + keep_if_holds("cd"@, partial@) =~= keep_if_holds(
            "cd"@,
            partial@,
        ));
        r
    }

    pub fn is_builtin(&self) -> (r: bool)
        ensures
            r == !(*self is NotFound),
    {
        !matches!(self, Self::NotFound(_, _))
    }

    /// Resolves `command` against the builtins.
    pub fn resolve(command: String, arguments: Vec<String>) -> (r: Self)
        ensures
            r == resolve(command, arguments),
    {
        if command == String::from_str("cd") {
            Self::ChangeDirectory(arguments)
        } else if command == String::from_str("echo") {
            Self::Echo(arguments)
        } else if command == String::from_str("exit") {
            Self::Exit
        } else if command == String::from_str("pwd") {
            Self::PWD
        } else if command == String::from_str("type") {
            Self::Type(arguments)
        } else {
            Self::NotFound(command, arguments)
        }
    }
}

} // verus!
