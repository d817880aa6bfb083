//! What the builtins `echo` and `type` write, computed from their arguments.
use vstd::prelude::*;
use vstd::string::*;
use crate::builtin_commands::{is_builtin_name, BuiltinCommand};
use crate::text::{join_with_spaces, join_words};

verus! {

/// What a builtin wrote and the exit code it ends with.
#[derive(Debug, Clone)]
pub struct BuiltinReport {
    pub stdout: String,
    pub stderr: String,
    pub exit_code: i32,
}

/// The exit code of `type` without an argument.
pub const TYPE_MISSING_ARGUMENT: i32 = 1;

/// The exit code of `type` on a name that is neither builtin nor executable.
pub const TYPE_NOT_FOUND: i32 = 5;

/// The line that `echo` writes: its arguments joined by spaces.
pub fn echo(user_input: &[String]) -> (r: String)
    ensures
        r@ == join_words(user_input@.map_values(|w: String| w@)).push('\n'),
{
    let mut r = join_with_spaces(user_input);
    crate::text::push_char(&mut r, '\n');
    r
}

/// The report of `type` on `arguments`, where `executable_path` is where the
/// search path holds an executable of the first argument's name, if it does.
pub open spec fn type_report(
    arguments: Seq<Seq<char>>,
    executable_path: Option<Seq<char>>,
) -> (Seq<char>, Seq<char>, i32) {
    if arguments.len() == 0 {
        (Seq::empty(), Seq::empty(), TYPE_MISSING_ARGUMENT)
    } else if is_builtin_name(arguments[0]) {
        (arguments[0] + " is a shell builtin\n"@, Seq::empty(), 0)
    } else {
        match executable_path {
            Some(p) => (arguments[0] + " is "@ + p + "\n"@, Seq::empty(), 0),
            None => (Seq::empty(), arguments[0] + ": not found\n"@, TYPE_NOT_FOUND),
        }
    }
}

/// Says what the first argument is: a builtin, an executable (and where), or
/// nothing known.
pub fn builtin_type(arguments: &[String], executable_path: Option<&str>) -> (r: BuiltinReport)
    ensures
        (r.stdout@, r.stderr@, r.exit_code) == type_report(
            arguments@.map_values(|w: String| w@),
            match executable_path {
                Some(p) => Some(p@),
                None => None,
            },
        ),
{
    if arguments.len() == 0 {
        return BuiltinReport {
            stdout: String::new(),
            stderr: String::new(),
            exit_code: TYPE_MISSING_ARGUMENT,
        };
    }
    let type_input = arguments[0].clone();
    let builtin = BuiltinCommand::resolve(type_input.clone(), Vec::new());
    let is_builtin = builtin.is_builtin();
    proof {
        reveal_strlit("cd");
        reveal_strlit("echo");
        reveal_strlit("exit");
        reveal_strlit("pwd");
        reveal_strlit("type");
        let b = crate::builtin_commands::builtin_names();
        assert(b[0] == "cd"@ && b[1] == "echo"@ && b[2] == "exit"@ && b[3] == "pwd"@ && b[4]
            == "type"@);
        if is_builtin_name(type_input@) {
            let i = choose|i: int| 0 <= i < b.len() && b[i] == type_input@;
        }
    }
    if is_builtin {
        BuiltinReport {
            stdout: type_input.concat(" is a shell builtin\n"),
            stderr: String::new(),
            exit_code: 0,
        }
    } else {
        match executable_path {
            Some(p) => BuiltinReport {
                stdout: type_input.concat(" is ").concat(p).concat("\n"),
                stderr: String::new(),
                exit_code: 0,
            },
            None => BuiltinReport {
                stdout: String::new(),
                stderr: type_input.concat(": not found\n"),
                exit_code: TYPE_NOT_FOUND,
            },
        }
    }
}

} // verus!
