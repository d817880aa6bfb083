//! The history of command lines and the `history` builtin's decisions. Reading
//! and writing history files is left to the caller.
use vstd::prelude::*;
use vstd::string::*;
use crate::command::{Command, CommandModel};
use crate::errors::ErrorExitCode;
use crate::text::{decimal, decimal_text, join_with_spaces, join_words, parse_count, parse_count_text};

verus! {

/// The history as seen by the proofs: the lines in the order they were entered,
/// and how far back the browsing stands (0: not browsing).
pub struct HistoryModel {
    pub commands: Seq<Seq<char>>,
    pub lookback: nat,
}

/// The line that a command is remembered by: its name and arguments, joined
/// by spaces.
pub open spec fn command_line(c: CommandModel) -> Seq<char> {
    join_words(seq![c.name] + c.arguments)
}

/// The line shown when browsing stands `m.lookback` steps back, if there is one.
pub open spec fn prompt_at(m: HistoryModel) -> Option<Seq<char>> {
    if 0 < m.lookback <= m.commands.len() {
        Some(m.commands[m.commands.len() - m.lookback])
    } else {
        None
    }
}

/// One line of the listing: a tab, the 1-based number, two spaces, the command.
pub open spec fn listing_entry(i: nat, command: Seq<char>) -> Seq<char> {
    seq!['\t'] + decimal(i + 1) + "  "@ + command + seq!['\n']
}

/// The listing of the entries from `from` up to, not including, `to`.
pub open spec fn listing(commands: Seq<Seq<char>>, from: int, to: int) -> Seq<char>
    decreases to - from,
{
    if to <= from {
        Seq::empty()
    } else {
        listing(commands, from, to - 1) + listing_entry((to - 1) as nat, commands[to - 1])
    }
}

/// What the `history` builtin asks for.
pub enum HistoryRequest {
    /// Write this text to standard output.
    Show(String),
    /// Append the lines of this file to the history.
    Load(String),
    /// Write the history to this file, one line each.
    Save(String),
    /// Write this text to standard error and end with this exit code.
    Fail(String, ErrorExitCode),
}

/// The command lines entered so far, and the state of browsing through them.
#[derive(Debug)]
pub struct History {
    pub commands: Vec<String>,
    lookback_index: usize,
}

impl View for History {
    type V = HistoryModel;

    closed spec fn view(&self) -> HistoryModel {
        HistoryModel {
            commands: self.commands@.map_values(|c: String| c@),
            lookback: self.lookback_index as nat,
        }
    }
}

impl History {
    pub fn new() -> (r: Self)
        ensures
            r@.commands == Seq::<Seq<char>>::empty(),
            r@.lookback == 0,
    {
        let r = Self { commands: Vec::new(), lookback_index: 0 };
        assert(r@.commands =~= Seq::<Seq<char>>::empty());
        r
    }

    /// Remembers a command line as it was typed.
    pub fn add_line(&mut self, line: String)
        ensures
            final(self)@.commands == old(self)@.commands.push(line@),
            final(self)@.lookback == old(self)@.lookback,
    {
        self.commands.push(line);
        assert(self@.commands =~= old(self)@.commands.push(line@));
    }

    /// Remembers a command by its name and arguments.
    pub fn add(&mut self, command: &Command)
        ensures
            final(self)@.commands == old(self)@.commands.push(command_line(command@)),
            final(self)@.lookback == old(self)@.lookback,
    {
        let mut parts: Vec<String> = Vec::new();
        parts.push(command.name.clone());
        for i in 0..command.arguments.len()
            invariant
                parts@.map_values(|w: String| w@) == seq![command.name@]
                    + command.arguments@.map_values(|w: String| w@).subrange(0, i as int),
        {
            let ghost before = parts@;
            let a = command.arguments[i].clone();
            parts.push(a);
            assert(parts@ =~= before.push(command.arguments@[i as int]));
            assert(before.map_values(|w: String| w@).push(command.arguments@[i as int]@) =~= parts@.map_values(|w: String| w@));
            assert(command.arguments@.map_values(|w: String| w@).subrange(0, i + 1) =~= command.arguments@.map_values(|w: String| w@).subrange(0, i as int).push(command.arguments@[i as int]@));
            assert(parts@.map_values(|w: String| w@) =~= seq![command.name@]
                + command.arguments@.map_values(|w: String| w@).subrange(0, i + 1));
        }
        assert(command.arguments@.map_values(|w: String| w@).subrange(
            0,
            command.arguments@.len() as int,
        ) =~= command.arguments@.map_values(|w: String| w@));
        let line = join_with_spaces(parts.as_slice());
        self.add_line(line);
    }

    /// Steps one line further back and returns the line there, if any.
    pub fn get_previous_prompt(&mut self) -> (r: Option<&str>)
        ensures
            final(self)@.commands == old(self)@.commands,
            final(self)@.lookback == (if old(self)@.lookback < usize::MAX {
                old(self)@.lookback + 1
            } else {
                old(self)@.lookback
            }),
            r matches Some(s) ==> prompt_at(final(self)@) == Some(s@),
            r is None ==> prompt_at(final(self)@) is None,
    {
        if self.lookback_index < usize::MAX {
            self.lookback_index = self.lookback_index + 1;
        }
        self.prompt_at_lookback()
    }

    /// Steps one line forward and returns the line there, if any; nothing
    /// changes when browsing has not started.
    pub fn get_next_prompt(&mut self) -> (r: Option<&str>)
        ensures
            final(self)@.commands == old(self)@.commands,
            old(self)@.lookback == 0 ==> final(self)@.lookback == 0 && r is None,
            old(self)@.lookback > 0 ==> final(self)@.lookback == old(self)@.lookback - 1,
            r matches Some(s) ==> prompt_at(final(self)@) == Some(s@),
            r is None ==> prompt_at(final(self)@) is None,
    {
        if self.lookback_index == 0 {
            return None;
        }
        self.lookback_index = self.lookback_index - 1;
        self.prompt_at_lookback()
    }

    fn prompt_at_lookback(&self) -> (r: Option<&str>)
        ensures
            r matches Some(s) ==> prompt_at(self@) == Some(s@),
            r is None ==> prompt_at(self@) is None,
    {
        let n = self.commands.len();
        if 0 < self.lookback_index && self.lookback_index <= n {
            Some(self.commands[n - self.lookback_index].as_str())
        } else {
            None
        }
    }

    /// Stops browsing.
    pub fn reset_lookback(&mut self)
        ensures
            final(self)@.commands == old(self)@.commands,
            final(self)@.lookback == 0,
    {
        self.lookback_index = 0;
    }

    /// The listing of the entries from `from` on, each numbered by its place.
    fn listing_from(&self, from: usize) -> (r: String)
        requires
            from <= self@.commands.len(),
        ensures
            r@ == listing(self@.commands, from as int, self@.commands.len() as int),
    {
        let mut r = String::new();
        let n = self.commands.len();
        for i in from..n
            invariant
                n == self@.commands.len(),
                r@ == listing(self@.commands, from as int, i as int),
        {
            r.append("\t");
            let number = decimal_text(i + 1);
            r.append(number.as_str());
            r.append("  ");
            r.append(self.commands[i].as_str());
            r.append("\n");
            proof {
                reveal_strlit("\t");
                reveal_strlit("  ");
                reveal_strlit("\n");
                assert(r@ =~= listing(self@.commands, from as int, i as int) + listing_entry(
                    i as nat,
                    self@.commands[i as int],
                ));
            }
        }
        r
    }

    /// The whole history, numbered from 1.
    pub fn print(&self) -> (r: String)
        ensures
            r@ == listing(self@.commands, 0, self@.commands.len() as int),
    {
        self.listing_from(0)
    }

    /// The last `count` entries (all of them when there are fewer), numbered by
    /// their place in the whole history.
    pub fn print_n(&self, count: usize) -> (r: String)
        ensures
            r@ == listing(
                self@.commands,
                if count <= self@.commands.len() {
                    self@.commands.len() - count
                } else {
                    0
                },
                self@.commands.len() as int,
            ),
    {
        let n = self.commands.len();
        let from = if count <= n {
            n - count
        } else {
            0
        };
        self.listing_from(from)
    }

    /// Decides what `history` does with `arguments`: list everything, list the
    /// last `n` entries, load (`-r path`) or save (`-w path`) a file, or fail on
    /// a missing path or an unknown option.
    pub fn controller(&self, arguments: &[String]) -> (r: HistoryRequest)
        ensures
            ({
                let args = arguments@.map_values(|w: String| w@);
                let n = self@.commands.len() as int;
                if args.len() == 0 {
                    r matches HistoryRequest::Show(t) && t@ == listing(self@.commands, 0, n)
                } else if parse_count(args[0]) is Some {
                    r matches HistoryRequest::Show(t) && t@ == listing(
                        self@.commands,
                        if parse_count(args[0])->Some_0 <= n {
                            n - parse_count(args[0])->Some_0
                        } else {
                            0
                        },
                        n,
                    )
                } else if args[0] == "-r"@ {
                    if args.len() > 1 {
                        r matches HistoryRequest::Load(f) && f@ == args[1]
                    } else {
                        r matches HistoryRequest::Fail(t, code) && t@
                            == "Error: history -r requires a path\n"@ && code@ == 1
                    }
                } else if args[0] == "-w"@ {
                    if args.len() > 1 {
                        r matches HistoryRequest::Save(f) && f@ == args[1]
                    } else {
                        r matches HistoryRequest::Fail(t, code) && t@
                            == "Error: history -w requires a path\n"@ && code@ == 9
                    }
                } else {
                    r matches HistoryRequest::Fail(t, code) && t@ == "Error: Unknown option "@
                        + args[0] + "\nhistory [count]|[-r path]|[-w path]\n"@ && code@ == 5
                }
            }),
    {
        if arguments.len() == 0 {
            return HistoryRequest::Show(self.print());
        }
        let first_argument = &arguments[0];
        if let Some(count) = parse_count_text(first_argument.as_str()) {
            return HistoryRequest::Show(self.print_n(count));
        }
        if *first_argument == String::from_str("-r") {
            if arguments.len() > 1 {
                HistoryRequest::Load(arguments[1].clone())
            } else {
                HistoryRequest::Fail(
                    String::from_str("Error: history -r requires a path\n"),
                    ErrorExitCode::new_const::<1>(),
                )
            }
        } else if *first_argument == String::from_str("-w") {
            if arguments.len() > 1 {
                HistoryRequest::Save(arguments[1].clone())
            } else {
                HistoryRequest::Fail(
                    String::from_str("Error: history -w requires a path\n"),
                    ErrorExitCode::new_const::<9>(),
                )
            }
        } else {
            let message = String::from_str("Error: Unknown option ").concat(
                first_argument.as_str(),
            ).concat("\nhistory [count]|[-r path]|[-w path]\n");
            HistoryRequest::Fail(message, ErrorExitCode::new_const::<5>())
        }
    }
}

} // verus!
